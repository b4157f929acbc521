use ferrum::link::{
    socket_action, toggle_requests_deploy, LinkEvent, LinkSupervisor, PacketAge, SocketAction,
    SocketInput, CLOSE_INTERNAL_ERROR, MAX_ATTEMPTS,
};

#[test]
fn starts_in_rpi_mode() {
    let s = LinkSupervisor::new();
    assert_eq!(s, LinkSupervisor { attempts: 0, rpi_mode: true, rpi_connected: false });
}

#[test]
fn packets_mark_the_link_connected() {
    let mut s = LinkSupervisor::new();
    assert_eq!(s.step(PacketAge::Recent, true), LinkEvent::Idle);
    assert!(s.rpi_connected);
    assert_eq!(s.step(PacketAge::Stale, true), LinkEvent::Idle);
    assert!(!s.rpi_connected);
    assert_eq!(s.attempts, 0);
    assert!(s.rpi_mode);
}

#[test]
fn gives_up_after_three_silent_windows() {
    assert_eq!(MAX_ATTEMPTS, 3);
    let mut s = LinkSupervisor::new();
    assert_eq!(s.step(PacketAge::Never, false), LinkEvent::Idle);
    assert_eq!(s.step(PacketAge::Never, true), LinkEvent::Waiting { attempt: 1 });
    assert_eq!(s.step(PacketAge::Never, false), LinkEvent::Idle);
    assert_eq!(s.step(PacketAge::Never, true), LinkEvent::Waiting { attempt: 2 });
    assert_eq!(s.step(PacketAge::Never, true), LinkEvent::GaveUp { switched: true });
    assert!(!s.rpi_mode);
    assert_eq!(s.attempts, 3);
    assert_eq!(s.step(PacketAge::Never, true), LinkEvent::Idle);
    assert_eq!(s.attempts, 3);
}

#[test]
fn giving_up_in_manual_mode_reports_no_switch() {
    let mut s = LinkSupervisor { attempts: 2, rpi_mode: false, rpi_connected: false };
    assert_eq!(s.step(PacketAge::Never, true), LinkEvent::GaveUp { switched: false });
}

#[test]
fn restart_resets_attempts_only() {
    let mut s = LinkSupervisor { attempts: 3, rpi_mode: false, rpi_connected: false };
    s.restart();
    assert_eq!(s, LinkSupervisor { attempts: 0, rpi_mode: false, rpi_connected: false });
    s.rpi_mode = true;
    assert_eq!(s.step(PacketAge::Never, true), LinkEvent::Waiting { attempt: 1 });
}

#[test]
fn checkbox_relaunches_deploy_only_when_switched_on_without_data() {
    assert!(toggle_requests_deploy(true, true, false));
    assert!(!toggle_requests_deploy(false, true, false));
    assert!(!toggle_requests_deploy(true, false, false));
    assert!(!toggle_requests_deploy(true, true, true));
}

#[test]
fn socket_decisions() {
    assert_eq!(socket_action(SocketInput::Binary), SocketAction::Forward);
    assert_eq!(socket_action(SocketInput::Close), SocketAction::Stop);
    assert_eq!(socket_action(SocketInput::Ended), SocketAction::Stop);
    assert_eq!(socket_action(SocketInput::Failed), SocketAction::CloseWith { code: 1011 });
    assert_eq!(CLOSE_INTERNAL_ERROR, 1011);
    assert_eq!(socket_action(SocketInput::Other), SocketAction::Ignore);
    assert_eq!(socket_action(SocketInput::KeepAlive), SocketAction::Ping);
}
