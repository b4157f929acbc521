//! Supervision of the link to the Raspberry Pi: whether data is arriving, and
//! when to give up and fall back to the manual sliders.
use vstd::prelude::*;

verus! {

/// Retry windows without any packet after which manual mode takes over.
pub const MAX_ATTEMPTS: u32 = 3;

/// How recently the last sensor packet arrived.
#[derive(Clone, Copy, Debug, PartialEq, Eq, Structural)]
pub enum PacketAge {
    /// No packet since the link was (re)started.
    Never,
    /// A packet arrived within the freshness window (5 s).
    Recent,
    /// The last packet is older than the freshness window.
    Stale,
}

/// What a supervision step reports.
#[derive(Clone, Copy, Debug, PartialEq, Eq, Structural)]
pub enum LinkEvent {
    /// Nothing to report.
    Idle,
    /// A retry window expired; `attempt` of `MAX_ATTEMPTS` is starting (restart the window timer).
    Waiting { attempt: u32 },
    /// The last retry window expired (restart the window timer); when
    /// `switched` the demo has just left RPi mode for manual mode.
    GaveUp { switched: bool },
}

/// Connection state shown in the control panel and used by the frame update.
#[derive(Clone, Copy, Debug, PartialEq, Eq, Structural)]
pub struct LinkSupervisor {
    /// Retry windows that expired without any packet.
    pub attempts: u32,
    /// `true` = drive the scene from the RPi sensors; `false` = manual sliders.
    pub rpi_mode: bool,
    /// Whether packets are arriving.
    pub rpi_connected: bool,
}

/// One supervision step: the new state and what happened.
pub open spec fn link_step(s: LinkSupervisor, age: PacketAge, window_elapsed: bool) -> (
    LinkSupervisor,
    LinkEvent,
) {
    match age {
        PacketAge::Recent => (LinkSupervisor { rpi_connected: true, ..s }, LinkEvent::Idle),
        PacketAge::Stale => (LinkSupervisor { rpi_connected: false, ..s }, LinkEvent::Idle),
        PacketAge::Never => {
            let s1 = LinkSupervisor { rpi_connected: false, ..s };
            if s.attempts < MAX_ATTEMPTS && window_elapsed {
                let a = (s.attempts + 1) as u32;
                if a >= MAX_ATTEMPTS {
                    (
                        LinkSupervisor { attempts: a, rpi_mode: false, ..s1 },
                        LinkEvent::GaveUp { switched: s.rpi_mode },
                    )
                } else {
                    (LinkSupervisor { attempts: a, ..s1 }, LinkEvent::Waiting { attempt: a })
                }
            } else {
                (s1, LinkEvent::Idle)
            }
        },
    }
}

/// State after a run of supervision steps in which no packet ever arrives and
/// every retry window expires.
pub open spec fn silent_windows(s: LinkSupervisor, n: nat) -> LinkSupervisor
    decreases n,
{
    if n == 0 {
        s
    } else {
        silent_windows(link_step(s, PacketAge::Never, true).0, (n - 1) as nat)
    }
}

impl LinkSupervisor {
    /// Starts in RPi mode, not yet connected, with no expired window.
    pub fn new() -> (s: Self)
        ensures
            s.attempts == 0,
            s.rpi_mode,
            !s.rpi_connected,
    {
        LinkSupervisor { attempts: 0, rpi_mode: true, rpi_connected: false }
    }

    /// A (re)connection was requested from the panel: the retry count starts over.
    pub fn restart(&mut self)
        ensures
            *final(self) == (LinkSupervisor { attempts: 0, ..*old(self) }),
    {
        self.attempts = 0;
    }

    /// One frame of supervision, given how recent the last packet is and
    /// whether the current retry window (3 s) has expired.
    pub fn step(&mut self, age: PacketAge, window_elapsed: bool) -> (event: LinkEvent)
        ensures
            (*final(self), event) == link_step(*old(self), age, window_elapsed),
    {
        match age {
            PacketAge::Recent => {
                self.rpi_connected = true;
                LinkEvent::Idle
            },
            PacketAge::Stale => {
                self.rpi_connected = false;
                LinkEvent::Idle
            },
            PacketAge::Never => {
                self.rpi_connected = false;
                if self.attempts < MAX_ATTEMPTS && window_elapsed {
                    self.attempts = self.attempts + 1;
                    if self.attempts >= MAX_ATTEMPTS {
                        let switched = self.rpi_mode;
                        self.rpi_mode = false;
                        LinkEvent::GaveUp { switched }
                    } else {
                        LinkEvent::Waiting { attempt: self.attempts }
                    }
                } else {
                    LinkEvent::Idle
                }
            },
        }
    }
}

/// Whether toggling the RPi checkbox must relaunch the SSH deployment: it was
/// just switched on while no data is arriving.
pub fn toggle_requests_deploy(changed: bool, rpi_mode: bool, rpi_connected: bool) -> (deploy: bool)
    ensures
        deploy == (changed && rpi_mode && !rpi_connected),
{
    changed && rpi_mode && !rpi_connected
}


/// WebSocket close code sent when the connection fails (internal error).
pub const CLOSE_INTERNAL_ERROR: u16 = 1011;

/// What the sensor socket of the demo received.
#[derive(Clone, Copy, Debug, PartialEq, Eq, Structural)]
pub enum SocketInput {
    /// A binary frame (an encoded sensor packet).
    Binary,
    /// The client closed the connection.
    Close,
    /// Receiving failed.
    Failed,
    /// The stream ended.
    Ended,
    /// Any other frame (text, ping, pong).
    Other,
    /// The keep-alive interval (30 s) elapsed.
    KeepAlive,
}

/// What the socket handler does next.
#[derive(Clone, Copy, Debug, PartialEq, Eq, Structural)]
pub enum SocketAction {
    /// Decode the binary frame and hand the packet to the renderer.
    Forward,
    /// Stop serving this connection.
    Stop,
    /// Send a close frame with `code`, then stop.
    CloseWith { code: u16 },
    /// Send a ping to keep the connection alive.
    Ping,
    /// Nothing to do.
    Ignore,
}

/// Decision of the sensor socket handler for one input.
pub fn socket_action(input: SocketInput) -> (action: SocketAction)
    ensures
        action == match input {
            SocketInput::Binary => SocketAction::Forward,
            SocketInput::Close | SocketInput::Ended => SocketAction::Stop,
            SocketInput::Failed => SocketAction::CloseWith { code: CLOSE_INTERNAL_ERROR },
            SocketInput::Other => SocketAction::Ignore,
            SocketInput::KeepAlive => SocketAction::Ping,
        },
{
    match input {
        SocketInput::Binary => SocketAction::Forward,
        SocketInput::Close | SocketInput::Ended => SocketAction::Stop,
        SocketInput::Failed => SocketAction::CloseWith { code: CLOSE_INTERNAL_ERROR },
        SocketInput::Other => SocketAction::Ignore,
        SocketInput::KeepAlive => SocketAction::Ping,
    }
}

/// Fresh packets always mean a live link: whatever the retry count and the
/// mode, and whether or not a retry window expired, a step with a recent
/// packet shows the Pi as connected, reports nothing, and leaves the retry
/// count and the mode alone. A stale packet shows it as disconnected, with
/// the same guarantees.
pub proof fn lemma_packets_decide_connection(s: LinkSupervisor, window_elapsed: bool)
    ensures
        link_step(s, PacketAge::Recent, window_elapsed).0.rpi_connected,
        link_step(s, PacketAge::Recent, window_elapsed).0.attempts == s.attempts,
        link_step(s, PacketAge::Recent, window_elapsed).0.rpi_mode == s.rpi_mode,
        link_step(s, PacketAge::Recent, window_elapsed).1 == LinkEvent::Idle,
        !link_step(s, PacketAge::Stale, window_elapsed).0.rpi_connected,
        link_step(s, PacketAge::Stale, window_elapsed).0.attempts == s.attempts,
        link_step(s, PacketAge::Stale, window_elapsed).0.rpi_mode == s.rpi_mode,
        link_step(s, PacketAge::Stale, window_elapsed).1 == LinkEvent::Idle,
{
}

/// The retry count never exceeds `MAX_ATTEMPTS`.
pub proof fn lemma_attempts_bounded(s: LinkSupervisor, age: PacketAge, window_elapsed: bool)
    requires
        s.attempts <= MAX_ATTEMPTS,
    ensures
        link_step(s, age, window_elapsed).0.attempts <= MAX_ATTEMPTS,
{
}

/// With no packet at all, `MAX_ATTEMPTS` expired retry windows after a
/// (re)start switch the demo to manual mode, and it stays there.
pub proof fn lemma_gives_up_after_retries(s: LinkSupervisor, extra: nat)
    requires
        s.attempts == 0,
    ensures
        !silent_windows(s, MAX_ATTEMPTS as nat + extra).rpi_mode,
        !silent_windows(s, MAX_ATTEMPTS as nat + extra).rpi_connected,
        silent_windows(s, MAX_ATTEMPTS as nat + extra).attempts == MAX_ATTEMPTS,
    decreases extra,
{
    if extra == 0 {
        reveal_with_fuel(silent_windows, 4);
    } else {
        lemma_gives_up_after_retries(s, (extra - 1) as nat);
        lemma_silent_windows_split(s, (MAX_ATTEMPTS as nat + extra - 1) as nat);
    }
}

proof fn lemma_silent_windows_split(s: LinkSupervisor, n: nat)
    ensures
        silent_windows(s, n + 1) == silent_windows(link_step(silent_windows(s, n), PacketAge::Never, true).0, 0),
    decreases n,
{
    if n > 0 {
        lemma_silent_windows_split(link_step(s, PacketAge::Never, true).0, (n - 1) as nat);
    }
}

} // verus!
