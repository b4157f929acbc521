use ferrum::wind::{
    detect_blow, loudest_index, runner_up_level, side_for, MicSide, WindCommand, WindGate,
    NOISE_GATE, SILENT_HOLD,
};

#[test]
fn loudest_prefers_the_first_of_equals() {
    assert_eq!(loudest_index(&[5, 9, 9, 1]), 1);
    assert_eq!(loudest_index(&[0, 0, 0, 0]), 0);
    assert_eq!(loudest_index(&[1, 2, 3, 4]), 3);
}

#[test]
fn runner_up_skips_the_winner() {
    assert_eq!(runner_up_level(&[5, 9, 9, 1], 1), 9);
    assert_eq!(runner_up_level(&[0, 7, 0, 0], 1), 0);
    assert_eq!(runner_up_level(&[3, 7, 2, 6], 1), 6);
}

#[test]
fn sides_of_the_microphones() {
    assert_eq!(side_for(0), MicSide::Front);
    assert_eq!(side_for(1), MicSide::Right);
    assert_eq!(side_for(2), MicSide::Back);
    assert_eq!(side_for(3), MicSide::Left);
}

#[test]
fn detection_needs_gate_and_dominance() {
    assert_eq!(NOISE_GATE, 1500);
    assert!(detect_blow(&[32000, 4000, 3000, 2000]));
    // below the noise gate
    assert!(!detect_blow(&[1499, 0, 0, 0]));
    assert!(detect_blow(&[1500, 0, 0, 0]));
    // exactly 1.5 times the runner-up is not enough
    assert!(!detect_blow(&[3000, 2000, 0, 0]));
    assert!(detect_blow(&[3001, 2000, 0, 0]));
}

#[test]
fn a_blow_sets_the_wind() {
    let mut gate = WindGate::new();
    assert_eq!(
        gate.observe(&[2000, 32000, 3000, 100]),
        WindCommand::Blow { side: MicSide::Right, level: 32000 }
    );
    assert_eq!(gate.silent_ticks, 0);
}

#[test]
fn gust_survives_short_pauses() {
    assert_eq!(SILENT_HOLD, 4);
    let mut gate = WindGate::new();
    assert!(matches!(gate.observe(&[20000, 0, 0, 0]), WindCommand::Blow { .. }));
    assert_eq!(gate.observe(&[0, 0, 0, 0]), WindCommand::Keep);
    assert_eq!(gate.observe(&[10, 0, 0, 0]), WindCommand::Keep);
    assert_eq!(gate.observe(&[0, 0, 1400, 0]), WindCommand::Keep);
    assert_eq!(gate.observe(&[0, 0, 0, 0]), WindCommand::Calm);
    assert_eq!(gate.observe(&[0, 0, 0, 0]), WindCommand::Calm);
    assert_eq!(gate.silent_ticks, 5);
    // a new blow resets the count
    assert_eq!(
        gate.observe(&[0, 0, 0, 9000]),
        WindCommand::Blow { side: MicSide::Left, level: 9000 }
    );
    assert_eq!(gate.silent_ticks, 0);
    assert_eq!(gate.observe(&[0, 0, 0, 0]), WindCommand::Keep);
}

#[test]
fn ambiguous_packets_keep_the_wind_and_the_count() {
    let mut gate = WindGate::new();
    gate.observe(&[0, 0, 0, 0]);
    gate.observe(&[0, 0, 0, 0]);
    assert_eq!(gate.observe(&[5000, 4000, 0, 0]), WindCommand::Keep);
    assert_eq!(gate.silent_ticks, 2);
}
