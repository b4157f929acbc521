use ferrum::mic::{
    after_poll, PollStep, MAX_POLLS,
    config_wire_word, config_word, conversion_ready, decode_conversion, idle_readings,
    swap_bytes, trimmed_amplitude, MicReading, ADS1115_ADDR, MICROPHONES_SIZE, REG_CONFIG,
    REG_CONVERSION,
};

#[test]
fn register_constants() {
    assert_eq!(ADS1115_ADDR, 0x48);
    assert_eq!(REG_CONVERSION, 0x00);
    assert_eq!(REG_CONFIG, 0x01);
    assert_eq!(MICROPHONES_SIZE, 4);
}

#[test]
fn config_word_per_channel() {
    assert_eq!(config_word(0), 0xC5E3);
    assert_eq!(config_word(1), 0xD5E3);
    assert_eq!(config_word(2), 0xE5E3);
    assert_eq!(config_word(3), 0xF5E3);
    // same formula as the firmware for any channel byte
    for ch in 0u8..=255 {
        let mux: u16 = 0x04u16 + ch as u16;
        let expected: u16 = 0x8000 | (mux << 12) | 0x0400 | 0x0100 | 0x00E0 | 0x0003;
        assert_eq!(config_word(ch), expected);
    }
}

#[test]
fn wire_word_is_byte_swapped() {
    assert_eq!(config_wire_word(0), 0xE3C5);
    assert_eq!(config_wire_word(3), 0xE3F5);
}

#[test]
fn swap_matches_std_and_is_an_involution() {
    for x in [0u16, 1, 0x00FF, 0xFF00, 0x1234, 0xBEEF, u16::MAX] {
        assert_eq!(swap_bytes(x), x.swap_bytes());
        assert_eq!(swap_bytes(swap_bytes(x)), x);
    }
}

#[test]
fn conversion_ready_reads_the_os_bit() {
    // register 0x8000 arrives as 0x0080 on the bus
    assert!(conversion_ready(0x0080));
    assert!(!conversion_ready(0x8000));
    assert!(conversion_ready(0xE3C5));
    assert!(!conversion_ready(0x0000));
}

#[test]
fn conversion_decodes_signed_big_endian() {
    assert_eq!(decode_conversion(0x3412), 0x1234);
    assert_eq!(decode_conversion(0xFFFF), -1);
    assert_eq!(decode_conversion(0x0080), i16::MIN);
    assert_eq!(decode_conversion(0xFF7F), i16::MAX);
}

#[test]
fn amplitude_of_a_ramp() {
    let mut s = [0i16; 20];
    for (i, v) in s.iter_mut().enumerate() {
        *v = (i as i16) * 10;
    }
    // sorted[17] - sorted[2] = 170 - 20
    assert_eq!(trimmed_amplitude(s), 150);
}

#[test]
fn amplitude_of_a_flat_burst_is_zero() {
    assert_eq!(trimmed_amplitude([1234i16; 20]), 0);
}

#[test]
fn two_spikes_each_side_are_trimmed() {
    let mut s = [100i16; 20];
    s[3] = i16::MAX;
    s[11] = 30000;
    s[7] = i16::MIN;
    s[19] = -30000;
    assert_eq!(trimmed_amplitude(s), 0);
    // a third spike survives
    s[0] = 20000;
    assert_eq!(trimmed_amplitude(s), 19900);
}

#[test]
fn amplitude_ignores_sample_order() {
    let s: [i16; 20] = [
        5, -3, 900, 12, -700, 44, 3, 3, 18000, -2, 7, 0, 1, -15000, 66, 9, 8, 400, -5, 31,
    ];
    let mut r = s;
    r.reverse();
    assert_eq!(trimmed_amplitude(s), trimmed_amplitude(r));
    let mut sorted = s;
    sorted.sort();
    assert_eq!(trimmed_amplitude(s), (sorted[17] as i32 - sorted[2] as i32) as u16);
}

#[test]
fn full_range_amplitude() {
    let mut s = [0i16; 20];
    for i in 0..10 {
        s[i] = i16::MIN;
        s[i + 10] = i16::MAX;
    }
    assert_eq!(trimmed_amplitude(s), u16::MAX);
}

#[test]
fn idle_readings_number_the_channels() {
    let r = idle_readings();
    for (i, m) in r.iter().enumerate() {
        assert_eq!(*m, MicReading { channel: i as u8, raw: 0 });
    }
    assert_eq!(MicReading::default(), MicReading { channel: 0, raw: 0 });
}

#[test]
fn polling_waits_for_the_os_bit_at_most_fifty_times() {
    assert_eq!(MAX_POLLS, 50);
    assert_eq!(after_poll(0, true), PollStep::ReadNow);
    assert_eq!(after_poll(0, false), PollStep::SleepThenPoll);
    assert_eq!(after_poll(48, false), PollStep::SleepThenPoll);
    assert_eq!(after_poll(49, false), PollStep::SleepThenRead);
    assert_eq!(after_poll(49, true), PollStep::ReadNow);
}

#[test]
fn any_two_samples_are_ignored() {
    let base: [i16; 20] = [
        100, 104, 98, 101, 103, 99, 102, 100, 97, 105, 101, 100, 99, 103, 98, 102, 100, 101, 104, 99,
    ];
    let rest_spread = 105 - 97;
    for i in 0..20 {
        for j in 0..20 {
            let mut s = base;
            s[i] = i16::MAX;
            s[j] = i16::MIN;
            assert!(trimmed_amplitude(s) as i32 <= rest_spread);
        }
    }
}
