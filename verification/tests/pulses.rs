use precir::commands::get_wakeup_command;
use precir::{build_black_square, frame_to_pulses, pp16_symbol_duration, PulseSymbol};

#[test]
fn symbol_durations_match_the_table() {
    let expected: [u16; 16] = [
        27, 51, 35, 43, 147, 123, 139, 131, 83, 59, 75, 67, 91, 115, 99, 107,
    ];
    for nibble in 0u8..16 {
        assert_eq!(pp16_symbol_duration(nibble), expected[nibble as usize]);
    }
}

#[test]
fn symbol_duration_masks_wide_inputs() {
    assert_eq!(pp16_symbol_duration(0x1F), pp16_symbol_duration(0x0F));
    assert_eq!(pp16_symbol_duration(0xFF), 107);
    assert_eq!(pp16_symbol_duration(0xA0), 27);
    for nibble in 0u8..16 {
        assert_eq!(pp16_symbol_duration(nibble | 0xF0), pp16_symbol_duration(nibble));
    }
}

#[test]
fn empty_frame_encodes_to_the_sentinel_alone() {
    let pulses = frame_to_pulses(Vec::new());
    assert_eq!(pulses.len(), 1);
    assert_eq!(pulses[0], PulseSymbol { high_ticks: 0, low_ticks: 0 });
}

#[test]
fn one_byte_frame_encodes_high_nibble_first() {
    let pulses = frame_to_pulses(vec![0x5A]);
    assert_eq!(
        pulses,
        vec![
            // high nibble 0x5: 123 µs symbol
            PulseSymbol { high_ticks: 21 * 80, low_ticks: (123 - 21) * 80 },
            // low nibble 0xA: 75 µs symbol
            PulseSymbol { high_ticks: 21 * 80, low_ticks: (75 - 21) * 80 },
            PulseSymbol { high_ticks: 0, low_ticks: 0 },
        ]
    );
}

#[test]
fn pulse_count_is_two_per_byte_plus_sentinel() {
    let frame = get_wakeup_command([0xd0, 0x39, 0xc3, 0xde]);
    let pulses = frame_to_pulses(frame.clone());
    assert_eq!(pulses.len(), 2 * frame.len() + 1);
    assert_eq!(pulses.last(), Some(&PulseSymbol { high_ticks: 0, low_ticks: 0 }));
    for pulse in &pulses[..pulses.len() - 1] {
        assert_eq!(pulse.high_ticks, 1680);
        assert!(pulse.low_ticks >= (27 - 21) * 80);
        assert!(pulse.low_ticks <= (147 - 21) * 80);
    }
}

#[test]
fn black_square_bitmap_is_all_zero_with_packed_rows() {
    let img = build_black_square(16, 16);
    assert_eq!(img.len(), 32);
    assert!(img.iter().all(|&b| b == 0));
    // rows are padded to whole bytes: ceil(12 / 8) = 2 bytes per row
    assert_eq!(build_black_square(12, 3).len(), 6);
    assert_eq!(build_black_square(0, 5).len(), 0);
}
