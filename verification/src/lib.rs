//! Frame construction and pulse encoding for the PP16 protocol, which
//! programs graphic electronic shelf labels over a pulsed infrared/RF link.
//!
//! The crate builds the protocol's byte frames (wakeup, image parameter,
//! image data chunks, finalize) with their CRC-16 trailer, and converts a
//! finished frame into a sequence of timed pulse symbols, two per byte,
//! ready for a pulse-capable transmitter peripheral.

use vstd::prelude::*;

pub mod commands;

verus! {

/// Clock ticks per microsecond of the transmitter peripheral.
pub const TICKS_PER_MICROSECOND: u16 = 80;

/// Every pulse symbol drives the line high for this many microseconds;
/// only the low time that follows distinguishes the sixteen symbols.
pub const PULSE_HIGH_MICROSECONDS: u16 = 21;

/// One pulse-position-modulation symbol: the line is held high for
/// `high_ticks` peripheral clock ticks, then low for `low_ticks`.
/// A symbol with both durations zero is the end-of-sequence sentinel.
#[derive(Clone, Copy, Debug, PartialEq, Eq, Structural)]
pub struct PulseSymbol {
    pub high_ticks: u16,
    pub low_ticks: u16,
}

/// Transmission duration in microseconds of each 4-bit PP16 symbol.
/// Inputs wider than 4 bits are masked to their low 4 bits.
pub open spec fn symbol_duration_spec(symbol: u8) -> u16 {
    let nibble = symbol & 0x0F;
    if nibble == 0x0 {
        27
    } else if nibble == 0x1 {
        51
    } else if nibble == 0x2 {
        35
    } else if nibble == 0x3 {
        43
    } else if nibble == 0x4 {
        147
    } else if nibble == 0x5 {
        123
    } else if nibble == 0x6 {
        139
    } else if nibble == 0x7 {
        131
    } else if nibble == 0x8 {
        83
    } else if nibble == 0x9 {
        59
    } else if nibble == 0xA {
        75
    } else if nibble == 0xB {
        67
    } else if nibble == 0xC {
        91
    } else if nibble == 0xD {
        115
    } else if nibble == 0xE {
        99
    } else {
        107
    }
}

/// Duration in microseconds of one PP16 symbol.
pub fn pp16_symbol_duration(symbol: u8) -> (duration: u16)
    ensures
        duration == symbol_duration_spec(symbol),
        27 <= duration <= 147,
{
    let nibble = symbol & 0x0F;
    if nibble == 0x0 {
        27
    } else if nibble == 0x1 {
        51
    } else if nibble == 0x2 {
        35
    } else if nibble == 0x3 {
        43
    } else if nibble == 0x4 {
        147
    } else if nibble == 0x5 {
        123
    } else if nibble == 0x6 {
        139
    } else if nibble == 0x7 {
        131
    } else if nibble == 0x8 {
        83
    } else if nibble == 0x9 {
        59
    } else if nibble == 0xA {
        75
    } else if nibble == 0xB {
        67
    } else if nibble == 0xC {
        91
    } else if nibble == 0xD {
        115
    } else if nibble == 0xE {
        99
    } else {
        107
    }
}

/// The pulse symbol encoding the 4-bit value `nibble`: the line is high
/// for a fixed 21 µs, then low for the remainder of the symbol's
/// duration, both scaled to peripheral clock ticks.
pub open spec fn pulse_for_nibble(nibble: u8) -> PulseSymbol {
    PulseSymbol {
        high_ticks: (PULSE_HIGH_MICROSECONDS * TICKS_PER_MICROSECOND) as u16,
        low_ticks: ((symbol_duration_spec(nibble) - PULSE_HIGH_MICROSECONDS)
            * TICKS_PER_MICROSECOND) as u16,
    }
}

/// The end-of-sequence sentinel: a pulse of zero duration.
pub open spec fn sentinel_pulse() -> PulseSymbol {
    PulseSymbol { high_ticks: 0, low_ticks: 0 }
}

/// The two pulse symbols encoding one byte: high nibble first, then low
/// nibble.
pub open spec fn pulses_for_byte(byte: u8) -> Seq<PulseSymbol> {
    seq![pulse_for_nibble(byte >> 4), pulse_for_nibble(byte & 0x0F)]
}

/// The pulse symbols encoding the bytes of `frame` in order, two per
/// byte, without the trailing sentinel.
pub open spec fn body_pulses_spec(frame: Seq<u8>) -> Seq<PulseSymbol>
    decreases frame.len(),
{
    if frame.len() == 0 {
        Seq::empty()
    } else {
        body_pulses_spec(frame.drop_last()) + pulses_for_byte(frame.last())
    }
}

/// The complete pulse sequence for `frame`: two symbols per byte followed
/// by the end-of-sequence sentinel.
pub open spec fn frame_pulses_spec(frame: Seq<u8>) -> Seq<PulseSymbol> {
    body_pulses_spec(frame) + seq![sentinel_pulse()]
}

/// Each byte contributes exactly two pulse symbols.
pub proof fn lemma_body_pulses_len(frame: Seq<u8>)
    ensures
        body_pulses_spec(frame).len() == 2 * frame.len(),
    decreases frame.len(),
{
    if frame.len() > 0 {
        lemma_body_pulses_len(frame.drop_last());
    }
}

/// Encodes a finished frame into its pulse sequence: for each byte, one
/// symbol for the high nibble, then one for the low nibble, and a single
/// zero-duration sentinel appended at the end. An empty frame yields the
/// sentinel alone.
pub fn frame_to_pulses(frame: Vec<u8>) -> (pulses: Vec<PulseSymbol>)
    ensures
        pulses@ == frame_pulses_spec(frame@),
        pulses@.len() == 2 * frame@.len() + 1,
{
    let mut pulses: Vec<PulseSymbol> = Vec::new();
    let mut i: usize = 0;
    while i < frame.len()
        invariant
            i <= frame@.len(),
            pulses@ == body_pulses_spec(frame@.subrange(0, i as int)),
        decreases frame@.len() - i,
    {
        let byte = frame[i];
        let high_duration = pp16_symbol_duration(byte >> 4);
        pulses.push(PulseSymbol {
            high_ticks: PULSE_HIGH_MICROSECONDS * TICKS_PER_MICROSECOND,
            low_ticks: (high_duration - PULSE_HIGH_MICROSECONDS) * TICKS_PER_MICROSECOND,
        });
        let low_duration = pp16_symbol_duration(byte & 0x0F);
        pulses.push(PulseSymbol {
            high_ticks: PULSE_HIGH_MICROSECONDS * TICKS_PER_MICROSECOND,
            low_ticks: (low_duration - PULSE_HIGH_MICROSECONDS) * TICKS_PER_MICROSECOND,
        });
        proof {
            let prefix = frame@.subrange(0, i + 1);
            assert(prefix.drop_last() =~= frame@.subrange(0, i as int));
            assert(prefix.last() == frame@[i as int]);
            assert(pulses@ =~= body_pulses_spec(prefix));
        }
        i = i + 1;
    }
    pulses.push(PulseSymbol { high_ticks: 0, low_ticks: 0 });
    proof {
        assert(frame@.subrange(0, frame@.len() as int) =~= frame@);
        assert(pulses@ =~= frame_pulses_spec(frame@));
        lemma_body_pulses_len(frame@);
    }
    pulses
}

/// Builds a packed 1-bit-per-pixel bitmap of the given dimensions with
/// every pixel black (bit value 0): `height` rows of `ceil(width / 8)`
/// bytes, all zero.
pub fn build_black_square(width: u16, height: u16) -> (img: Vec<u8>)
    ensures
        img@.len() == (height as int) * ((width as int + 7) / 8),
        forall|i: int| 0 <= i < img@.len() ==> img@[i] == 0u8,
{
    let row_bytes: usize = (width as usize + 7) / 8;
    let mut img: Vec<u8> = Vec::new();
    let mut row: usize = 0;
    while row < height as usize
        invariant
            row <= height as usize,
            img@.len() == row * row_bytes,
            forall|i: int| 0 <= i < img@.len() ==> img@[i] == 0u8,
        decreases height as usize - row,
    {
        let mut col: usize = 0;
        while col < row_bytes
            invariant
                col <= row_bytes,
                img@.len() == row * row_bytes + col,
                forall|i: int| 0 <= i < img@.len() ==> img@[i] == 0u8,
            decreases row_bytes - col,
        {
            img.push(0x00);
            col = col + 1;
        }
        proof {
            assert((row + 1) * row_bytes == row * row_bytes + row_bytes) by (nonlinear_arith);
        }
        row = row + 1;
    }
    img
}

/// Masking an input to its low 4 bits never changes its symbol duration:
/// wider inputs are accepted by truncation rather than rejected.
pub proof fn lemma_symbol_duration_masks(symbol: u8)
    ensures
        symbol_duration_spec(symbol) == symbol_duration_spec(symbol & 0x0F),
{
    assert((symbol & 0x0F) & 0x0F == symbol & 0x0F) by (bit_vector);
}

} // verus!
