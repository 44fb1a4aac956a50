// The integer DSP core: scrambler, bit packing, constellation map and
// slicer, FSK rate tables, ring buffer and audio buffer arithmetic.

use hsf_softmodem::audio::ModemAudioConfig;
use hsf_softmodem::bits::{bits_to_bytes, bytes_to_bits};
use hsf_softmodem::dtmf::dtmf_frequencies;
use hsf_softmodem::fsk::{samples_per_bit, FSKMode};
use hsf_softmodem::qam::{map_to_qam16, samples_per_symbol, slice_qam16, QAMMode};
use hsf_softmodem::ringbuffer::RingBuffer;
use hsf_softmodem::scrambler::Scrambler;

#[test]
fn test_scrambler_double_application_agrees_on_prefix() {
    // Feeding a stream through two fresh scrambler instances in turn
    // reproduces the first 28 bits exactly.
    let mut scr = Scrambler::new();
    let mut descr = Scrambler::new();

    let bits: Vec<bool> = (0..40).map(|i| (i * 7 + 3) % 5 < 2).collect();
    let scrambled: Vec<bool> = bits.iter().map(|&b| scr.scramble_bit(b)).collect();
    let descrambled: Vec<bool> = scrambled.iter().map(|&b| descr.scramble_bit(b)).collect();

    for i in 0..28 {
        assert_eq!(descrambled[i], bits[i], "bit {} differs", i);
    }
}

#[test]
fn test_scrambler_byte_round_trip_on_first_bytes() {
    // 24 bits fit inside the agreement window, so the first three
    // bytes survive a scramble/descramble pair exactly.
    let mut scr = Scrambler::new();
    let mut descr = Scrambler::new();

    let data = [0x48u8, 0x65, 0x4C];
    let scrambled: Vec<u8> = data.iter().map(|&b| scr.scramble_byte(b)).collect();
    let descrambled: Vec<u8> = scrambled.iter().map(|&b| descr.scramble_byte(b)).collect();

    assert_eq!(&descrambled[..], &data[..]);
}

#[test]
fn test_scrambler_reset_restores_initial_behaviour() {
    let mut a = Scrambler::new();
    let first = a.scramble_byte(0xA5);
    a.scramble_byte(0x3C);
    a.reset();
    assert_eq!(a.scramble_byte(0xA5), first);
}

#[test]
fn test_scrambler_whitens_zero_input() {
    // All-zero input with a zero register stays zero (the recurrence
    // has no source of ones).
    let mut s = Scrambler::new();
    for _ in 0..64 {
        assert!(!s.scramble_bit(false));
    }
}

#[test]
fn test_bit_packing_round_trip() {
    let data = b"HELLO".to_vec();
    let bits = bytes_to_bits(&data);
    assert_eq!(bits.len(), 40);
    // LSB first: 'H' = 0x48 starts 0,0,0,1,0,0,1,0.
    assert_eq!(
        &bits[..8],
        &[false, false, false, true, false, false, true, false]
    );
    let back = bits_to_bytes(&bits);
    assert_eq!(back, data);
}

#[test]
fn test_bit_packing_drops_trailing_partial_byte() {
    let mut bits = bytes_to_bits(&vec![0xFFu8]);
    bits.push(true);
    bits.push(false);
    let bytes = bits_to_bytes(&bits);
    assert_eq!(bytes, vec![0xFF]);
}

#[test]
fn test_fsk_mode_tables() {
    assert_eq!(FSKMode::Bell103Originate.frequencies(), (1070, 1270));
    assert_eq!(FSKMode::Bell103Answer.frequencies(), (2025, 2225));
    assert_eq!(FSKMode::V21Originate.frequencies(), (1180, 980));
    assert_eq!(FSKMode::V21Answer.frequencies(), (1850, 1650));

    assert_eq!(FSKMode::Bell103Originate.space_freq(), 1070);
    assert_eq!(FSKMode::Bell103Originate.mark_freq(), 1270);
    assert_eq!(FSKMode::Bell103Originate.center_freq(), 1170);
    assert_eq!(FSKMode::Bell103Originate.bandwidth(), 400);
    assert_eq!(FSKMode::V21Originate.center_freq(), 1080);
}

#[test]
fn test_fsk_sample_budget_for_hello() {
    // Five bytes at 300 baud and 8 kHz: 40 bit periods of 26 samples.
    let spb = samples_per_bit(8000, 300);
    assert_eq!(spb, 26);
    let bits = bytes_to_bits(&b"HELLO".to_vec());
    assert_eq!(bits.len() * spb as usize, 1040);
}

#[test]
fn test_qam_mode_tables() {
    assert_eq!(QAMMode::V22.bits_per_symbol(), 2);
    assert_eq!(QAMMode::Bell212A.bits_per_symbol(), 2);
    assert_eq!(QAMMode::V22bis.bits_per_symbol(), 4);

    assert_eq!(QAMMode::V22.data_rate(), 1200);
    assert_eq!(QAMMode::Bell212A.data_rate(), 1200);
    assert_eq!(QAMMode::V22bis.data_rate(), 2400);

    assert_eq!(QAMMode::V22bis.symbol_rate(), 600);
    assert_eq!(QAMMode::V22bis.carrier_freq_originate(), 1200);
    assert_eq!(QAMMode::V22bis.carrier_freq_answer(), 2400);
    assert_eq!(samples_per_symbol(8000), 13);
}

#[test]
fn test_qam16_slicer_inverts_mapper() {
    // Slicing the exact constellation point of every index returns
    // that index (the scaled coordinates are exact).
    for idx in 0u8..16 {
        let (i, q) = map_to_qam16(idx);
        let r = slice_qam16(i as i32 * 1024, q as i32 * 1024);
        assert_eq!(r, idx, "constellation point {} mis-sliced", idx);
    }
}

#[test]
fn test_qam16_slicer_on_noisy_point() {
    // A point near (1, 1) slices to index 0; a point near (-3, -3)
    // slices to index 11.
    assert_eq!(slice_qam16(900, 1200), 0);
    assert_eq!(slice_qam16(-3100, -2800), 11);
}

#[test]
fn test_qam16_constellation_levels() {
    for idx in 0u8..16 {
        let (i, q) = map_to_qam16(idx);
        assert!(matches!(i, -3 | -1 | 1 | 3));
        assert!(matches!(q, -3 | -1 | 1 | 3));
    }
    // All sixteen points are distinct.
    for a in 0u8..16 {
        for b in 0u8..a {
            assert_ne!(map_to_qam16(a), map_to_qam16(b));
        }
    }
}

#[test]
fn test_ring_buffer_fifo_order() {
    let mut rb: RingBuffer<i16> = RingBuffer::new(8, 0);
    assert_eq!(rb.available(), 0);

    assert_eq!(rb.write(&[1, 2, 3, 4, 5]), 5);
    assert_eq!(rb.available(), 5);

    assert_eq!(rb.read(3), vec![1, 2, 3]);
    assert_eq!(rb.available(), 2);

    // Wraps around the end of the backing store.
    assert_eq!(rb.write(&[6, 7, 8, 9, 10]), 5);
    assert_eq!(rb.read(100), vec![4, 5, 6, 7, 8, 9, 10]);
    assert_eq!(rb.available(), 0);
}

#[test]
fn test_ring_buffer_keeps_one_slot_free() {
    let mut rb: RingBuffer<u8> = RingBuffer::new(4, 0);
    // Only capacity - 1 elements fit; the rest is refused, in order.
    assert_eq!(rb.write(&[1, 2, 3, 4, 5]), 3);
    assert_eq!(rb.write(&[9]), 0);
    assert_eq!(rb.read(10), vec![1, 2, 3]);
}

#[test]
fn test_ring_buffer_read_from_empty() {
    let mut rb: RingBuffer<u8> = RingBuffer::new(4, 0);
    assert_eq!(rb.read(10), Vec::<u8>::new());
}

#[test]
fn test_audio_config_buffer_arithmetic() {
    let c = ModemAudioConfig::default();
    assert_eq!(c.sample_rate, 8000);
    assert_eq!(c.bits_per_sample, 16);
    assert_eq!(c.channels, 1);
    assert_eq!(c.buffer_duration_ms, 20);

    // 20 ms at 8 kHz mono: 160 frames, ring of four buffers.
    assert_eq!(c.frames_per_buffer(), 160);
    assert_eq!(c.capture_samples(), 160);
    assert_eq!(c.playback_ring_capacity(), 640);
}

#[test]
fn test_dtmf_keypad_tones() {
    assert_eq!(dtmf_frequencies('1'), Some((697, 1209)));
    assert_eq!(dtmf_frequencies('5'), Some((770, 1336)));
    assert_eq!(dtmf_frequencies('9'), Some((852, 1477)));
    assert_eq!(dtmf_frequencies('0'), Some((941, 1336)));
    assert_eq!(dtmf_frequencies('#'), Some((941, 1477)));
    assert_eq!(dtmf_frequencies('D'), Some((941, 1633)));
    assert_eq!(dtmf_frequencies('x'), None);
}
