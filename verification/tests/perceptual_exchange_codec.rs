use kirin_measure::perceptual_exchange_codec::Cursor;

#[test]
fn cursor_reads_little_endian_fields_in_order() {
    let bytes = [1u8, 2, 3, 4, 5, 6, 7, 8, 9, 0xff];
    let mut c = Cursor::new(&bytes);
    assert_eq!(c.remaining(), 10);
    assert_eq!(c.u8(), Some(1));
    assert_eq!(c.u16(), Some(0x0302));
    assert_eq!(c.u32(), Some(0x0706_0504));
    assert_eq!(c.remaining(), 3);
    assert_eq!(c.u64(), None);
    assert_eq!(c.remaining(), 3, "a short read consumes nothing");
    assert_eq!(c.take(3), Some(&bytes[7..10]));
    assert_eq!(c.remaining(), 0);
    assert_eq!(c.u8(), None);
    assert_eq!(c.take(0), Some(&bytes[10..10]));
}

#[test]
fn cursor_reads_u64_and_twos_complement_i64() {
    let v: u64 = 0x0123_4567_89ab_cdef;
    let n: i64 = -2;
    let mut bytes = Vec::new();
    bytes.extend_from_slice(&v.to_le_bytes());
    bytes.extend_from_slice(&n.to_le_bytes());
    bytes.extend_from_slice(&i64::MIN.to_le_bytes());
    bytes.extend_from_slice(&i64::MAX.to_le_bytes());
    let mut c = Cursor::new(&bytes);
    assert_eq!(c.u64(), Some(v));
    assert_eq!(c.i64(), Some(-2));
    assert_eq!(c.i64(), Some(i64::MIN));
    assert_eq!(c.i64(), Some(i64::MAX));
    assert_eq!(c.i64(), None);
}

#[test]
fn cursor_take_beyond_the_end_is_refused() {
    let bytes = [0u8; 4];
    let mut c = Cursor::new(&bytes);
    assert_eq!(c.take(5), None);
    assert_eq!(c.take(usize::MAX), None);
    assert_eq!(c.remaining(), 4);
}

use kirin_measure::perceptual::SpectrumChannelMode;
use kirin_measure::perceptual_exchange_codec::{
    decode_perceptual_snapshot, encode_perceptual_snapshot, SnapshotBits, SnapshotFrameBits,
    PERCEPTUAL_HISTORY_CAPACITY, PERCEPTUAL_SNAPSHOT_MAX_BYTES,
};

fn frame_bits(i: usize, psb: Option<[f64; 20]>) -> SnapshotFrameBits {
    SnapshotFrameBits {
        presentation_end_samples: i as i64 * 4_800,
        state_epoch_samples: 0,
        generation: 7,
        channel_mode: SpectrumChannelMode::Lr,
        channels: 2,
        aperture_samples: 4_800,
        sharpness_bits: 1.5f64.to_bits(),
        has_psb: psb.is_some(),
        share_bits: psb.unwrap_or([0.0; 20]).iter().map(|v| v.to_bits()).collect(),
    }
}

fn snapshot(count: usize, psb: Option<[f64; 20]>) -> SnapshotBits {
    SnapshotBits {
        request_id: vec![0; 16],
        sample_rate: 48_000,
        frames: (1..=count).map(|i| frame_bits(i, psb)).collect(),
    }
}

fn encoded(count: usize, psb: Option<[f64; 20]>) -> Vec<u8> {
    encode_perceptual_snapshot(&snapshot(count, psb))
}

#[test]
fn psb_codec_preserves_full_recovery_window_and_optional_silence() {
    for shares in [None, Some([0.05; 20])] {
        let bytes = encoded(PERCEPTUAL_HISTORY_CAPACITY, shares);
        assert_eq!(bytes.len(), 32 + 201 * PERCEPTUAL_HISTORY_CAPACITY);
        assert!(bytes.len() <= PERCEPTUAL_SNAPSHOT_MAX_BYTES as usize);
        let decoded = decode_perceptual_snapshot(&bytes).unwrap();
        assert_eq!(decoded.frames.len(), PERCEPTUAL_HISTORY_CAPACITY);
        let newest = decoded.frames.last().unwrap();
        assert_eq!(newest.has_psb, shares.is_some());
        let expected: Vec<u64> = shares.unwrap_or([0.0; 20]).iter().map(|v| v.to_bits()).collect();
        assert_eq!(newest.share_bits, expected);
        assert_eq!(decoded, snapshot(PERCEPTUAL_HISTORY_CAPACITY, shares));
    }
}

#[test]
fn psb_codec_rejects_old_truncated_invalid_or_oversized_payloads() {
    let bytes = encoded(2, Some([0.05; 20]));
    for end in 0..bytes.len() {
        assert!(decode_perceptual_snapshot(&bytes[..end]).is_none());
    }
    for (index, value) in [(7, b'2'), (10, 17), (32 + 40, 2), (32 + 26, 1)] {
        let mut invalid = bytes.clone();
        invalid[index] = value;
        assert!(decode_perceptual_snapshot(&invalid).is_none(), "offset {index}");
    }
    // The byte format hands the share values over as raw bit patterns; judging them as
    // numbers (finite, within range, summing to one) is the caller's floating-point step.
    for value in [f64::NAN, f64::INFINITY, -0.1, 0.5] {
        let mut invalid = bytes.clone();
        invalid[73..81].copy_from_slice(&value.to_le_bytes());
        let decoded = decode_perceptual_snapshot(&invalid).unwrap();
        assert_eq!(decoded.frames[0].share_bits[0], value.to_bits());
    }
    assert!(decode_perceptual_snapshot(&vec![0; 4_097]).is_none());
    let mut duplicate = bytes.clone();
    duplicate[233..241].copy_from_slice(&4_800i64.to_le_bytes());
    assert!(decode_perceptual_snapshot(&duplicate).is_none());
}

#[test]
fn snapshot_header_and_frame_rules() {
    let good = snapshot(3, None);
    let bytes = encode_perceptual_snapshot(&good);
    assert_eq!(&bytes[0..8], b"KHPERC03");
    assert_eq!(decode_perceptual_snapshot(&bytes), Some(good.clone()));
    // Trailing byte.
    let mut longer = bytes.clone();
    longer.push(0);
    assert!(decode_perceptual_snapshot(&longer).is_none());
    // Each rule refused on its own.
    let mut bad = good.clone();
    bad.sample_rate = 44_105;
    assert!(decode_perceptual_snapshot(&encode_perceptual_snapshot(&bad)).is_none());
    let mut bad = good.clone();
    bad.frames[1].generation = 0;
    assert!(decode_perceptual_snapshot(&encode_perceptual_snapshot(&bad)).is_none());
    let mut bad = good.clone();
    bad.frames[0].channel_mode = SpectrumChannelMode::Side;
    bad.frames[0].channels = 1;
    assert!(decode_perceptual_snapshot(&encode_perceptual_snapshot(&bad)).is_none());
    let mut bad = good.clone();
    bad.frames[0].channels = 3;
    assert!(decode_perceptual_snapshot(&encode_perceptual_snapshot(&bad)).is_none());
    let mut bad = good.clone();
    bad.frames[2].aperture_samples = 4_801;
    assert!(decode_perceptual_snapshot(&encode_perceptual_snapshot(&bad)).is_none());
    let mut bad = good.clone();
    bad.frames[0].state_epoch_samples = 100;
    assert!(decode_perceptual_snapshot(&encode_perceptual_snapshot(&bad)).is_none());
    let mut bad = good.clone();
    bad.frames[0].presentation_end_samples = 0;
    assert!(decode_perceptual_snapshot(&encode_perceptual_snapshot(&bad)).is_none());
    // Negative epochs on the grid are fine, and SIDE with two channels.
    let mut ok = good.clone();
    ok.frames[0].state_epoch_samples = -9_600;
    ok.frames[0].channel_mode = SpectrumChannelMode::Side;
    assert_eq!(decode_perceptual_snapshot(&encode_perceptual_snapshot(&ok)), Some(ok.clone()));
    // Seventeen frames exceed the capacity.
    let mut many = snapshot(17, None);
    assert!(decode_perceptual_snapshot(&encode_perceptual_snapshot(&many)).is_none());
    many.frames.truncate(16);
    assert!(decode_perceptual_snapshot(&encode_perceptual_snapshot(&many)).is_some());
}
