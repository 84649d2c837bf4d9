use wav_core::container::read_wav_meta;
use wav_core::decode::{decode_sample, read_data_interleaved_unchecked};
use wav_core::window::read_data;

fn build_wav(fmt_code: u16, channels: u16, rate: u32, bit_depth: u16, data: &[u8]) -> Vec<u8> {
    let mut v: Vec<u8> = Vec::new();
    v.extend_from_slice(b"RIFF");
    v.extend_from_slice(&0u32.to_le_bytes());
    v.extend_from_slice(b"WAVE");
    v.extend_from_slice(b"fmt ");
    v.extend_from_slice(&16u32.to_le_bytes());
    v.extend_from_slice(&fmt_code.to_le_bytes());
    v.extend_from_slice(&channels.to_le_bytes());
    v.extend_from_slice(&rate.to_le_bytes());
    v.extend_from_slice(&0u32.to_le_bytes());
    v.extend_from_slice(&0u16.to_le_bytes());
    v.extend_from_slice(&bit_depth.to_le_bytes());
    v.extend_from_slice(b"data");
    v.extend_from_slice(&(data.len() as u32).to_le_bytes());
    v.extend_from_slice(data);
    let n = v.len() as u32;
    v[4..8].copy_from_slice(&n.to_le_bytes());
    v
}

fn build_wav_ext0(fmt_code: u16, channels: u16, rate: u32, bit_depth: u16, data: &[u8]) -> Vec<u8> {
    let mut v: Vec<u8> = Vec::new();
    v.extend_from_slice(b"RIFF");
    v.extend_from_slice(&0u32.to_le_bytes());
    v.extend_from_slice(b"WAVE");
    v.extend_from_slice(b"fmt ");
    v.extend_from_slice(&18u32.to_le_bytes());
    v.extend_from_slice(&fmt_code.to_le_bytes());
    v.extend_from_slice(&channels.to_le_bytes());
    v.extend_from_slice(&rate.to_le_bytes());
    v.extend_from_slice(&0u32.to_le_bytes());
    v.extend_from_slice(&0u16.to_le_bytes());
    v.extend_from_slice(&bit_depth.to_le_bytes());
    v.extend_from_slice(&0u16.to_le_bytes());
    v.extend_from_slice(b"data");
    v.extend_from_slice(&(data.len() as u32).to_le_bytes());
    v.extend_from_slice(data);
    let n = v.len() as u32;
    v[4..8].copy_from_slice(&n.to_le_bytes());
    v
}

#[test]
fn sixteen_bit_mono_round_trip() {
    let file = build_wav(1, 1, 44100, 16, &[0x00, 0x80]);
    let info = read_wav_meta(&file).unwrap();
    let out = read_data(&file, &info, 0, 1).unwrap();
    assert_eq!(out.len(), 1);
    assert_eq!(out[0], vec![-32768]);
    // Normalised, the sample is ((0xFFFF8000 as signed) >> 16) / 65535.
    let normalised = out[0][0] as f32 / 65535.0;
    assert_eq!(normalised, -32768.0f32 / 65535.0);
    assert!((normalised + 0.500008).abs() < 1e-6);
}

#[test]
fn ieee_float_sample_decodes_to_one() {
    let file = build_wav_ext0(3, 1, 48000, 32, &[0x00, 0x00, 0x80, 0x3F]);
    let info = read_wav_meta(&file).unwrap();
    let out = read_data(&file, &info, 0, 1).unwrap();
    assert_eq!(out[0].len(), 1);
    assert_eq!(f32::from_bits(out[0][0] as u32), 1.0);
}

#[test]
fn flat_decode_reports_float_bits() {
    let file = build_wav_ext0(3, 1, 48000, 32, &[0x00, 0x00, 0x80, 0x3F]);
    let info = read_wav_meta(&file).unwrap();
    let buf: [u8; 4] = [0x00, 0x00, 0x80, 0x3F];
    let out = read_data_interleaved_unchecked(&buf, &info, 1);
    assert_eq!(out, vec![0x3F80_0000]);
    assert_eq!(f32::from_bits(out[0] as u32), 1.0);
}

#[test]
fn decode_sample_sign_extends_each_depth() {
    assert_eq!(decode_sample(&[0xFF, 0x7F], 0, 2), 32767);
    assert_eq!(decode_sample(&[0x00, 0x80], 0, 2), -32768);
    assert_eq!(decode_sample(&[0x00, 0x00, 0x80], 0, 3), -8388608);
    assert_eq!(decode_sample(&[0xFF, 0xFF, 0x7F], 0, 3), 8388607);
    assert_eq!(decode_sample(&[0x00, 0x00, 0x00, 0x80], 0, 4), i32::MIN);
    assert_eq!(decode_sample(&[0xFF, 0xFF, 0xFF, 0x7F], 0, 4), i32::MAX);
    assert_eq!(decode_sample(&[0x2A, 0x00], 0, 2), 42);
}

#[test]
fn flat_decode_walks_interleaved_samples() {
    let file = build_wav(1, 2, 8000, 16, &[0, 0, 0, 0]);
    let info = read_wav_meta(&file).unwrap();
    let buf: [u8; 6] = [0x01, 0x00, 0x02, 0x00, 0xFE, 0xFF];
    let out = read_data_interleaved_unchecked(&buf, &info, 3);
    assert_eq!(out, vec![1, 2, -2]);
}

#[test]
fn channels_are_deinterleaved_in_frame_order() {
    let data: [u8; 8] = [0x01, 0x00, 0x02, 0x00, 0x03, 0x00, 0x04, 0x00];
    let file = build_wav(1, 2, 8000, 16, &data);
    let info = read_wav_meta(&file).unwrap();
    let out = read_data(&file, &info, 0, 2).unwrap();
    assert_eq!(out, vec![vec![1, 3], vec![2, 4]]);
}

#[test]
fn thirty_two_bit_pcm_frames_advance() {
    // Each frame's sample must land at its own index, frame by frame.
    let data: [u8; 8] = [0x01, 0x00, 0x00, 0x00, 0x02, 0x00, 0x00, 0x00];
    let file = build_wav(1, 1, 8000, 32, &data);
    let info = read_wav_meta(&file).unwrap();
    let out = read_data(&file, &info, 0, 2).unwrap();
    assert_eq!(out, vec![vec![1, 2]]);
}

#[test]
fn twenty_four_bit_full_scale_values() {
    let data: [u8; 6] = [0x00, 0x00, 0x80, 0xFF, 0xFF, 0x7F];
    let file = build_wav(1, 1, 8000, 24, &data);
    let info = read_wav_meta(&file).unwrap();
    let out = read_data(&file, &info, 0, 2).unwrap();
    assert_eq!(out[0], vec![-8388608, 8388607]);
}

#[test]
fn request_past_chunk_end_is_truncated() {
    let data: [u8; 4] = [0x01, 0x00, 0x02, 0x00];
    let file = build_wav(1, 1, 8000, 16, &data);
    let info = read_wav_meta(&file).unwrap();
    let out = read_data(&file, &info, 0, 5).unwrap();
    assert_eq!(out.len(), 1);
    assert_eq!(out[0], vec![1, 2]);
}

#[test]
fn start_offset_shortens_the_window() {
    let data: [u8; 4] = [0x01, 0x00, 0x02, 0x00];
    let file = build_wav(1, 1, 8000, 16, &data);
    let info = read_wav_meta(&file).unwrap();
    let out = read_data(&file, &info, 2, 5).unwrap();
    assert_eq!(out[0], vec![2]);
}

#[test]
fn unsupported_depth_reports_failure_not_samples() {
    let file = build_wav(1, 1, 8000, 12, &[0, 0]);
    let info = read_wav_meta(&file).unwrap();
    assert!(read_data(&file, &info, 0, 1).is_none());
}
