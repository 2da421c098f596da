use wavwrap::{push_sample_24, wrap_as_wav, QuantizedSamples};

// The quantization applied upstream of the encoder, per channel: work in
// double precision, truncate to the target width.
fn q8(x: f32) -> u8 {
    (((x as f64 + 1.0) / 2.0) * 256.0) as u8
}

fn q16(x: f32) -> i16 {
    (x as f64 * 32_767.0) as i16
}

fn q24(x: f32) -> i32 {
    (x as f64 * 8_388_607.0) as i32
}

fn q32(x: f32) -> i32 {
    (x as f64 * 2_147_483_647.0) as i32
}

fn check_header(out: &[u8], sample_rate: u32, bit_depth: u16, sample_count: u32) {
    let byte_depth: u32 = bit_depth as u32 / 8;
    let data_length: u32 = sample_count * 2 * byte_depth;
    assert_eq!(&out[0..4], b"RIFF");
    assert_eq!(&out[4..8], &(36 + data_length).to_le_bytes());
    assert_eq!(&out[8..12], b"WAVE");
    assert_eq!(&out[12..16], b"fmt ");
    assert_eq!(&out[16..20], &16u32.to_le_bytes());
    assert_eq!(&out[20..22], &1u16.to_le_bytes());
    assert_eq!(&out[22..24], &2u16.to_le_bytes());
    assert_eq!(&out[24..28], &sample_rate.to_le_bytes());
    assert_eq!(&out[28..32], &(sample_rate * 2 * byte_depth).to_le_bytes());
    assert_eq!(&out[32..34], &(2 * byte_depth as u16).to_le_bytes());
    assert_eq!(&out[34..36], &bit_depth.to_le_bytes());
    assert_eq!(&out[36..40], b"data");
    assert_eq!(&out[40..44], &data_length.to_le_bytes());
}

#[test]
fn empty_16bit_48k_is_header_only() {
    let out = wrap_as_wav(&QuantizedSamples::D16(vec![]), 48_000);
    assert_eq!(out.len(), 44);
    check_header(&out, 48_000, 16, 0);
    assert_eq!(&out[4..8], &36u32.to_le_bytes());
    assert_eq!(&out[40..44], &0u32.to_le_bytes());
}

#[test]
fn output_length_for_every_depth() {
    let n: usize = 3;
    let d8 = QuantizedSamples::D8(vec![(0, 0); n]);
    let d16 = QuantizedSamples::D16(vec![(0, 0); n]);
    let d24 = QuantizedSamples::D24(vec![(0, 0); n]);
    let d32 = QuantizedSamples::D32(vec![(0, 0); n]);
    assert_eq!(wrap_as_wav(&d8, 44_100).len(), 44 + n * 2 * 1);
    assert_eq!(wrap_as_wav(&d16, 44_100).len(), 44 + n * 2 * 2);
    assert_eq!(wrap_as_wav(&d24, 44_100).len(), 44 + n * 2 * 3);
    assert_eq!(wrap_as_wav(&d32, 44_100).len(), 44 + n * 2 * 4);
}

#[test]
fn header_fields_24bit() {
    let samples = QuantizedSamples::D24(vec![(q24(0.25), q24(-0.25)), (q24(0.5), q24(-0.5))]);
    let out = wrap_as_wav(&samples, 44_100);
    assert_eq!(out.len(), 44 + 2 * 2 * 3);
    check_header(&out, 44_100, 24, 2);
}

#[test]
fn header_fields_8bit() {
    let samples = QuantizedSamples::D8(vec![(q8(0.0), q8(0.0))]);
    let out = wrap_as_wav(&samples, 22_050);
    check_header(&out, 22_050, 8, 1);
}

#[test]
fn header_fields_32bit() {
    let samples = QuantizedSamples::D32(vec![(q32(0.0), q32(0.0))]);
    let out = wrap_as_wav(&samples, 96_000);
    check_header(&out, 96_000, 32, 1);
}

#[test]
fn silence_is_zero_for_linear_depths() {
    let out16 = wrap_as_wav(&QuantizedSamples::D16(vec![(q16(0.0), q16(0.0))]), 48_000);
    assert_eq!(&out16[44..], &[0x00, 0x00, 0x00, 0x00]);

    let out24 = wrap_as_wav(&QuantizedSamples::D24(vec![(q24(0.0), q24(0.0))]), 48_000);
    assert_eq!(&out24[44..], &[0x00, 0x00, 0x00, 0x00, 0x00, 0x00]);

    let out32 = wrap_as_wav(&QuantizedSamples::D32(vec![(q32(0.0), q32(0.0))]), 48_000);
    assert_eq!(&out32[44..], &[0x00; 8]);
}

#[test]
fn silence_is_midpoint_for_8bit() {
    assert_eq!(q8(0.0), 0x80);
    let out = wrap_as_wav(&QuantizedSamples::D8(vec![(q8(0.0), q8(0.0))]), 48_000);
    assert_eq!(&out[44..], &[0x80, 0x80]);
}

#[test]
fn full_scale_16bit() {
    assert_eq!(q16(1.0), 32_767);
    assert_eq!(q16(-1.0), -32_767);
    let out = wrap_as_wav(&QuantizedSamples::D16(vec![(q16(1.0), q16(-1.0))]), 48_000);
    // left: 0x7FFF, right: 0x8001, little-endian
    assert_eq!(&out[44..], &[0xFF, 0x7F, 0x01, 0x80]);
}

#[test]
fn full_scale_32bit() {
    let out = wrap_as_wav(&QuantizedSamples::D32(vec![(q32(1.0), q32(-1.0))]), 48_000);
    assert_eq!(&out[44..48], &[0xFF, 0xFF, 0xFF, 0x7F]);
    assert_eq!(&out[48..52], &[0x01, 0x00, 0x00, 0x80]);
}

#[test]
fn full_scale_24bit_data_bytes() {
    assert_eq!(q24(1.0), 8_388_607);
    assert_eq!(q24(-1.0), -8_388_607);
    let out = wrap_as_wav(&QuantizedSamples::D24(vec![(q24(1.0), q24(-1.0))]), 48_000);
    assert_eq!(&out[44..47], &[0xFF, 0xFF, 0x7F]);
    assert_eq!(&out[47..50], &[0x01, 0x00, 0x80]);
}

fn sign_extend_24(bytes: &[u8]) -> i32 {
    let v: u32 =
        (bytes[0] as u32) | ((bytes[1] as u32) << 8) | ((bytes[2] as u32) << 16);
    if v >= 0x80_0000 {
        (v | 0xff00_0000) as i32
    } else {
        v as i32
    }
}

#[test]
fn pack24_extremes() {
    let mut buf: Vec<u8> = Vec::new();
    push_sample_24(&mut buf, 8_388_607);
    assert_eq!(&buf[..], &[0xFF, 0xFF, 0x7F]);
    assert_eq!(sign_extend_24(&buf), 8_388_607);

    let mut buf: Vec<u8> = Vec::new();
    push_sample_24(&mut buf, -8_388_607);
    assert_eq!(&buf[..], &[0x01, 0x00, 0x80]);
    assert_eq!(sign_extend_24(&buf), -8_388_607);

    let mut buf: Vec<u8> = Vec::new();
    push_sample_24(&mut buf, -1);
    assert_eq!(&buf[..], &[0xFF, 0xFF, 0xFF]);
    assert_eq!(sign_extend_24(&buf), -1);

    // 32-bit intermediates from out-of-range amplitudes lose their top byte
    // but keep the sign bit.
    let mut buf: Vec<u8> = Vec::new();
    push_sample_24(&mut buf, i32::MAX);
    assert_eq!(&buf[..], &[0xFF, 0xFF, 0x7F]);

    let mut buf: Vec<u8> = Vec::new();
    push_sample_24(&mut buf, i32::MIN);
    assert_eq!(&buf[..], &[0x00, 0x00, 0x80]);
}

#[test]
fn pack24_round_trip_quantized() {
    let amplitudes: [f32; 7] = [-1.0, -0.5, -0.125, 0.0, 0.125, 0.5, 1.0];
    for &a in amplitudes.iter() {
        let v: i32 = q24(a);
        let mut buf: Vec<u8> = Vec::new();
        push_sample_24(&mut buf, v);
        assert_eq!(sign_extend_24(&buf), v);
    }
}

#[test]
fn eighth_bit_quantization_values() {
    // 0.5 maps to ((0.5 + 1) / 2) * 256 = 192
    assert_eq!(q8(0.5), 0xC0);
    let out = wrap_as_wav(&QuantizedSamples::D8(vec![(q8(0.5), q8(-0.5))]), 48_000);
    assert_eq!(&out[44..], &[0xC0, 0x40]);
}

#[test]
fn samples_report_depth_and_len() {
    let s = QuantizedSamples::D24(vec![(0, 0), (1, -1)]);
    assert_eq!(s.bit_depth(), 24);
    assert_eq!(s.len(), 2);
    let s = QuantizedSamples::D8(vec![]);
    assert_eq!(s.bit_depth(), 8);
    assert_eq!(s.len(), 0);
}
