use corroza::wav::{quantize, write_wav_16bit};

fn level(x: f32) -> i32 {
    (x * 65536.0).round() as i32
}

fn levels(xs: &[f32]) -> Vec<i32> {
    xs.iter().map(|&x| level(x)).collect()
}

#[test]
fn test_write_wav_silence() {
    let samples = vec![0i32; 100];
    let data = write_wav_16bit(&samples, 16000).unwrap();

    // Verify the image has reasonable size
    assert!(data.len() > 44); // Minimum WAV header size
}

#[test]
fn test_write_wav_full_scale() {
    let samples = levels(&[1.0f32, -1.0f32, 0.5f32, -0.5f32, 0.0f32]);
    let data = write_wav_16bit(&samples, 16000).unwrap();

    // Check RIFF header
    assert_eq!(&data[0..4], b"RIFF");
    assert_eq!(&data[8..12], b"WAVE");

    // Check fmt chunk
    assert_eq!(&data[12..16], b"fmt ");
    assert_eq!(u16::from_le_bytes([data[20], data[21]]), 1); // PCM format
    assert_eq!(u16::from_le_bytes([data[22], data[23]]), 1); // Mono
    assert_eq!(
        u32::from_le_bytes([data[24], data[25], data[26], data[27]]),
        16000
    ); // Sample rate
}

#[test]
fn test_write_wav_clamping() {
    // Values outside [-1.0, 1.0] should be clamped
    let samples = levels(&[2.0f32, -2.0f32, 1.5f32, -1.5f32]);
    let data = write_wav_16bit(&samples, 16000).unwrap();

    // First sample should be clamped to i16::MAX
    let first_sample = i16::from_le_bytes([data[44], data[45]]);
    assert_eq!(first_sample, i16::MAX);

    // Second sample should be clamped to i16::MIN
    let second_sample = i16::from_le_bytes([data[46], data[47]]);
    assert_eq!(second_sample, i16::MIN);
}

#[test]
fn test_write_wav_correct_size() {
    let num_samples = 1000;
    let samples = vec![0i32; num_samples];
    let data = write_wav_16bit(&samples, 16000).unwrap();

    // Check data chunk size
    let data_chunk_size = u32::from_le_bytes([data[40], data[41], data[42], data[43]]);
    assert_eq!(data_chunk_size, (num_samples * 2) as u32);

    // Check total size
    let riff_chunk_size = u32::from_le_bytes([data[4], data[5], data[6], data[7]]);
    assert_eq!(riff_chunk_size, 36 + data_chunk_size);
}

#[test]
fn the_whole_image() {
    let data = write_wav_16bit(&[65536, -65536, 32768, -32768, 0, 1, -1], 44100).unwrap();
    let expected: Vec<u8> = vec![
        b'R', b'I', b'F', b'F', 50, 0, 0, 0, b'W', b'A', b'V', b'E', // RIFF chunk
        b'f', b'm', b't', b' ', 16, 0, 0, 0, 1, 0, 1, 0, // PCM, mono
        0x44, 0xac, 0, 0, 0x88, 0x58, 0x01, 0, 2, 0, 16, 0, // rates and sizes
        b'd', b'a', b't', b'a', 14, 0, 0, 0, // data chunk
        0xff, 0x7f, 0x00, 0x80, 0xff, 0x3f, 0x00, 0xc0, 0, 0, 0, 0, 0, 0,
    ];
    assert_eq!(data, expected);
}

#[test]
fn samples_round_toward_zero() {
    assert_eq!(quantize(65536), 32767);
    assert_eq!(quantize(i32::MAX), 32767);
    assert_eq!(quantize(-65536), -32768);
    assert_eq!(quantize(i32::MIN), -32768);
    assert_eq!(quantize(32768), 16383);
    assert_eq!(quantize(-32768), -16384);
    assert_eq!(quantize(65535), 32766);
    assert_eq!(quantize(-65535), -32767);
    assert_eq!(quantize(2), 0);
    assert_eq!(quantize(3), 1);
    assert_eq!(quantize(-1), 0);
    assert_eq!(quantize(-2), -1);
    for s in [-70000, -65536, -40000, -3, 0, 5, 1234, 65536, 99999] {
        let real = (s as f64 / 65536.0).clamp(-1.0, 1.0);
        let exact = if real >= 0.0 { real * 32767.0 } else { real * 32768.0 };
        assert_eq!(quantize(s) as f64, exact.trunc());
    }
}

#[test]
fn no_image_where_the_header_cannot_hold_the_rate() {
    assert!(write_wav_16bit(&[0], 2147483647).is_some());
    assert!(write_wav_16bit(&[0], 2147483648).is_none());
    let data = write_wav_16bit(&[], 2147483647).unwrap();
    assert_eq!(data.len(), 44);
    assert_eq!(u32::from_le_bytes([data[28], data[29], data[30], data[31]]), 4294967294);
}
