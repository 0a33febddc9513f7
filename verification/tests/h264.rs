use zm_streaming::h264::{parse_sps_dimensions, BitReader};

#[test]
fn test_bit_reader_read_bits() {
    let data = [0b10110100, 0b01100000];
    let mut reader = BitReader::new(&data);
    assert_eq!(reader.read_bits(4), Some(0b1011));
    assert_eq!(reader.read_bits(4), Some(0b0100));
    assert_eq!(reader.read_bits(4), Some(0b0110));
}

#[test]
fn test_exp_golomb_ue() {
    let data = [0b1010_0110, 0b0100_0000];
    let mut reader = BitReader::new(&data);
    assert_eq!(reader.read_ue(), Some(0));
    assert_eq!(reader.read_ue(), Some(1));
    assert_eq!(reader.read_ue(), Some(2));
    assert_eq!(reader.read_ue(), Some(3));
}

#[test]
fn test_exp_golomb_se() {
    let data = [0b1010_0110];
    let mut reader = BitReader::new(&data);
    assert_eq!(reader.read_se(), Some(0));
    assert_eq!(reader.read_se(), Some(1));
    assert_eq!(reader.read_se(), Some(-1));
}

fn sps_1920x1080_high() -> Vec<u8> {
    vec![
        0x67, 0x64, 0x00, 0x28, 0xAC, 0xD9, 0x40, 0x78, 0x02, 0x27, 0xE5, 0xC0, 0x44, 0x00, 0x00,
        0x03, 0x00, 0x04, 0x00, 0x00, 0x03, 0x00, 0xC8, 0x3C, 0x60, 0xC6, 0x58,
    ]
}

fn sps_1920x1080_baseline() -> Vec<u8> {
    vec![
        0x67, 0x42, 0xC0, 0x28, 0xD9, 0x00, 0x78, 0x02, 0x27, 0xE5, 0xC0, 0x44, 0x00, 0x00, 0x03,
        0x00, 0x04, 0x00, 0x00, 0x03, 0x00, 0xC8, 0x3C, 0x60, 0xC9, 0x20,
    ]
}

fn sps_3840x2160() -> Vec<u8> {
    vec![
        0x67, 0x64, 0x00, 0x33, 0xAC, 0xD9, 0x40, 0x3C, 0x00, 0x43, 0xEC, 0x04, 0x40, 0x00, 0x00,
        0x03, 0x00, 0x40, 0x00, 0x00, 0x0C, 0x83, 0xC6, 0x0C, 0x65, 0x80,
    ]
}

fn sps_1280x720() -> Vec<u8> {
    vec![
        0x67, 0x64, 0x00, 0x1F, 0xAC, 0xD9, 0x40, 0x50, 0x05, 0xBB, 0x01, 0x10, 0x00, 0x00, 0x03,
        0x00, 0x10, 0x00, 0x00, 0x03, 0x03, 0x20, 0xF1, 0x83, 0x19, 0x60,
    ]
}

fn sps_2560x1440() -> Vec<u8> {
    vec![
        0x67, 0x64, 0x00, 0x32, 0xAC, 0xD9, 0x40, 0x28, 0x00, 0xB5, 0xB0, 0x11, 0x00, 0x00, 0x03,
        0x00, 0x01, 0x00, 0x00, 0x03, 0x00, 0x32, 0x0F, 0x18, 0x31, 0x96,
    ]
}

#[test]
fn test_sps_parsing_1920x1080_high() {
    assert_eq!(parse_sps_dimensions(&sps_1920x1080_high()), Some((1920, 1080)));
}

#[test]
fn test_sps_parsing_1920x1080_baseline() {
    assert_eq!(parse_sps_dimensions(&sps_1920x1080_baseline()), Some((1920, 1080)));
}

#[test]
fn test_sps_parsing_3840x2160() {
    assert_eq!(parse_sps_dimensions(&sps_3840x2160()), Some((3840, 2160)));
}

#[test]
fn test_sps_parsing_1280x720() {
    assert_eq!(parse_sps_dimensions(&sps_1280x720()), Some((1280, 720)));
}

#[test]
fn test_sps_parsing_2560x1440() {
    assert_eq!(parse_sps_dimensions(&sps_2560x1440()), Some((2560, 1440)));
}

#[test]
fn test_sps_parsing_too_short() {
    assert_eq!(parse_sps_dimensions(&[0x67, 0x42, 0x00]), None);
}

#[test]
fn test_sps_parsing_empty() {
    assert_eq!(parse_sps_dimensions(&[]), None);
}

#[test]
fn bit_reader_runs_out_of_bits() {
    let data = [0xFF];
    let mut reader = BitReader::new(&data);
    assert_eq!(reader.read_bits(8), Some(0xFF));
    assert_eq!(reader.read_bits(1), None);
    assert_eq!(reader.read_ue(), None);
}

#[test]
fn exp_golomb_closed_form() {
    // 000 1 011: k = 3 zeros, then x = 0b011 -> 2^3 - 1 + 3 = 10, 7 bits read.
    let data = [0b0001_0110, 0b1000_0000];
    let mut reader = BitReader::new(&data);
    assert_eq!(reader.read_ue(), Some(10));
    assert_eq!(reader.read_bits(1), Some(0));
    assert_eq!(reader.read_bits(1), Some(1));
    // 32 leading zero bits never read as a value.
    let zeros = [0u8, 0, 0, 0, 0xFF];
    assert_eq!(BitReader::new(&zeros).read_ue(), None);
    // Data ending inside the suffix reads as nothing.
    let short = [0b0000_0001];
    assert_eq!(BitReader::new(&short).read_ue(), None);
}
