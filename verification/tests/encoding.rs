use joya::encoding::{pcm16_decode, pcm16_encode};

#[test]
fn samples_are_little_endian() {
    assert_eq!(pcm16_encode(&vec![1, -2, i16::MIN, 0x1234]), vec![
        1, 0, 0xfe, 0xff, 0x00, 0x80, 0x34, 0x12
    ]);
}

#[test]
fn samples_read_back() {
    let samples = vec![0, 1, -1, i16::MAX, i16::MIN, 256, -257];
    assert_eq!(pcm16_decode(&pcm16_encode(&samples)), samples);
    assert_eq!(pcm16_decode(&[1, 0, 9]), vec![1]);
}
