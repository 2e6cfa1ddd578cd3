use octo_virtual_sensors::frame::{Frame, FRAME_LEN, HEADER_BYTE, UNSET};

fn crc16_usb(bytes: &[u8]) -> u16 {
    crc::Crc::<u16>::new(&crc::CRC_16_USB).checksum(bytes)
}

fn slot(bytes: &[u8], i: usize) -> [u8; 2] {
    [bytes[1 + 2 * i], bytes[2 + 2 * i]]
}

const CONFIG: [u8; 16] = [0, 0, 0, 0, 3, 0, 0, 0, 0, 0, 0, 0, 0, 0, 0, 0];

#[test]
fn update_buffer() {
    let mut frame = Frame::new();
    frame.update_buffer(&[1, 2, 3, 4, 5, 6, 7, 8, 9, 10, 11, 12, 13, 14, 15, 16]);
    let expected = vec![
        4, 0, 100, 0, 200, 1, 44, 1, 144, 1, 244, 2, 88, 2, 188, 3, 32, 3, 132, 3, 232, 4, 76,
        4, 176, 5, 20, 5, 120, 5, 220, 6, 64, 0, 0, 0, 0, 3, 0, 0, 0, 0, 0, 0, 0, 0, 0, 0, 0,
        218, 118,
    ];
    for (expected, result) in expected.iter().zip(frame.as_bytes().iter()) {
        assert_eq!(expected, result);
    }
    assert_eq!(frame.as_bytes(), &expected[..]);
}

#[test]
fn new_frame_is_the_template() {
    let frame = Frame::new();
    let expected = vec![
        4, 127, 255, 127, 255, 127, 255, 127, 255, 127, 255, 127, 255, 127, 255, 127, 255, 127,
        255, 127, 255, 127, 255, 127, 255, 127, 255, 127, 255, 127, 255, 127, 255, 0, 0, 0, 0, 3,
        0, 0, 0, 0, 0, 0, 0, 0, 0, 0, 0, 255, 255,
    ];
    assert_eq!(frame.as_bytes(), &expected[..]);
}

#[test]
fn empty_input_leaves_every_slot_unset() {
    let mut frame = Frame::new();
    frame.update_buffer(&[]);
    let bytes = frame.as_bytes();
    assert_eq!(bytes.len(), FRAME_LEN);
    assert_eq!(bytes[0], HEADER_BYTE);
    for i in 0..16 {
        assert_eq!(slot(bytes, i), [0x7F, 0xFF]);
    }
    assert_eq!(&bytes[33..49], &CONFIG[..]);
    let crc = crc16_usb(&bytes[1..49]);
    assert_eq!([bytes[49], bytes[50]], crc.to_be_bytes());
    assert_ne!([bytes[49], bytes[50]], [255, 255]);
}

#[test]
fn values_past_the_input_are_unset() {
    let mut frame = Frame::new();
    frame.update_buffer(&[1, 2, 3, 4, 5, 6, 7, 8, 9, 10, 11, 12, 13, 14, 15, 16]);
    frame.update_buffer(&[5, 6, 7]);
    let bytes = frame.as_bytes();
    assert_eq!(slot(bytes, 0), [0x01, 0xF4]);
    assert_eq!(slot(bytes, 1), [0x02, 0x58]);
    assert_eq!(slot(bytes, 2), [0x02, 0xBC]);
    for i in 3..16 {
        assert_eq!(slot(bytes, i), UNSET.to_be_bytes());
    }
}

#[test]
fn readings_wrap_at_sixteen_bits() {
    let mut frame = Frame::new();
    frame.update_buffer(&[655, 656, 1000, 65535, 0]);
    let bytes = frame.as_bytes();
    // 65500
    assert_eq!(slot(bytes, 0), [0xFF, 0xDC]);
    // 65600 - 65536 = 64
    assert_eq!(slot(bytes, 1), [0x00, 0x40]);
    // 100000 - 65536 = 34464
    assert_eq!(slot(bytes, 2), [0x86, 0xA0]);
    // 6553500 mod 65536 = 65436
    assert_eq!(slot(bytes, 3), [0xFF, 0x9C]);
    assert_eq!(slot(bytes, 4), [0x00, 0x00]);
    let crc = crc16_usb(&bytes[1..49]);
    assert_eq!([bytes[49], bytes[50]], crc.to_be_bytes());
}

#[test]
fn encoding_twice_gives_the_same_frame() {
    let values = [12, 0, 655, 40, 7];
    let mut once = Frame::new();
    once.update_buffer(&values);
    let mut twice = Frame::new();
    twice.update_buffer(&values);
    twice.update_buffer(&values);
    assert_eq!(once.as_bytes(), twice.as_bytes());
    let mut after_other = Frame::new();
    after_other.update_buffer(&[9, 9, 9, 9, 9, 9, 9, 9, 9, 9, 9, 9, 9, 9, 9, 9]);
    after_other.update_buffer(&values);
    assert_eq!(once.as_bytes(), after_other.as_bytes());
}

#[test]
fn checksum_covers_bytes_one_to_forty_eight() {
    for values in [
        vec![],
        vec![1],
        vec![300, 20, 1],
        vec![65535; 16],
        vec![1, 2, 3, 4, 5, 6, 7, 8, 9, 10, 11, 12, 13, 14, 15, 16],
    ] {
        let mut frame = Frame::new();
        frame.update_buffer(&values);
        let bytes = frame.as_bytes();
        assert_eq!(bytes.len(), 51);
        assert_eq!(bytes[0], 4);
        let crc = u16::from_be_bytes([bytes[49], bytes[50]]);
        assert_eq!(crc, crc16_usb(&bytes[1..49]));
    }
}

#[test]
fn values_past_sixteen_are_ignored() {
    let mut sixteen = Frame::new();
    sixteen.update_buffer(&[3; 16]);
    let mut more = Frame::new();
    more.update_buffer(&[3; 20]);
    assert_eq!(sixteen.as_bytes(), more.as_bytes());
}

#[test]
fn set_checksum_writes_only_its_field() {
    let mut frame = Frame::new();
    frame.update_buffer(&[1, 700]);
    let bytes = frame.as_bytes().to_vec();
    assert_eq!(slot(&bytes, 0), [0, 100]);
    assert_eq!(slot(&bytes, 1), [0x11, 0x70]);
    assert_eq!(slot(&bytes, 2), [0x7F, 0xFF]);
    assert_eq!(frame.checked_bytes(), &bytes[1..49]);
    frame.set_checksum(0xDA76);
    let after = frame.as_bytes();
    assert_eq!([after[49], after[50]], [218, 118]);
    assert_eq!(&after[..49], &bytes[..49]);
    frame.set_checksum(0x0102);
    assert_eq!([frame.as_bytes()[49], frame.as_bytes()[50]], [1, 2]);
}
