use usb_transfer::actuator::WRITE_INSTRUCTION;
use usb_transfer::actuator::write_u16_frame;

#[test]
fn write_frame_uses_protocol_checksum() {
    assert_eq!(
        write_u16_frame(7, 42, 0x1234),
        [0xff, 0xff, 7, 5, WRITE_INSTRUCTION, 42, 0x34, 0x12, 0x80]
    );
}

#[test]
fn checksum_wraps_at_one_byte() {
    assert_eq!(
        write_u16_frame(0xff, 0xff, 0xffff),
        [0xff, 0xff, 0xff, 5, 3, 0xff, 0xff, 0xff, 0xfb]
    );
    assert_eq!(write_u16_frame(0, 0, 0), [0xff, 0xff, 0, 5, 3, 0, 0, 0, 0xf7]);
}

#[test]
fn body_and_checksum_add_up_to_all_ones() {
    for (id, address, value) in [(1u8, 2u8, 3u16), (200, 100, 0xbeef), (0xfe, 0x2a, 0x8000)] {
        let frame = write_u16_frame(id, address, value);
        let sum = frame[2..].iter().fold(0u8, |sum, byte| sum.wrapping_add(*byte));
        assert_eq!(sum, 0xff);
    }
}

#[test]
fn different_commands_give_different_frames() {
    let frame = write_u16_frame(1, 2, 3);
    assert_ne!(frame, write_u16_frame(2, 2, 3));
    assert_ne!(frame, write_u16_frame(1, 3, 3));
    assert_ne!(frame, write_u16_frame(1, 2, 0x300));
}
