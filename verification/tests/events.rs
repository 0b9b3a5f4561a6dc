use usb_transfer::completion::CompletionCode;
use usb_transfer::completion::TransferEvent;
use usb_transfer::completion::iso_packet_actual_length;
use usb_transfer::completion::iso_packet_completion_code;
use usb_transfer::completion::iso_packet_is_fatal;
use usb_transfer::error::TransferError;
use usb_transfer::error::TransferFault;

fn event(code: u32, length: u32) -> TransferEvent {
    TransferEvent::from_words([0, 0, (code << 24) | length, 32 << 10]).unwrap()
}

#[test]
fn events_are_decoded_from_words() {
    let event = TransferEvent::from_words([0x1000, 0, 0x0d00_0123, 0x0102_8001]).unwrap();
    assert_eq!(event.completion_code(), Ok(CompletionCode::ShortPacket));
    assert_eq!(event.trb_transfer_length(), 0x123);
}

#[test]
fn other_trbs_are_no_events() {
    assert!(TransferEvent::from_words([0, 0, 0x0100_0000, 33 << 10]).is_none());
    assert!(TransferEvent::from_words([0, 0, 0x0100_0000, (32 << 10) | 2]).is_none());
    assert!(TransferEvent::from_words([0, 0, 0x0100_0000, (32 << 10) | (1 << 21)]).is_none());
}

#[test]
fn reserved_bits_have_to_be_zero() {
    let base = [0, 0, 0x0100_0000, 32 << 10];
    for word in 0..4 {
        for bit in 0..32 {
            let mut words = base;
            words[word] ^= 1 << bit;
            let refused = word == 3 && (bit == 1 || (3..=15).contains(&bit) || (21..=23).contains(&bit));
            assert_eq!(TransferEvent::from_words(words).is_none(), refused);
        }
    }
}

#[test]
fn every_byte_is_a_code_or_none() {
    for raw in 0..=255u8 {
        let event = event(raw as u32, 0);
        match CompletionCode::from_raw(raw) {
            Some(code) => {
                assert_eq!(code.raw(), raw);
                assert_eq!(event.completion_code(), Ok(code));
                assert_eq!(iso_packet_completion_code(event), Some(raw));
            }
            None => {
                assert!(raw == 30 || raw > 36);
                assert_eq!(event.completion_code(), Err(raw));
                assert_eq!(iso_packet_completion_code(event), None);
            }
        }
    }
}

#[test]
fn codes_have_their_verdicts() {
    assert_eq!(CompletionCode::Success.to_result(), Ok(()));
    assert_eq!(CompletionCode::ShortPacket.to_result(), Ok(()));
    assert_eq!(CompletionCode::StallError.to_result(), Err(TransferError::Stall));
    assert_eq!(
        CompletionCode::TrbError.to_result(),
        Err(TransferError::Other(TransferFault::CompletionCode(CompletionCode::TrbError)))
    );
}

#[test]
fn iso_lengths_follow_the_code() {
    assert_eq!(iso_packet_actual_length(100, event(1, 0)), Ok(100));
    assert_eq!(iso_packet_actual_length(100, event(1, 30)), Ok(70));
    assert_eq!(iso_packet_actual_length(100, event(13, 30)), Ok(70));
    assert_eq!(iso_packet_actual_length(100, event(13, 130)), Ok(0));
    for code in [3, 4, 23, 26, 31] {
        assert_eq!(iso_packet_actual_length(100, event(code, 1)), Ok(99));
    }
    assert_eq!(iso_packet_actual_length(100, event(28, 30)), Ok(30));
    assert_eq!(iso_packet_actual_length(100, event(28, 0xff_ffff)), Ok(0xff_ffff));
    assert_eq!(iso_packet_actual_length(100, event(27, 30)), Ok(0));
    assert_eq!(iso_packet_actual_length(100, event(6, 0)), Err(TransferError::Stall));
    assert_eq!(
        iso_packet_actual_length(100, event(2, 0)),
        Err(TransferError::Other(TransferFault::CompletionCode(CompletionCode::DataBufferError)))
    );
    assert_eq!(
        iso_packet_actual_length(100, event(200, 0)),
        Err(TransferError::Other(TransferFault::UnknownIsoCompletionCode(200)))
    );
}

#[test]
fn errors_without_a_length_are_fatal() {
    for code in [1, 13, 3, 31, 23, 4, 26, 28, 27] {
        assert!(!iso_packet_is_fatal(event(code, 0)));
    }
    for raw in 0..=255u32 {
        let event = event(raw, 0);
        if iso_packet_actual_length(8, event).is_err() {
            assert!(iso_packet_is_fatal(event));
        }
    }
}
