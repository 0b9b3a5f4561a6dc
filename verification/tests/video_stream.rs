use usb_transfer::endpoint::IsoPacketResult;
use usb_transfer::endpoint::RequestId;
use usb_transfer::endpoint::TransferCompletion;
use usb_transfer::endpoint::TransferStatus;
use usb_transfer::usb::Direction;
use usb_transfer::video::Payload;
use usb_transfer::video::VideoError;
use usb_transfer::video::VideoStream;
use usb_transfer::video::iso_payload_bytes;

fn completion(lengths: &[usize]) -> TransferCompletion {
    TransferCompletion {
        request_id: RequestId::new(1),
        status: TransferStatus::Completed,
        actual_length: lengths.iter().sum(),
        iso_packets: lengths
            .iter()
            .map(|length| IsoPacketResult {
                requested_length: 100,
                actual_length: *length,
                status: TransferStatus::Completed,
                completion_code: Some(1),
            })
            .collect(),
    }
}

#[test]
fn payload_counts_additional_transactions() {
    assert_eq!(iso_payload_bytes(0), 0);
    assert_eq!(iso_payload_bytes(1024), 1024);
    assert_eq!(iso_payload_bytes(0x0800 | 1024), 2048);
    assert_eq!(iso_payload_bytes(0x1000 | 1024), 3072);
    assert_eq!(iso_payload_bytes(0xe000 | 512), 512);
}

#[test]
fn transfers_cover_a_frame_up_to_the_limit() {
    let mut stream = VideoStream::new(100, 950);
    let request = stream.request();
    assert_eq!(request.direction(), Direction::In);
    assert_eq!(request.buffer().unwrap().len, 1000);
    assert_eq!(request.iso_packets().len(), 10);
    assert!(request.iso_packets().iter().all(|packet| packet.length == 100));
    let mut stream = VideoStream::new(0x1400, 1_000_000);
    let request = stream.request();
    assert_eq!(request.iso_packets().len(), 32);
    assert_eq!(request.buffer().unwrap().len, 32 * 3072);
    let mut stream = VideoStream::new(100, 0);
    assert!(stream.request().iso_packets().is_empty());
}

#[test]
fn only_actual_bytes_are_handed_on() {
    let mut stream = VideoStream::new(100, 400);
    let _ = stream.request();
    let received = stream.recv(&completion(&[100, 0, 7, 100]));
    assert_eq!(received.result, Ok(()));
    assert_eq!(
        received.payloads,
        vec![
            Payload { start: 0, len: 100 },
            Payload { start: 200, len: 7 },
            Payload { start: 300, len: 100 },
        ]
    );
    for payload in received.payloads {
        assert_eq!(stream.payload(payload), &vec![0u8; payload.len][..]);
    }
}

#[test]
fn overlong_packet_ends_the_transfer() {
    let stream = VideoStream::new(100, 400);
    let received = stream.recv(&completion(&[50, 101, 20, 200]));
    assert_eq!(received.result, Err(VideoError::PacketOverrun));
    assert_eq!(received.payloads, vec![Payload { start: 0, len: 50 }]);
}

#[test]
fn missing_packets_end_the_transfer() {
    let stream = VideoStream::new(100, 400);
    let received = stream.recv(&completion(&[50, 50, 50]));
    assert_eq!(received.result, Err(VideoError::PacketCount));
    assert!(received.payloads.is_empty());
}
