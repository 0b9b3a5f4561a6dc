use usb_transfer::endpoint::EndpointAddress;
use usb_transfer::endpoint::EndpointInfo;
use usb_transfer::endpoint::IsoPacketRequest;
use usb_transfer::endpoint::RequestId;
use usb_transfer::endpoint::TransferBuffer;
use usb_transfer::endpoint::TransferKind;
use usb_transfer::endpoint::TransferRequest;
use usb_transfer::error::TransferError;
use usb_transfer::error::TransferFault;
use usb_transfer::transfer::DmaDirection;
use usb_transfer::transfer::DmaMapping;
use usb_transfer::transfer::MappingRequest;
use usb_transfer::transfer::Transfer;
use usb_transfer::usb::BmRequestType;
use usb_transfer::usb::ContextEndpointType;
use usb_transfer::usb::ControlSetup;
use usb_transfer::usb::Direction;
use usb_transfer::usb::EndpointDescriptor;
use usb_transfer::usb::EndpointType;
use usb_transfer::usb::Recipient;
use usb_transfer::usb::Request;
use usb_transfer::usb::RequestType;

fn get_descriptor() -> ControlSetup {
    ControlSetup {
        request_type: RequestType::Standard,
        recipient: Recipient::Device,
        request: Request::GetDescriptor,
        value: 0x0100,
        index: 0,
    }
}

#[test]
fn addresses_carry_their_direction() {
    assert_eq!(EndpointAddress::new(0x81).direction(), Direction::In);
    assert_eq!(EndpointAddress::new(0x02).direction(), Direction::Out);
    assert_eq!(EndpointAddress::from(0x83).raw(), 0x83);
    assert_eq!(u8::from(EndpointAddress::new(5)), 5);
    assert_eq!(RequestId::new(9).raw(), 9);
    assert_eq!(EndpointAddress::control().raw(), 0);
}

#[test]
fn control_endpoint_info_is_fixed() {
    let info = EndpointInfo::control();
    assert_eq!(info.address, EndpointAddress::new(0));
    assert_eq!(info.transfer_type, EndpointType::Control);
    assert_eq!(info.direction, Direction::Out);
    assert_eq!(info.max_packet_size, 64);
    assert_eq!(info.packets_per_microframe, 1);
    assert_eq!(info.interval, 0);
}

#[test]
fn info_copies_the_descriptor() {
    let descriptor = EndpointDescriptor {
        address: 0x82,
        transfer_type: EndpointType::Isochronous,
        direction: Direction::In,
        max_packet_size: 0x1400,
        packets_per_microframe: 3,
        interval: 4,
    };
    let info = EndpointInfo::from(&descriptor);
    assert_eq!(info.address.raw(), 0x82);
    assert_eq!(info.transfer_type, EndpointType::Isochronous);
    assert_eq!(info.direction, Direction::In);
    assert_eq!(info.max_packet_size, 0x1400);
    assert_eq!(info.packets_per_microframe, 3);
    assert_eq!(info.interval, 4);
}

#[test]
fn context_types_follow_type_and_direction() {
    let cases = [
        (EndpointType::Control, Direction::In, ContextEndpointType::Control),
        (EndpointType::Control, Direction::Out, ContextEndpointType::Control),
        (EndpointType::Bulk, Direction::In, ContextEndpointType::BulkIn),
        (EndpointType::Bulk, Direction::Out, ContextEndpointType::BulkOut),
        (EndpointType::Interrupt, Direction::In, ContextEndpointType::InterruptIn),
        (EndpointType::Interrupt, Direction::Out, ContextEndpointType::InterruptOut),
        (EndpointType::Isochronous, Direction::In, ContextEndpointType::IsochIn),
        (EndpointType::Isochronous, Direction::Out, ContextEndpointType::IsochOut),
    ];
    for (transfer_type, direction, expected) in cases {
        let descriptor = EndpointDescriptor {
            address: 1,
            transfer_type,
            direction,
            max_packet_size: 64,
            packets_per_microframe: 1,
            interval: 1,
        };
        assert_eq!(descriptor.endpoint_type(), expected);
    }
}

#[test]
fn request_bytes_are_those_of_the_wire() {
    let class_in = BmRequestType {
        direction: Direction::In,
        request_type: RequestType::Class,
        recipient: Recipient::Interface,
    };
    assert_eq!(class_in.raw(), 0xa1);
    let vendor_out = BmRequestType {
        direction: Direction::Out,
        request_type: RequestType::Vendor,
        recipient: Recipient::Other,
    };
    assert_eq!(vendor_out.raw(), 0x43);
    assert_eq!(Request::SetConfiguration.raw(), 9);
    assert_eq!(Request::Other(0x81).raw(), 0x81);
}

#[test]
fn buffers_point_at_their_slices() {
    let bytes = [1u8, 2, 3];
    let buffer = TransferBuffer::from_slice(&bytes).unwrap();
    assert_eq!(buffer.address, bytes.as_ptr() as usize);
    assert_eq!(buffer.len, 3);
    let mut space = vec![0u8; 17];
    let address = space.as_ptr() as usize;
    let buffer = TransferBuffer::from_mut_slice(&mut space).unwrap();
    assert_eq!(buffer.address, address);
    assert_eq!(buffer.len, 17);
    assert_eq!(TransferBuffer::from_slice(&[]).unwrap().len, 0);
    assert_eq!(TransferBuffer::at(0x40, 9), Some(TransferBuffer { address: 0x40, len: 9 }));
    assert_eq!(TransferBuffer::at(0, 9), None);
}

#[test]
fn requests_hold_what_they_were_made_of() {
    let mut space = [0u8; 8];
    let request = TransferRequest::control_in(get_descriptor(), &mut space);
    assert_eq!(request.direction(), Direction::In);
    assert_eq!(request.buffer().unwrap().len, 8);
    assert!(matches!(&request, TransferRequest::Control { setup, .. } if *setup == get_descriptor()));
    let request = TransferRequest::control_out(get_descriptor(), &[1, 2]);
    assert_eq!(request.direction(), Direction::Out);
    assert_eq!(request.buffer().unwrap().len, 2);
    assert!(matches!(TransferRequest::bulk_in(&mut space), TransferRequest::Bulk { direction: Direction::In, .. }));
    assert!(matches!(TransferRequest::bulk_out(&[1]), TransferRequest::Bulk { direction: Direction::Out, .. }));
    assert!(matches!(
        TransferRequest::interrupt_in(&mut space),
        TransferRequest::Interrupt { direction: Direction::In, .. }
    ));
    assert!(matches!(
        TransferRequest::interrupt_out(&[1]),
        TransferRequest::Interrupt { direction: Direction::Out, .. }
    ));
    assert!(TransferRequest::bulk_out(&[1]).iso_packets().is_empty());
    let request = TransferRequest::iso_in(&mut space, &[3, 5]);
    assert_eq!(request.direction(), Direction::In);
    assert_eq!(
        request.iso_packets(),
        &[IsoPacketRequest { length: 3 }, IsoPacketRequest { length: 5 }]
    );
    let request = TransferRequest::iso_out(&space, &[8]);
    assert_eq!(request.direction(), Direction::Out);
    assert_eq!(request.iso_packets(), &[IsoPacketRequest { length: 8 }]);
}

#[test]
fn requests_survive_being_taken_apart() {
    let space = [0u8; 12];
    let request = TransferRequest::iso_out(&space, &[4, 0, 8]);
    let buffer = request.buffer();
    let parts: (TransferKind, Direction, Option<TransferBuffer>) = request.into();
    assert_eq!(parts.0.iso_packet_lengths(), Some(&[4usize, 0, 8][..]));
    assert!(parts.0.get_control().is_none());
    assert_eq!(parts.1, Direction::Out);
    assert_eq!(parts.2, buffer);
    let back = TransferRequest::from(parts);
    assert_eq!(back.buffer(), buffer);
    assert_eq!(
        back.iso_packets(),
        &[
            IsoPacketRequest { length: 4 },
            IsoPacketRequest { length: 0 },
            IsoPacketRequest { length: 8 },
        ]
    );
    let kind = TransferKind::Control(get_descriptor());
    assert_eq!(kind.get_control(), Some(&get_descriptor()));
    assert!(kind.iso_packet_lengths().is_none());
}

#[test]
fn only_bytes_are_mapped() {
    let buffer = TransferBuffer { address: 0x5000, len: 100 };
    assert_eq!(
        Transfer::mapping_request(Direction::In, Some(buffer)),
        Some(MappingRequest { buffer, align: 64, direction: DmaDirection::FromDevice })
    );
    assert_eq!(
        Transfer::mapping_request(Direction::Out, Some(buffer)).unwrap().direction,
        DmaDirection::ToDevice
    );
    assert_eq!(
        Transfer::mapping_request(Direction::In, Some(TransferBuffer { address: 1, len: 0 })),
        None
    );
    assert_eq!(Transfer::mapping_request(Direction::In, None), None);
}

#[test]
fn failed_mapping_fails_the_transfer() {
    let buffer = Some(TransferBuffer { address: 0x5000, len: 100 });
    let failed = Transfer::new(TransferKind::Bulk, Direction::In, buffer, None);
    assert_eq!(failed.unwrap_err(), TransferError::Other(TransferFault::DmaMappingFailed));
    let mapping = DmaMapping { dma_addr: 0x8000, len: 100 };
    let transfer = Transfer::new(TransferKind::Bulk, Direction::In, buffer, Some(mapping)).unwrap();
    assert_eq!(transfer.buffer_len(), 100);
    assert_eq!(transfer.dma_addr(), 0x8000);
    let empty = Transfer::new(TransferKind::Bulk, Direction::In, None, None).unwrap();
    assert_eq!(empty.buffer_len(), 0);
    assert_eq!(empty.dma_addr(), 0);
    let request = TransferRequest::bulk_out(&[0; 4]);
    assert_eq!(
        Transfer::from_request(request, None).unwrap_err(),
        TransferError::Other(TransferFault::DmaMappingFailed)
    );
}
