//! USB vocabulary shared by every module: directions, endpoint types and control
//! requests, with the numbers that go on the wire.

use vstd::prelude::*;

verus! {

/// Direction of a transfer, seen from the host.
#[derive(Clone, Copy, Debug, PartialEq, Eq, Structural)]
pub enum Direction {
    Out,
    In,
}

impl Direction {
    /// The direction that bit 7 of an endpoint address encodes.
    pub open spec fn of_address(address: u8) -> Direction {
        if address >= 0x80 {
            Direction::In
        } else {
            Direction::Out
        }
    }

    pub fn from_address(address: u8) -> (direction: Direction)
        ensures
            direction == Direction::of_address(address),
    {
        if address >= 0x80 {
            Direction::In
        } else {
            Direction::Out
        }
    }
}

/// Transfer type of an endpoint.
#[derive(Clone, Copy, Debug, PartialEq, Eq, Structural)]
pub enum EndpointType {
    Control,
    Isochronous,
    Bulk,
    Interrupt,
}

/// Type field of `bmRequestType`.
#[derive(Clone, Copy, Debug, PartialEq, Eq, Structural)]
pub enum RequestType {
    Standard,
    Class,
    Vendor,
    Reserved,
}

impl RequestType {
    pub open spec fn code(self) -> u8 {
        match self {
            RequestType::Standard => 0,
            RequestType::Class => 1,
            RequestType::Vendor => 2,
            RequestType::Reserved => 3,
        }
    }
}

/// Recipient field of `bmRequestType`.
#[derive(Clone, Copy, Debug, PartialEq, Eq, Structural)]
pub enum Recipient {
    Device,
    Interface,
    Endpoint,
    Other,
}

impl Recipient {
    pub open spec fn code(self) -> u8 {
        match self {
            Recipient::Device => 0,
            Recipient::Interface => 1,
            Recipient::Endpoint => 2,
            Recipient::Other => 3,
        }
    }
}

/// `bRequest` of a control transfer.
#[derive(Clone, Copy, Debug, PartialEq, Eq, Structural)]
pub enum Request {
    GetStatus,
    ClearFeature,
    SetFeature,
    SetAddress,
    GetDescriptor,
    SetDescriptor,
    GetConfiguration,
    SetConfiguration,
    GetInterface,
    SetInterface,
    SynchFrame,
    Other(u8),
}

impl Request {
    pub open spec fn code(self) -> u8 {
        match self {
            Request::GetStatus => 0,
            Request::ClearFeature => 1,
            Request::SetFeature => 3,
            Request::SetAddress => 5,
            Request::GetDescriptor => 6,
            Request::SetDescriptor => 7,
            Request::GetConfiguration => 8,
            Request::SetConfiguration => 9,
            Request::GetInterface => 10,
            Request::SetInterface => 11,
            Request::SynchFrame => 12,
            Request::Other(code) => code,
        }
    }

    /// The byte that goes on the wire.
    pub fn raw(self) -> (code: u8)
        ensures
            code == self.code(),
    {
        match self {
            Request::GetStatus => 0,
            Request::ClearFeature => 1,
            Request::SetFeature => 3,
            Request::SetAddress => 5,
            Request::GetDescriptor => 6,
            Request::SetDescriptor => 7,
            Request::GetConfiguration => 8,
            Request::SetConfiguration => 9,
            Request::GetInterface => 10,
            Request::SetInterface => 11,
            Request::SynchFrame => 12,
            Request::Other(code) => code,
        }
    }
}

/// `bmRequestType` of a control transfer, field by field.
#[derive(Clone, Copy, Debug, PartialEq, Eq, Structural)]
pub struct BmRequestType {
    pub direction: Direction,
    pub request_type: RequestType,
    pub recipient: Recipient,
}

impl BmRequestType {
    /// Direction in bit 7, type in bits 5 and 6, recipient in bits 0 to 4.
    pub open spec fn code(self) -> u8 {
        let direction: int = if self.direction == Direction::In {
            128
        } else {
            0
        };
        (direction + 32 * self.request_type.code() + self.recipient.code()) as u8
    }

    /// The byte that goes on the wire.
    pub fn raw(self) -> (code: u8)
        ensures
            code == self.code(),
    {
        let direction: u8 = match self.direction {
            Direction::In => 128,
            Direction::Out => 0,
        };
        let request_type: u8 = match self.request_type {
            RequestType::Standard => 0,
            RequestType::Class => 32,
            RequestType::Vendor => 64,
            RequestType::Reserved => 96,
        };
        let recipient: u8 = match self.recipient {
            Recipient::Device => 0,
            Recipient::Interface => 1,
            Recipient::Endpoint => 2,
            Recipient::Other => 3,
        };
        direction + request_type + recipient
    }
}

/// What the setup packet of a control transfer asks for. The direction and the
/// length belong to the transfer that carries it.
#[derive(Clone, Copy, Debug, PartialEq, Eq, Structural)]
pub struct ControlSetup {
    pub request_type: RequestType,
    pub recipient: Recipient,
    pub request: Request,
    pub value: u16,
    pub index: u16,
}

/// The fields of an endpoint descriptor that transfers depend on.
#[derive(Clone, Copy, Debug, PartialEq, Eq, Structural)]
pub struct EndpointDescriptor {
    pub address: u8,
    pub transfer_type: EndpointType,
    pub direction: Direction,
    pub max_packet_size: u16,
    pub packets_per_microframe: usize,
    pub interval: u8,
}

/// Endpoint type as an xHCI endpoint context encodes it.
#[derive(Clone, Copy, Debug, PartialEq, Eq, Structural)]
pub enum ContextEndpointType {
    IsochOut,
    BulkOut,
    InterruptOut,
    Control,
    IsochIn,
    BulkIn,
    InterruptIn,
}

impl EndpointDescriptor {
    pub open spec fn context_type(self) -> ContextEndpointType {
        match (self.transfer_type, self.direction) {
            (EndpointType::Control, _) => ContextEndpointType::Control,
            (EndpointType::Isochronous, Direction::Out) => ContextEndpointType::IsochOut,
            (EndpointType::Isochronous, Direction::In) => ContextEndpointType::IsochIn,
            (EndpointType::Bulk, Direction::Out) => ContextEndpointType::BulkOut,
            (EndpointType::Bulk, Direction::In) => ContextEndpointType::BulkIn,
            (EndpointType::Interrupt, Direction::Out) => ContextEndpointType::InterruptOut,
            (EndpointType::Interrupt, Direction::In) => ContextEndpointType::InterruptIn,
        }
    }

    /// The endpoint type that this endpoint's context is to carry.
    ///
    /// A control endpoint is bidirectional whatever its direction field says.
    pub fn endpoint_type(&self) -> (endpoint_type: ContextEndpointType)
        ensures
            endpoint_type == self.context_type(),
    {
        match self.transfer_type {
            EndpointType::Control => ContextEndpointType::Control,
            EndpointType::Isochronous => match self.direction {
                Direction::Out => ContextEndpointType::IsochOut,
                Direction::In => ContextEndpointType::IsochIn,
            },
            EndpointType::Bulk => match self.direction {
                Direction::Out => ContextEndpointType::BulkOut,
                Direction::In => ContextEndpointType::BulkIn,
            },
            EndpointType::Interrupt => match self.direction {
                Direction::Out => ContextEndpointType::InterruptOut,
                Direction::In => ContextEndpointType::InterruptIn,
            },
        }
    }
}

/// The direction of an endpoint address is in its highest bit.
pub proof fn law_direction_is_the_highest_bit(address: u8)
    ensures
        Direction::of_address(address) == Direction::In <==> address & 0x80 != 0,
{
    assert(address & 0x80 != 0 <==> address >= 0x80) by (bit_vector);
}

/// Direction, type and recipient can be read back from the byte of a request type.
pub proof fn law_request_type_can_be_read_back(request_type: BmRequestType)
    ensures
        request_type.code() >= 0x80 <==> request_type.direction == Direction::In,
        (request_type.code() / 0x20) % 4 == (match request_type.request_type {
            RequestType::Standard => 0,
            RequestType::Class => 1,
            RequestType::Vendor => 2,
            RequestType::Reserved => 3int,
        }),
        request_type.code() % 0x20 == (match request_type.recipient {
            Recipient::Device => 0,
            Recipient::Interface => 1,
            Recipient::Endpoint => 2,
            Recipient::Other => 3int,
        }),
{
}

/// The numbers of the standard requests, of which two are left free.
pub proof fn law_requests_have_their_numbers(request: Request)
    ensures
        request is GetStatus ==> request.code() == 0,
        request is ClearFeature ==> request.code() == 1,
        request is SetFeature ==> request.code() == 3,
        request is SetAddress ==> request.code() == 5,
        request is GetDescriptor ==> request.code() == 6,
        request is SetDescriptor ==> request.code() == 7,
        request is GetConfiguration ==> request.code() == 8,
        request is SetConfiguration ==> request.code() == 9,
        request is GetInterface ==> request.code() == 10,
        request is SetInterface ==> request.code() == 11,
        request is SynchFrame ==> request.code() == 12,
        request matches Request::Other(code) ==> request.code() == code,
{
}

/// An endpoint context tells type and direction of its endpoint, but for a control
/// endpoint, which has no direction.
pub proof fn law_context_type_tells_type_and_direction(descriptor: EndpointDescriptor)
    ensures
        descriptor.context_type() is Control <==> descriptor.transfer_type is Control,
        descriptor.context_type() is IsochIn <==> descriptor.transfer_type is Isochronous
            && descriptor.direction is In,
        descriptor.context_type() is IsochOut <==> descriptor.transfer_type is Isochronous
            && descriptor.direction is Out,
        descriptor.context_type() is BulkIn <==> descriptor.transfer_type is Bulk
            && descriptor.direction is In,
        descriptor.context_type() is BulkOut <==> descriptor.transfer_type is Bulk
            && descriptor.direction is Out,
        descriptor.context_type() is InterruptIn <==> descriptor.transfer_type is Interrupt
            && descriptor.direction is In,
        descriptor.context_type() is InterruptOut <==> descriptor.transfer_type is Interrupt
            && descriptor.direction is Out,
{
}

} // verus!
