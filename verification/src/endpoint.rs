//! Endpoint addresses, transfer requests and transfer completions: the values
//! that a driver exchanges with an endpoint.

use vstd::prelude::*;

use crate::usb::ControlSetup;
use crate::usb::Direction;
use crate::usb::EndpointDescriptor;
use crate::usb::EndpointType;

verus! {

/// Address byte of an endpoint: the number, and the direction in bit 7.
#[derive(Clone, Copy, Debug, PartialEq, Eq, PartialOrd, Ord, Hash)]
pub struct EndpointAddress(u8);

impl EndpointAddress {
    pub closed spec fn value(self) -> u8 {
        self.0
    }

    /// The address of the default control endpoint.
    pub fn control() -> (address: EndpointAddress)
        ensures
            address.value() == 0,
    {
        EndpointAddress(0)
    }

    pub fn new(raw: u8) -> (address: EndpointAddress)
        ensures
            address.value() == raw,
    {
        EndpointAddress(raw)
    }

    pub fn raw(self) -> (raw: u8)
        ensures
            raw == self.value(),
    {
        self.0
    }

    pub fn direction(self) -> (direction: Direction)
        ensures
            direction == Direction::of_address(self.value()),
    {
        Direction::from_address(self.0)
    }
}

impl From<u8> for EndpointAddress {
    fn from(value: u8) -> (address: EndpointAddress)
        ensures
            address.value() == value,
    {
        EndpointAddress(value)
    }
}

impl vstd::std_specs::convert::FromSpecImpl<u8> for EndpointAddress {
    open spec fn obeys_from_spec() -> bool {
        true
    }

    closed spec fn from_spec(value: u8) -> EndpointAddress {
        EndpointAddress(value)
    }
}

impl From<EndpointAddress> for u8 {
    fn from(value: EndpointAddress) -> (raw: u8) {
        value.0
    }
}

impl vstd::std_specs::convert::FromSpecImpl<EndpointAddress> for u8 {
    open spec fn obeys_from_spec() -> bool {
        true
    }

    open spec fn from_spec(value: EndpointAddress) -> u8 {
        value.value()
    }
}

/// Identifies one submitted request on its endpoint.
#[derive(Clone, Copy, Debug, PartialEq, Eq, PartialOrd, Ord, Hash)]
pub struct RequestId(u64);

impl RequestId {
    pub closed spec fn value(self) -> u64 {
        self.0
    }

    pub fn new(raw: u64) -> (id: RequestId)
        ensures
            id.value() == raw,
    {
        RequestId(raw)
    }

    pub fn raw(self) -> (raw: u64)
        ensures
            raw == self.value(),
    {
        self.0
    }
}

/// What a driver needs to know of an endpoint.
#[derive(Clone, Copy, Debug, PartialEq, Eq)]
pub struct EndpointInfo {
    pub address: EndpointAddress,
    pub transfer_type: EndpointType,
    pub direction: Direction,
    pub max_packet_size: u16,
    pub packets_per_microframe: usize,
    pub interval: u8,
}

impl EndpointInfo {
    /// The default control endpoint.
    pub fn control() -> (info: EndpointInfo)
        ensures
            info.address.value() == 0,
            info.transfer_type == EndpointType::Control,
            info.direction == Direction::Out,
            info.max_packet_size == 64,
            info.packets_per_microframe == 1,
            info.interval == 0,
    {
        EndpointInfo {
            address: EndpointAddress::control(),
            transfer_type: EndpointType::Control,
            direction: Direction::Out,
            max_packet_size: 64,
            packets_per_microframe: 1,
            interval: 0,
        }
    }
}

impl<'a> From<&'a EndpointDescriptor> for EndpointInfo {
    fn from(desc: &'a EndpointDescriptor) -> (info: EndpointInfo)
        ensures
            info.address.value() == desc.address,
            info.transfer_type == desc.transfer_type,
            info.direction == desc.direction,
            info.max_packet_size == desc.max_packet_size,
            info.packets_per_microframe == desc.packets_per_microframe,
            info.interval == desc.interval,
    {
        EndpointInfo {
            address: EndpointAddress::new(desc.address),
            transfer_type: desc.transfer_type,
            direction: desc.direction,
            max_packet_size: desc.max_packet_size,
            packets_per_microframe: desc.packets_per_microframe,
            interval: desc.interval,
        }
    }
}

impl<'a> vstd::std_specs::convert::FromSpecImpl<&'a EndpointDescriptor> for EndpointInfo {
    open spec fn obeys_from_spec() -> bool {
        true
    }

    closed spec fn from_spec(desc: &'a EndpointDescriptor) -> EndpointInfo {
        EndpointInfo {
            address: EndpointAddress(desc.address),
            transfer_type: desc.transfer_type,
            direction: desc.direction,
            max_packet_size: desc.max_packet_size,
            packets_per_microframe: desc.packets_per_microframe,
            interval: desc.interval,
        }
    }
}

/// Where a caller's buffer lies, without a hold on it.
///
/// The address is a plain number: nothing here reads or writes through it.
#[derive(Clone, Copy, Debug, PartialEq, Eq, Structural)]
pub struct TransferBuffer {
    pub address: usize,
    pub len: usize,
}

/// `<[T]>::as_ptr` of the standard library, as a number: a slice's data is never
/// at address zero. Which address it is depends on the machine and is not stated.
#[verifier::external_body]
fn slice_address(slice: &[u8]) -> (address: usize)
    ensures
        address != 0,
{
    slice.as_ptr() as usize
}

impl TransferBuffer {
    /// The buffer of `len` bytes at `address`. There is none at address zero.
    pub fn at(address: usize, len: usize) -> (buffer: Option<TransferBuffer>)
        ensures
            buffer == (if address == 0 {
                None
            } else {
                Some(TransferBuffer { address, len })
            }),
    {
        if address == 0 {
            None
        } else {
            Some(TransferBuffer { address, len })
        }
    }

    pub fn from_mut_slice(slice: &mut [u8]) -> (buffer: Option<TransferBuffer>)
        ensures
            buffer matches Some(b) && b.address != 0 && b.len == old(slice)@.len(),
            final(slice)@ == old(slice)@,
    {
        TransferBuffer::from_slice(slice)
    }

    pub fn from_slice(slice: &[u8]) -> (buffer: Option<TransferBuffer>)
        ensures
            buffer matches Some(b) && b.address != 0 && b.len == slice@.len(),
    {
        TransferBuffer::at(slice_address(slice), slice.len())
    }
}

/// The kind of a transfer, with what only that kind needs.
#[derive(Clone, Debug)]
pub enum TransferKind {
    Control(ControlSetup),
    Bulk,
    Interrupt,
    Isochronous { packet_lengths: Vec<usize> },
}

/// Model of [`TransferKind`].
pub enum TransferKindView {
    Control(ControlSetup),
    Bulk,
    Interrupt,
    Isochronous { packet_lengths: Seq<usize> },
}

impl View for TransferKind {
    type V = TransferKindView;

    open spec fn view(&self) -> TransferKindView {
        match self {
            TransferKind::Control(setup) => TransferKindView::Control(*setup),
            TransferKind::Bulk => TransferKindView::Bulk,
            TransferKind::Interrupt => TransferKindView::Interrupt,
            TransferKind::Isochronous { packet_lengths } => TransferKindView::Isochronous {
                packet_lengths: packet_lengths@,
            },
        }
    }
}

impl TransferKind {
    pub fn get_control(&self) -> (setup: Option<&ControlSetup>)
        ensures
            match self@ {
                TransferKindView::Control(s) => setup == Some(&s),
                _ => setup is None,
            },
    {
        match self {
            TransferKind::Control(setup) => Some(setup),
            _ => None,
        }
    }

    pub fn iso_packet_lengths(&self) -> (lengths: Option<&[usize]>)
        ensures
            match self@ {
                TransferKindView::Isochronous { packet_lengths } => lengths matches Some(l) && l@
                    == packet_lengths,
                _ => lengths is None,
            },
    {
        match self {
            TransferKind::Isochronous { packet_lengths } => Some(packet_lengths.as_slice()),
            _ => None,
        }
    }
}

/// One packet of an isochronous request.
#[derive(Clone, Copy, Debug, PartialEq, Eq, Structural)]
pub struct IsoPacketRequest {
    pub length: usize,
}

/// The packets that ask for the given lengths, in order.
pub open spec fn packets_of_lengths(lengths: Seq<usize>) -> Seq<IsoPacketRequest> {
    Seq::new(lengths.len(), |i: int| IsoPacketRequest { length: lengths[i] })
}

/// The lengths that the given packets ask for, in order.
pub open spec fn lengths_of_packets(packets: Seq<IsoPacketRequest>) -> Seq<usize> {
    Seq::new(packets.len(), |i: int| packets[i].length)
}

fn iso_packets_from_lengths(lengths: &[usize]) -> (packets: Vec<IsoPacketRequest>)
    ensures
        packets@ == packets_of_lengths(lengths@),
{
    let mut packets: Vec<IsoPacketRequest> = Vec::new();
    let mut i: usize = 0;
    while i < lengths.len()
        invariant
            i <= lengths@.len(),
            packets@ == packets_of_lengths(lengths@.take(i as int)),
        decreases lengths@.len() - i,
    {
        packets.push(IsoPacketRequest { length: lengths[i] });
        i += 1;
    }
    assert(lengths@.take(i as int) =~= lengths@);
    packets
}

fn iso_lengths_from_packets(packets: &[IsoPacketRequest]) -> (lengths: Vec<usize>)
    ensures
        lengths@ == lengths_of_packets(packets@),
{
    let mut lengths: Vec<usize> = Vec::new();
    let mut i: usize = 0;
    while i < packets.len()
        invariant
            i <= packets@.len(),
            lengths@ == lengths_of_packets(packets@.take(i as int)),
        decreases packets@.len() - i,
    {
        lengths.push(packets[i].length);
        i += 1;
    }
    assert(packets@.take(i as int) =~= packets@);
    lengths
}

/// A request to move bytes over an endpoint.
#[derive(Clone, Debug)]
pub enum TransferRequest {
    Control { setup: ControlSetup, direction: Direction, buffer: Option<TransferBuffer> },
    Bulk { direction: Direction, buffer: Option<TransferBuffer> },
    Interrupt { direction: Direction, buffer: Option<TransferBuffer> },
    Isochronous {
        direction: Direction,
        buffer: Option<TransferBuffer>,
        packets: Vec<IsoPacketRequest>,
    },
}

/// Model of [`TransferRequest`]: a kind, a direction and a buffer.
pub struct TransferRequestView {
    pub kind: TransferKindView,
    pub direction: Direction,
    pub buffer: Option<TransferBuffer>,
}

impl View for TransferRequest {
    type V = TransferRequestView;

    open spec fn view(&self) -> TransferRequestView {
        match self {
            TransferRequest::Control { setup, direction, buffer } => TransferRequestView {
                kind: TransferKindView::Control(*setup),
                direction: *direction,
                buffer: *buffer,
            },
            TransferRequest::Bulk { direction, buffer } => TransferRequestView {
                kind: TransferKindView::Bulk,
                direction: *direction,
                buffer: *buffer,
            },
            TransferRequest::Interrupt { direction, buffer } => TransferRequestView {
                kind: TransferKindView::Interrupt,
                direction: *direction,
                buffer: *buffer,
            },
            TransferRequest::Isochronous { direction, buffer, packets } => TransferRequestView {
                kind: TransferKindView::Isochronous { packet_lengths: lengths_of_packets(packets@) },
                direction: *direction,
                buffer: *buffer,
            },
        }
    }
}

impl TransferRequestView {
    /// Whether this is the request for `kind` in `direction` over a buffer of
    /// `len` bytes.
    pub open spec fn asks(
        self,
        kind: TransferKindView,
        direction: Direction,
        len: nat,
    ) -> bool {
        &&& self.kind == kind
        &&& self.direction == direction
        &&& self.buffer matches Some(b) && b.address != 0 && b.len == len
    }
}

impl TransferRequest {
    pub fn control_in(setup: ControlSetup, buffer: &mut [u8]) -> (request: TransferRequest)
        ensures
            request@.asks(TransferKindView::Control(setup), Direction::In, old(buffer)@.len()),
            final(buffer)@ == old(buffer)@,
    {
        TransferRequest::Control {
            setup,
            direction: Direction::In,
            buffer: TransferBuffer::from_mut_slice(buffer),
        }
    }

    pub fn control_out(setup: ControlSetup, buffer: &[u8]) -> (request: TransferRequest)
        ensures
            request@.asks(TransferKindView::Control(setup), Direction::Out, buffer@.len()),
    {
        TransferRequest::Control {
            setup,
            direction: Direction::Out,
            buffer: TransferBuffer::from_slice(buffer),
        }
    }

    pub fn bulk_in(buffer: &mut [u8]) -> (request: TransferRequest)
        ensures
            request@.asks(TransferKindView::Bulk, Direction::In, old(buffer)@.len()),
            final(buffer)@ == old(buffer)@,
    {
        TransferRequest::Bulk {
            direction: Direction::In,
            buffer: TransferBuffer::from_mut_slice(buffer),
        }
    }

    pub fn bulk_out(buffer: &[u8]) -> (request: TransferRequest)
        ensures
            request@.asks(TransferKindView::Bulk, Direction::Out, buffer@.len()),
    {
        TransferRequest::Bulk {
            direction: Direction::Out,
            buffer: TransferBuffer::from_slice(buffer),
        }
    }

    pub fn interrupt_in(buffer: &mut [u8]) -> (request: TransferRequest)
        ensures
            request@.asks(TransferKindView::Interrupt, Direction::In, old(buffer)@.len()),
            final(buffer)@ == old(buffer)@,
    {
        TransferRequest::Interrupt {
            direction: Direction::In,
            buffer: TransferBuffer::from_mut_slice(buffer),
        }
    }

    pub fn interrupt_out(buffer: &[u8]) -> (request: TransferRequest)
        ensures
            request@.asks(TransferKindView::Interrupt, Direction::Out, buffer@.len()),
    {
        TransferRequest::Interrupt {
            direction: Direction::Out,
            buffer: TransferBuffer::from_slice(buffer),
        }
    }

    pub fn iso_in(buffer: &mut [u8], packet_lengths: &[usize]) -> (request: TransferRequest)
        ensures
            request@.asks(
                TransferKindView::Isochronous { packet_lengths: packet_lengths@ },
                Direction::In,
                old(buffer)@.len(),
            ),
            final(buffer)@ == old(buffer)@,
    {
        let packets = iso_packets_from_lengths(packet_lengths);
        assert(lengths_of_packets(packets@) =~= packet_lengths@);
        TransferRequest::Isochronous {
            direction: Direction::In,
            buffer: TransferBuffer::from_mut_slice(buffer),
            packets,
        }
    }

    pub fn iso_out(buffer: &[u8], packet_lengths: &[usize]) -> (request: TransferRequest)
        ensures
            request@.asks(
                TransferKindView::Isochronous { packet_lengths: packet_lengths@ },
                Direction::Out,
                buffer@.len(),
            ),
    {
        let packets = iso_packets_from_lengths(packet_lengths);
        assert(lengths_of_packets(packets@) =~= packet_lengths@);
        TransferRequest::Isochronous {
            direction: Direction::Out,
            buffer: TransferBuffer::from_slice(buffer),
            packets,
        }
    }

    pub fn direction(&self) -> (result: Direction)
        ensures
            result == self@.direction,
    {
        match self {
            TransferRequest::Control { direction, .. } => *direction,
            TransferRequest::Bulk { direction, .. } => *direction,
            TransferRequest::Interrupt { direction, .. } => *direction,
            TransferRequest::Isochronous { direction, .. } => *direction,
        }
    }

    pub fn buffer(&self) -> (result: Option<TransferBuffer>)
        ensures
            result == self@.buffer,
    {
        match self {
            TransferRequest::Control { buffer, .. } => *buffer,
            TransferRequest::Bulk { buffer, .. } => *buffer,
            TransferRequest::Interrupt { buffer, .. } => *buffer,
            TransferRequest::Isochronous { buffer, .. } => *buffer,
        }
    }

    /// The packets of an isochronous request; no other kind has any.
    pub fn iso_packets(&self) -> (result: &[IsoPacketRequest])
        ensures
            match self@.kind {
                TransferKindView::Isochronous { packet_lengths } => result@ == packets_of_lengths(
                    packet_lengths,
                ),
                _ => result@.len() == 0,
            },
    {
        match self {
            TransferRequest::Isochronous { packets, .. } => {
                assert(packets_of_lengths(lengths_of_packets(packets@)) =~= packets@);
                packets.as_slice()
            },
            _ => &[],
        }
    }
}

impl From<TransferRequest> for (TransferKind, Direction, Option<TransferBuffer>) {
    fn from(request: TransferRequest) -> (parts: (
        TransferKind,
        Direction,
        Option<TransferBuffer>,
    ))
        ensures
            parts.0@ == request@.kind,
            parts.1 == request@.direction,
            parts.2 == request@.buffer,
    {
        match request {
            TransferRequest::Control { setup, direction, buffer } => (
                TransferKind::Control(setup),
                direction,
                buffer,
            ),
            TransferRequest::Bulk { direction, buffer } => (TransferKind::Bulk, direction, buffer),
            TransferRequest::Interrupt { direction, buffer } => (
                TransferKind::Interrupt,
                direction,
                buffer,
            ),
            TransferRequest::Isochronous { direction, buffer, packets } => (
                TransferKind::Isochronous {
                    packet_lengths: iso_lengths_from_packets(packets.as_slice()),
                },
                direction,
                buffer,
            ),
        }
    }
}

impl vstd::std_specs::convert::FromSpecImpl<TransferRequest> for (TransferKind, Direction, Option<TransferBuffer>) {
    open spec fn obeys_from_spec() -> bool {
        false
    }

    open spec fn from_spec(request: TransferRequest) -> (
        TransferKind,
        Direction,
        Option<TransferBuffer>,
    ) {
        arbitrary()
    }
}

impl From<(TransferKind, Direction, Option<TransferBuffer>)> for TransferRequest {
    fn from(parts: (TransferKind, Direction, Option<TransferBuffer>)) -> (request: TransferRequest)
        ensures
            request@.kind == parts.0@,
            request@.direction == parts.1,
            request@.buffer == parts.2,
    {
        let (kind, direction, buffer) = parts;
        match kind {
            TransferKind::Control(setup) => TransferRequest::Control { setup, direction, buffer },
            TransferKind::Bulk => TransferRequest::Bulk { direction, buffer },
            TransferKind::Interrupt => TransferRequest::Interrupt { direction, buffer },
            TransferKind::Isochronous { packet_lengths } => {
                let packets = iso_packets_from_lengths(packet_lengths.as_slice());
                assert(lengths_of_packets(packets@) =~= packet_lengths@);
                TransferRequest::Isochronous { direction, buffer, packets }
            },
        }
    }
}

impl vstd::std_specs::convert::FromSpecImpl<(TransferKind, Direction, Option<TransferBuffer>)> for TransferRequest {
    open spec fn obeys_from_spec() -> bool {
        false
    }

    open spec fn from_spec(
        parts: (TransferKind, Direction, Option<TransferBuffer>),
    ) -> TransferRequest {
        arbitrary()
    }
}

/// How a transfer, or one packet of it, ended.
#[derive(Clone, Copy, Debug, PartialEq, Eq, Structural)]
pub enum TransferStatus {
    Completed,
    Stalled,
    Cancelled,
    Error,
}

/// What became of one packet of an isochronous transfer.
#[derive(Clone, Copy, Debug, PartialEq, Eq, Structural)]
pub struct IsoPacketResult {
    pub requested_length: usize,
    pub actual_length: usize,
    pub status: TransferStatus,
    /// Backend-native completion code, when the controller reports one.
    ///
    /// For xHCI this is the raw 8-bit TRB Completion Code. `status` remains a
    /// portable classification; it does not carry enough information to
    /// distinguish ISO outcomes such as short packets and missed service.
    pub completion_code: Option<u8>,
}

/// What became of a transfer.
#[derive(Clone, Debug)]
pub struct TransferCompletion {
    pub request_id: RequestId,
    pub status: TransferStatus,
    pub actual_length: usize,
    pub iso_packets: Vec<IsoPacketResult>,
}

/// Model of [`TransferCompletion`].
pub struct TransferCompletionView {
    pub request_id: u64,
    pub status: TransferStatus,
    pub actual_length: usize,
    pub iso_packets: Seq<IsoPacketResult>,
}

impl View for TransferCompletion {
    type V = TransferCompletionView;

    open spec fn view(&self) -> TransferCompletionView {
        TransferCompletionView {
            request_id: self.request_id.value(),
            status: self.status,
            actual_length: self.actual_length,
            iso_packets: self.iso_packets@,
        }
    }
}

/// The packets of a request and their lengths determine each other, so a request
/// can be taken apart and put together again.
pub proof fn law_packets_and_lengths_determine_each_other(
    packets: Seq<IsoPacketRequest>,
    lengths: Seq<usize>,
)
    ensures
        packets_of_lengths(lengths_of_packets(packets)) == packets,
        lengths_of_packets(packets_of_lengths(lengths)) == lengths,
{
    assert(packets_of_lengths(lengths_of_packets(packets)) =~= packets);
    assert(lengths_of_packets(packets_of_lengths(lengths)) =~= lengths);
}

/// Packets and lengths go together one by one, in the same order.
pub proof fn law_packets_keep_lengths_and_order(
    packets: Seq<IsoPacketRequest>,
    lengths: Seq<usize>,
    i: int,
)
    ensures
        lengths_of_packets(packets).len() == packets.len(),
        packets_of_lengths(lengths).len() == lengths.len(),
        0 <= i < packets.len() ==> lengths_of_packets(packets)[i] == packets[i].length,
        0 <= i < lengths.len() ==> packets_of_lengths(lengths)[i].length == lengths[i],
{
}

/// A request asks for one kind of transfer, in one direction, of one length.
pub proof fn law_request_asks_for_one_thing(
    request: TransferRequestView,
    kinds: (TransferKindView, TransferKindView),
    directions: (Direction, Direction),
    lens: (nat, nat),
)
    requires
        request.asks(kinds.0, directions.0, lens.0),
        request.asks(kinds.1, directions.1, lens.1),
    ensures
        kinds.0 == kinds.1,
        directions.0 == directions.1,
        lens.0 == lens.1,
        request.kind == kinds.0,
        request.direction == directions.0,
        request.buffer is Some && request.buffer->0.len == lens.0 && request.buffer->0.address != 0,
{
}

/// What a request means is what its variant says.
pub proof fn law_request_means_its_variant(request: TransferRequest)
    ensures
        request matches TransferRequest::Control { setup, direction, buffer } ==> request@.kind
            == TransferKindView::Control(setup) && request@.direction == direction
            && request@.buffer == buffer,
        request matches TransferRequest::Bulk { direction, buffer } ==> request@.kind is Bulk
            && request@.direction == direction && request@.buffer == buffer,
        request matches TransferRequest::Interrupt { direction, buffer } ==> request@.kind
            is Interrupt && request@.direction == direction && request@.buffer == buffer,
        request matches TransferRequest::Isochronous { direction, buffer, packets } ==> (
        request@.kind matches TransferKindView::Isochronous { packet_lengths }
            && packet_lengths.len() == packets@.len() && (forall|i: int|
            0 <= i < packets@.len() ==> #[trigger] packet_lengths[i] == packets@[i].length))
            && request@.direction == direction && request@.buffer == buffer,
{
}

/// A completion means its fields.
pub proof fn law_completion_means_its_fields(completion: TransferCompletion)
    ensures
        completion@.request_id == completion.request_id.value(),
        completion@.status == completion.status,
        completion@.actual_length == completion.actual_length,
        completion@.iso_packets == completion.iso_packets@,
{
}

} // verus!
