//! A transfer in flight: what was asked for, where its buffer is mapped, and what
//! came of it.

use vstd::prelude::*;

use crate::endpoint::IsoPacketResult;
use crate::endpoint::RequestId;
use crate::endpoint::TransferBuffer;
use crate::endpoint::TransferCompletion;
use crate::endpoint::TransferCompletionView;
use crate::endpoint::TransferKind;
use crate::endpoint::TransferKindView;
use crate::endpoint::TransferRequest;
use crate::endpoint::TransferStatus;
use crate::error::TransferError;
use crate::error::TransferFault;
use crate::usb::Direction;

verus! {

/// Alignment that a buffer is mapped with.
pub const DMA_ALIGN: usize = 64;

/// Which side writes a mapped buffer.
#[derive(Clone, Copy, Debug, PartialEq, Eq, Structural)]
pub enum DmaDirection {
    ToDevice,
    FromDevice,
}

/// A request to map a buffer for the controller.
#[derive(Clone, Copy, Debug, PartialEq, Eq, Structural)]
pub struct MappingRequest {
    pub buffer: TransferBuffer,
    pub align: usize,
    pub direction: DmaDirection,
}

/// Where a mapped buffer lies on the bus.
#[derive(Clone, Copy, Debug, PartialEq, Eq, Structural)]
pub struct DmaMapping {
    pub dma_addr: u64,
    pub len: usize,
}

/// A transfer, from submission to completion.
#[derive(Debug)]
pub struct Transfer {
    pub kind: TransferKind,
    pub direction: Direction,
    pub mapping: Option<DmaMapping>,
    pub transfer_len: usize,
    pub iso_packet_actual_lengths: Vec<usize>,
    /// Backend-native ISO completion codes, aligned with packet lengths.
    pub iso_packet_completion_codes: Vec<Option<u8>>,
}

/// Model of [`Transfer`].
pub struct TransferView {
    pub kind: TransferKindView,
    pub direction: Direction,
    pub mapping: Option<DmaMapping>,
    pub transfer_len: usize,
    pub iso_packet_actual_lengths: Seq<usize>,
    pub iso_packet_completion_codes: Seq<Option<u8>>,
}

impl View for Transfer {
    type V = TransferView;

    open spec fn view(&self) -> TransferView {
        TransferView {
            kind: self.kind@,
            direction: self.direction,
            mapping: self.mapping,
            transfer_len: self.transfer_len,
            iso_packet_actual_lengths: self.iso_packet_actual_lengths@,
            iso_packet_completion_codes: self.iso_packet_completion_codes@,
        }
    }
}

impl TransferView {
    pub open spec fn buffer_len(self) -> usize {
        match self.mapping {
            Some(mapping) => mapping.len,
            None => 0,
        }
    }

    pub open spec fn dma_addr(self) -> u64 {
        match self.mapping {
            Some(mapping) => mapping.dma_addr,
            None => 0,
        }
    }

    /// A transfer of which nothing has happened yet.
    pub open spec fn fresh(
        kind: TransferKindView,
        direction: Direction,
        mapping: Option<DmaMapping>,
    ) -> TransferView {
        TransferView {
            kind,
            direction,
            mapping,
            transfer_len: 0,
            iso_packet_actual_lengths: Seq::empty(),
            iso_packet_completion_codes: Seq::empty(),
        }
    }
}

/// What has to be mapped for a transfer over `buffer`: nothing where there are no
/// bytes to move.
pub open spec fn mapping_wanted(
    direction: Direction,
    buffer: Option<TransferBuffer>,
) -> Option<MappingRequest> {
    match buffer {
        Some(buffer) if buffer.len > 0 => Some(
            MappingRequest {
                buffer,
                align: DMA_ALIGN,
                direction: match direction {
                    Direction::In => DmaDirection::FromDevice,
                    Direction::Out => DmaDirection::ToDevice,
                },
            },
        ),
        _ => None,
    }
}

/// What becomes of a request to transfer, given what became of its mapping:
/// `mapped` is `None` where the buffer could not be mapped, and does not matter
/// where none was wanted.
pub open spec fn new_transfer(
    kind: TransferKindView,
    direction: Direction,
    buffer: Option<TransferBuffer>,
    mapped: Option<DmaMapping>,
) -> Result<TransferView, TransferError> {
    if mapping_wanted(direction, buffer) is None {
        Ok(TransferView::fresh(kind, direction, None))
    } else if mapped is None {
        Err(TransferError::Other(TransferFault::DmaMappingFailed))
    } else {
        Ok(TransferView::fresh(kind, direction, mapped))
    }
}

impl Transfer {
    /// The mapping that a transfer needs before it can be made.
    pub fn mapping_request(direction: Direction, buffer: Option<TransferBuffer>) -> (request:
        Option<MappingRequest>)
        ensures
            request == mapping_wanted(direction, buffer),
    {
        let dma_direction = match direction {
            Direction::In => DmaDirection::FromDevice,
            Direction::Out => DmaDirection::ToDevice,
        };
        match buffer {
            Some(buffer) => {
                if buffer.len > 0 {
                    Some(MappingRequest { buffer, align: DMA_ALIGN, direction: dma_direction })
                } else {
                    None
                }
            },
            None => None,
        }
    }

    pub fn new(
        kind: TransferKind,
        direction: Direction,
        buffer: Option<TransferBuffer>,
        mapped: Option<DmaMapping>,
    ) -> (result: Result<Transfer, TransferError>)
        ensures
            match result {
                Ok(transfer) => Ok::<TransferView, TransferError>(transfer@) == new_transfer(
                    kind@,
                    direction,
                    buffer,
                    mapped,
                ),
                Err(err) => Err::<TransferView, TransferError>(err) == new_transfer(
                    kind@,
                    direction,
                    buffer,
                    mapped,
                ),
            },
    {
        let mapping = match Transfer::mapping_request(direction, buffer) {
            Some(_) => match mapped {
                Some(mapping) => Some(mapping),
                None => {
                    return Err(TransferError::Other(TransferFault::DmaMappingFailed));
                },
            },
            None => None,
        };
        let transfer = Transfer {
            kind,
            direction,
            mapping,
            transfer_len: 0,
            iso_packet_actual_lengths: Vec::new(),
            iso_packet_completion_codes: Vec::new(),
        };
        assert(transfer@.iso_packet_actual_lengths =~= Seq::<usize>::empty());
        assert(transfer@.iso_packet_completion_codes =~= Seq::<Option<u8>>::empty());
        Ok(transfer)
    }

    pub fn from_request(request: TransferRequest, mapped: Option<DmaMapping>) -> (result: Result<
        Transfer,
        TransferError,
    >)
        ensures
            match result {
                Ok(transfer) => Ok::<TransferView, TransferError>(transfer@) == new_transfer(
                    request@.kind,
                    request@.direction,
                    request@.buffer,
                    mapped,
                ),
                Err(err) => Err::<TransferView, TransferError>(err) == new_transfer(
                    request@.kind,
                    request@.direction,
                    request@.buffer,
                    mapped,
                ),
            },
    {
        let parts: (TransferKind, Direction, Option<TransferBuffer>) = From::from(request);
        let (kind, direction, buffer) = parts;
        Transfer::new(kind, direction, buffer, mapped)
    }

    /// Bytes that are mapped for the controller.
    pub fn buffer_len(&self) -> (len: usize)
        ensures
            len == self@.buffer_len(),
    {
        match self.mapping {
            Some(mapping) => mapping.len,
            None => 0,
        }
    }

    /// Bus address of the mapped bytes.
    pub fn dma_addr(&self) -> (addr: u64)
        ensures
            addr == self@.dma_addr(),
    {
        match self.mapping {
            Some(mapping) => mapping.dma_addr,
            None => 0,
        }
    }
}

/// The smallest of three lengths.
pub open spec fn min3(a: nat, b: nat, c: nat) -> nat {
    if a <= b && a <= c {
        a
    } else if b <= c {
        b
    } else {
        c
    }
}

/// The per-packet results of a finished transfer: one for each packet that has
/// both an actual length and a completion code recorded.
pub open spec fn iso_results(transfer: TransferView) -> Seq<IsoPacketResult> {
    match transfer.kind {
        TransferKindView::Isochronous { packet_lengths } => Seq::new(
            min3(
                packet_lengths.len(),
                transfer.iso_packet_actual_lengths.len(),
                transfer.iso_packet_completion_codes.len(),
            ),
            |i: int|
                IsoPacketResult {
                    requested_length: packet_lengths[i],
                    actual_length: transfer.iso_packet_actual_lengths[i],
                    status: TransferStatus::Completed,
                    completion_code: transfer.iso_packet_completion_codes[i],
                },
        ),
        _ => Seq::empty(),
    }
}

/// The completion that a finished transfer is reported with.
pub open spec fn completion_of(id: u64, transfer: TransferView) -> TransferCompletionView {
    TransferCompletionView {
        request_id: id,
        status: TransferStatus::Completed,
        actual_length: transfer.transfer_len,
        iso_packets: iso_results(transfer),
    }
}

pub fn transfer_to_completion(id: RequestId, transfer: Transfer) -> (completion: TransferCompletion)
    ensures
        completion@ == completion_of(id.value(), transfer@),
{
    let mut iso_packets: Vec<IsoPacketResult> = Vec::new();
    if let TransferKind::Isochronous { packet_lengths } = &transfer.kind {
        let mut i: usize = 0;
        while i < packet_lengths.len() && i < transfer.iso_packet_actual_lengths.len() && i
            < transfer.iso_packet_completion_codes.len()
            invariant
                transfer@.kind == (TransferKindView::Isochronous {
                    packet_lengths: packet_lengths@,
                }),
                i <= iso_results(transfer@).len(),
                iso_packets@ == iso_results(transfer@).take(i as int),
            decreases packet_lengths@.len() - i,
        {
            let result = IsoPacketResult {
                requested_length: packet_lengths[i],
                actual_length: transfer.iso_packet_actual_lengths[i],
                status: TransferStatus::Completed,
                completion_code: transfer.iso_packet_completion_codes[i],
            };
            assert(iso_results(transfer@)[i as int] == result);
            iso_packets.push(result);
            i += 1;
            assert(iso_packets@ =~= iso_results(transfer@).take(i as int));
        }
        assert(iso_packets@ =~= iso_results(transfer@));
    } else {
        assert(iso_packets@ =~= iso_results(transfer@));
    }
    TransferCompletion {
        request_id: id,
        status: TransferStatus::Completed,
        actual_length: transfer.transfer_len,
        iso_packets,
    }
}

/// A mapping is asked for exactly where there are bytes to move. It is one of the
/// whole buffer, aligned to a cache line, and the device writes it exactly where the
/// transfer runs towards the host.
pub proof fn law_every_byte_is_mapped(direction: Direction, buffer: Option<TransferBuffer>)
    ensures
        mapping_wanted(direction, buffer) is Some <==> buffer is Some && buffer->0.len > 0,
        mapping_wanted(direction, buffer) matches Some(wanted) ==> {
            &&& buffer == Some(wanted.buffer)
            &&& wanted.align == 64
            &&& wanted.direction is FromDevice <==> direction is In
            &&& wanted.direction is ToDevice <==> direction is Out
        },
{
}

/// A transfer is what was asked for, over the mapping that was made for it, with
/// nothing moved yet. It comes to nothing exactly where there are bytes and no mapping.
pub proof fn law_transfer_is_what_was_asked_for(
    kind: TransferKindView,
    direction: Direction,
    buffer: Option<TransferBuffer>,
    mapped: Option<DmaMapping>,
)
    ensures
        match new_transfer(kind, direction, buffer, mapped) {
            Ok(transfer) => {
                let bytes: bool = buffer is Some && buffer->0.len > 0;
                &&& transfer.kind == kind
                &&& transfer.direction == direction
                &&& bytes ==> mapped is Some && transfer.mapping == mapped
                    && transfer.buffer_len() == mapped->0.len && transfer.dma_addr()
                    == mapped->0.dma_addr
                &&& !bytes ==> transfer.mapping is None && transfer.buffer_len() == 0
                    && transfer.dma_addr() == 0
                &&& transfer.transfer_len == 0
                &&& transfer.iso_packet_actual_lengths.len() == 0
                &&& transfer.iso_packet_completion_codes.len() == 0
            },
            Err(err) => {
                &&& buffer is Some && buffer->0.len > 0
                &&& mapped is None
                &&& err == TransferError::Other(TransferFault::DmaMappingFailed)
            },
        },
{
}

/// A completion names its request and the bytes that were moved. Packet by packet it
/// gives what was asked for, what came of it and the code, as long as all three are
/// there; a transfer of another kind has no packets to tell of.
pub proof fn law_completion_tells_of_its_transfer(id: u64, transfer: TransferView)
    ensures
        ({
            let completion = completion_of(id, transfer);
            &&& completion.request_id == id
            &&& completion.status is Completed
            &&& completion.actual_length == transfer.transfer_len
            &&& !(transfer.kind is Isochronous) ==> completion.iso_packets.len() == 0
            &&& transfer.kind matches TransferKindView::Isochronous { packet_lengths } ==> {
                &&& completion.iso_packets.len() <= packet_lengths.len()
                &&& completion.iso_packets.len() <= transfer.iso_packet_actual_lengths.len()
                &&& completion.iso_packets.len() <= transfer.iso_packet_completion_codes.len()
                &&& completion.iso_packets.len() == packet_lengths.len()
                    || completion.iso_packets.len() == transfer.iso_packet_actual_lengths.len()
                    || completion.iso_packets.len() == transfer.iso_packet_completion_codes.len()
                &&& forall|i: int|
                    #![trigger completion.iso_packets[i]]
                    0 <= i < completion.iso_packets.len() ==> {
                        &&& completion.iso_packets[i].requested_length == packet_lengths[i]
                        &&& completion.iso_packets[i].actual_length
                            == transfer.iso_packet_actual_lengths[i]
                        &&& completion.iso_packets[i].completion_code
                            == transfer.iso_packet_completion_codes[i]
                        &&& completion.iso_packets[i].status is Completed
                    }
            }
        }),
{
}

/// A transfer means its fields.
pub proof fn law_transfer_means_its_fields(transfer: Transfer)
    ensures
        transfer@.kind == transfer.kind@,
        transfer@.direction == transfer.direction,
        transfer@.mapping == transfer.mapping,
        transfer@.transfer_len == transfer.transfer_len,
        transfer@.iso_packet_actual_lengths == transfer.iso_packet_actual_lengths@,
        transfer@.iso_packet_completion_codes == transfer.iso_packet_completion_codes@,
{
}

} // verus!
