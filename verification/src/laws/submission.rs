//! What a submission puts to the controller, in terms of the request, its mapping and
//! the words of its TRBs.

use vstd::prelude::*;

use crate::endpoint::TransferKindView;
use crate::endpoint::TransferRequestView;
use crate::error::TransferError;
use crate::error::TransferFault;
use crate::laws::law_iso_packets_are_contiguous;
use crate::state::EndpointState;
use crate::state::SubmissionView;
use crate::state::lemma_td_kind_trbs;
use crate::submit::iso_packet_fields;
use crate::td::TdKindView;
use crate::transfer::DmaMapping;
use crate::trb::bits_of;
use crate::trb::law_data_stage_can_be_read_back;
use crate::trb::law_isoch_trb_can_be_read_back;
use crate::trb::law_normal_trb_can_be_read_back;
use crate::trb::law_setup_stage_can_be_read_back;
use crate::trb::law_status_stage_can_be_read_back;
use crate::trb::pointer_in;
use crate::usb::Recipient;
use crate::usb::Request;
use crate::usb::RequestType;
use crate::usb::law_requests_have_their_numbers;

verus! {

/// How many bytes a request wants to move.
pub open spec fn bytes_asked(request: TransferRequestView) -> usize {
    match request.buffer {
        Some(buffer) => buffer.len,
        None => 0,
    }
}

/// How many TRBs a request takes: setup and status with the data between them, one
/// for a bulk or interrupt transfer, and one for each isochronous packet, or one
/// where there is none.
pub open spec fn trbs_asked(request: TransferRequestView) -> int {
    match request.kind {
        TransferKindView::Control(_) => if bytes_asked(request) > 0 {
            3
        } else {
            2
        },
        TransferKindView::Bulk => 1,
        TransferKindView::Interrupt => 1,
        TransferKindView::Isochronous { packet_lengths } => if packet_lengths.len() > 0 {
            packet_lengths.len() as int
        } else {
            1
        },
    }
}

/// Whether `mapped` is a mapping of all bytes of a request, or none.
pub open spec fn maps_all(request: TransferRequestView, mapped: Option<DmaMapping>) -> bool {
    mapped matches Some(mapping) ==> mapping.len == bytes_asked(request)
}

/// Where the bytes of a request lie on the bus: at zero where there are none.
pub open spec fn address_given(request: TransferRequestView, mapped: Option<DmaMapping>) -> int {
    if bytes_asked(request) > 0 {
        mapped->0.dma_addr as int
    } else {
        0
    }
}

/// A request is refused for want of room exactly where a reset is under way or its
/// TRBs would leave no place free on the ring, else for its mapping exactly where it
/// has bytes and none was made, else for the mask exactly where the mapping ends
/// beyond it, and taken in every other case.
pub proof fn law_requests_are_refused_for_a_reason(
    state: EndpointState,
    request: TransferRequestView,
    mapped: Option<DmaMapping>,
)
    requires
        maps_all(request, mapped),
        mapped matches Some(mapping) ==> mapping.dma_addr + mapping.len <= u64::MAX,
    ensures
        ({
            let result = state.submitted(request, mapped);
            let room: bool = !state.reset_in_progress && state.outstanding + trbs_asked(request)
                + 1 <= state.config.ring.usable_capacity;
            let bytes: bool = bytes_asked(request) > 0;
            let beyond: bool = bytes && mapped is Some && mapped->0.dma_addr + mapped->0.len
                > state.config.dma_mask;
            &&& !room ==> result == Err::<SubmissionView, TransferError>(TransferError::QueueFull)
            &&& room && bytes && mapped is None ==> result == Err::<SubmissionView, TransferError>(
                TransferError::Other(TransferFault::DmaMappingFailed),
            )
            &&& room && beyond ==> (result matches Err(TransferError::Other(
                TransferFault::DmaMaskExceeded { start, end, mask },
            )) && start == mapped->0.dma_addr && end == start + bytes_asked(request) && mask
                == state.config.dma_mask)
            &&& result is Ok <==> room && !(bytes && mapped is None) && !beyond
        }),
{
}

/// A submission is made of the request, over the mapping that was made for it, with as
/// many TRBs as the request takes.
pub proof fn law_submission_is_the_request(
    state: EndpointState,
    request: TransferRequestView,
    mapped: Option<DmaMapping>,
)
    requires
        maps_all(request, mapped),
    ensures
        state.submitted(request, mapped) matches Ok(submission) ==> {
            &&& submission.transfer.kind == request.kind
            &&& submission.transfer.direction == request.direction
            &&& submission.transfer.mapping == (if bytes_asked(request) > 0 {
                mapped
            } else {
                None
            })
            &&& submission.transfer.buffer_len() == bytes_asked(request)
            &&& submission.transfer.transfer_len == 0
            &&& submission.trbs.len() == trbs_asked(request)
        },
{
}

/// The one TRB of a bulk or interrupt transfer moves the bytes of the request, and
/// tells of completion and of a short packet.
pub proof fn law_normal_submission_moves_the_bytes(
    state: EndpointState,
    request: TransferRequestView,
    mapped: Option<DmaMapping>,
)
    requires
        maps_all(request, mapped),
        state.submission_fits(request, mapped),
        request.kind is Bulk || request.kind is Interrupt,
    ensures
        state.submitted(request, mapped) matches Ok(submission) ==> {
            let words = submission.trbs[0];
            &&& submission.trbs.len() == 1
            &&& words.len() == 4
            &&& pointer_in(words) == address_given(request, mapped)
            &&& words[2] == bytes_asked(request) as u32
            &&& bits_of(words[3], 0x400, 0x40) == 1
            &&& bits_of(words[3], 0x20, 2) == 1
            &&& bits_of(words[3], 0x4, 2) == 1
            &&& words[3] == 0x400 + 0x20 + 0x4
        },
{
    if state.submitted(request, mapped) is Ok {
        law_normal_trb_can_be_read_back(
            address_given(request, mapped) as u64,
            bytes_asked(request) as u32,
        );
    }
}

/// The Setup Stage TRB of a control transfer holds the request byte for byte, the
/// number of bytes that follow, and whether and in which direction they do.
pub proof fn law_setup_stage_holds_the_request(
    state: EndpointState,
    request: TransferRequestView,
    mapped: Option<DmaMapping>,
)
    requires
        maps_all(request, mapped),
        request.kind is Control,
    ensures
        state.submitted(request, mapped) matches Ok(submission) ==> {
            let setup = request.kind->Control_0;
            let words = submission.trbs[0];
            &&& words.len() == 4
            &&& bits_of(words[0], 0x80, 2) == 1 <==> request.direction is In
            &&& bits_of(words[0], 0x20, 4) == (match setup.request_type {
                RequestType::Standard => 0,
                RequestType::Class => 1,
                RequestType::Vendor => 2,
                RequestType::Reserved => 3int,
            })
            &&& bits_of(words[0], 0x1, 0x20) == (match setup.recipient {
                Recipient::Device => 0,
                Recipient::Interface => 1,
                Recipient::Endpoint => 2,
                Recipient::Other => 3int,
            })
            &&& bits_of(words[0], 0x100, 0x100) == (match setup.request {
                Request::GetStatus => 0,
                Request::ClearFeature => 1,
                Request::SetFeature => 3,
                Request::SetAddress => 5,
                Request::GetDescriptor => 6,
                Request::SetDescriptor => 7,
                Request::GetConfiguration => 8,
                Request::SetConfiguration => 9,
                Request::GetInterface => 10,
                Request::SetInterface => 11,
                Request::SynchFrame => 12,
                Request::Other(code) => code as int,
            })
            &&& bits_of(words[0], 0x1_0000, 0x1_0000) == setup.value
            &&& bits_of(words[1], 0x1, 0x1_0000) == setup.index
            &&& bits_of(words[1], 0x1_0000, 0x1_0000) == bytes_asked(request) as u16
            &&& words[2] == 8
            &&& bits_of(words[3], 0x1, 0x1_0000) == 2 * 0x400 + 0x40
            &&& bits_of(words[3], 0x1_0000, 0x1_0000) == 0 <==> bytes_asked(request) == 0
            &&& bits_of(words[3], 0x1_0000, 0x1_0000) == 2 <==> bytes_asked(request) > 0
                && request.direction is Out
            &&& bits_of(words[3], 0x1_0000, 0x1_0000) == 3 <==> bytes_asked(request) > 0
                && request.direction is In
        },
{
    if state.submitted(request, mapped) is Ok {
        let setup = request.kind->Control_0;
        law_setup_stage_can_be_read_back(setup, request.direction, bytes_asked(request));
        law_requests_have_their_numbers(setup.request);
    }
}

/// Where a control transfer has data, its second TRB moves exactly the bytes of the
/// request, in the direction of the request, and tells of a short packet where the
/// device could send one. The last TRB runs against the data, and towards the host
/// where there is none, and alone tells of completion.
pub proof fn law_control_stages_follow_the_request(
    state: EndpointState,
    request: TransferRequestView,
    mapped: Option<DmaMapping>,
)
    requires
        maps_all(request, mapped),
        state.submission_fits(request, mapped),
        request.kind is Control,
    ensures
        state.submitted(request, mapped) matches Ok(submission) ==> {
            let status = submission.trbs.last();
            &&& bytes_asked(request) == 0 <==> submission.trbs.len() == 2
            &&& bytes_asked(request) > 0 <==> submission.trbs.len() == 3
            &&& bytes_asked(request) > 0 ==> {
                let data = submission.trbs[1];
                &&& data.len() == 4
                &&& pointer_in(data) == mapped->0.dma_addr
                &&& data[2] == bytes_asked(request) as u32
                &&& bits_of(data[3], 0x400, 0x40) == 3
                &&& bits_of(data[3], 0x1_0000, 0x1_0000) == 1 <==> request.direction is In
                &&& bits_of(data[3], 0x1_0000, 0x1_0000) == 0 <==> request.direction is Out
                &&& bits_of(data[3], 0x1, 0x400) == 0x4 <==> request.direction is In
                &&& bits_of(data[3], 0x1, 0x400) == 0 <==> request.direction is Out
                &&& bits_of(status[3], 0x1_0000, 2) != bits_of(data[3], 0x1_0000, 2)
            }
            &&& status.len() == 4
            &&& status[0] == 0 && status[1] == 0 && status[2] == 0
            &&& bits_of(status[3], 0x1, 0x1_0000) == 4 * 0x400 + 0x20
            &&& bits_of(status[3], 0x1_0000, 0x1_0000) == 1 <==> bytes_asked(request) == 0
                || request.direction is Out
            &&& bits_of(status[3], 0x1_0000, 0x1_0000) == 0 <==> bytes_asked(request) > 0
                && request.direction is In
        },
{
    if state.submitted(request, mapped) is Ok {
        let submission = state.submitted(request, mapped)->Ok_0;
        law_status_stage_can_be_read_back(request.direction, bytes_asked(request));
        if bytes_asked(request) > 0 {
            law_data_stage_can_be_read_back(
                mapped->0.dma_addr,
                bytes_asked(request) as u32,
                request.direction,
            );
            let data = submission.trbs[1];
            assert(data == crate::trb::data_stage_words(
                mapped->0.dma_addr,
                bytes_asked(request) as u32,
                request.direction,
            ));
        }
    }
}

/// The length of packet `k`; the one TRB of a transfer without packets moves nothing.
pub open spec fn packet_length(lengths: Seq<usize>, k: int) -> usize {
    if k < lengths.len() {
        lengths[k]
    } else {
        0
    }
}

proof fn lemma_iso_trb_fields(
    state: EndpointState,
    request: TransferRequestView,
    mapped: Option<DmaMapping>,
    k: int,
)
    requires
        maps_all(request, mapped),
        state.submission_fits(request, mapped),
        request.kind is Isochronous,
        state.submitted(request, mapped) is Ok,
        0 <= k < trbs_asked(request),
    ensures
        ({
            let submission = state.submitted(request, mapped)->Ok_0;
            let fields = iso_packet_fields(
                state.config,
                state.next_iso_frame_id,
                address_given(request, mapped) as u64,
                request.kind->packet_lengths,
                request.direction is In,
                k,
            );
            &&& submission.trbs.len() == trbs_asked(request)
            &&& submission.trbs[k] == fields.words()
            &&& fields.fit()
            &&& fields.length == packet_length(request.kind->packet_lengths, k) as u32
        }),
{
    assert(0usize as u32 == 0) by (bit_vector);
    let lengths = request.kind->packet_lengths;
    if k < lengths.len() {
        assert(lengths[k] as u32 <= crate::trb::TRB_LENGTH_MAX);
    }
}

/// The packets of an isochronous transfer lie one behind the other in the mapping that
/// the request was given: the first TRB points at its start, and each other as far
/// behind the one before as that one's packet is long.
pub proof fn law_iso_trbs_cover_the_mapping(
    state: EndpointState,
    request: TransferRequestView,
    mapped: Option<DmaMapping>,
    k: int,
)
    requires
        maps_all(request, mapped),
        state.submission_fits(request, mapped),
        request.kind is Isochronous,
        0 <= k < trbs_asked(request),
    ensures
        state.submitted(request, mapped) matches Ok(submission) ==> {
            let lengths = request.kind->packet_lengths;
            &&& submission.trbs.len() == trbs_asked(request)
            &&& submission.trbs[k].len() == 4
            &&& pointer_in(submission.trbs[0]) == address_given(request, mapped)
            &&& k > 0 ==> pointer_in(submission.trbs[k]) == pointer_in(submission.trbs[k - 1])
                + lengths[k - 1]
            &&& bits_of(submission.trbs[k][2], 0x1, 0x2_0000) == packet_length(lengths, k) as u32
        },
{
    if state.submitted(request, mapped) is Ok {
        let lengths = request.kind->packet_lengths;
        let addr = address_given(request, mapped) as u64;
        let short: bool = request.direction is In;
        let frame = state.next_iso_frame_id;
        lemma_iso_trb_fields(state, request, mapped, 0);
        lemma_iso_trb_fields(state, request, mapped, k);
        law_isoch_trb_can_be_read_back(
            iso_packet_fields(state.config, frame, addr, lengths, short, 0),
        );
        law_isoch_trb_can_be_read_back(
            iso_packet_fields(state.config, frame, addr, lengths, short, k),
        );
        law_iso_packets_are_contiguous(state.config, frame, addr, lengths, short, 0);
        if k > 0 {
            lemma_iso_trb_fields(state, request, mapped, k - 1);
            law_isoch_trb_can_be_read_back(
                iso_packet_fields(state.config, frame, addr, lengths, short, k - 1),
            );
            law_iso_packets_are_contiguous(state.config, frame, addr, lengths, short, k - 1);
        }
    }
}

/// The TRB of an isochronous packet is of its type, tells of completion to the first
/// interrupter, and is kept from interrupting unless it is the last. It tells of a
/// short packet where the device could send one. It starts as soon as possible, or one
/// interval after the packet before it.
pub proof fn law_iso_trbs_follow_the_schedule(
    state: EndpointState,
    request: TransferRequestView,
    mapped: Option<DmaMapping>,
    k: int,
)
    requires
        maps_all(request, mapped),
        state.submission_fits(request, mapped),
        request.kind is Isochronous,
        0 <= k < trbs_asked(request),
    ensures
        state.submitted(request, mapped) matches Ok(submission) ==> {
            let words = submission.trbs[k];
            &&& words.len() == 4
            &&& bits_of(words[2], 0x40_0000, 0x400) == 0
            &&& bits_of(words[3], 0x400, 0x40) == 5
            &&& bits_of(words[3], 0x20, 2) == 1
            &&& bits_of(words[3], 0x4, 2) == 1 <==> request.direction is In
            &&& bits_of(words[3], 0x200, 2) == 0 <==> k == trbs_asked(request) - 1
            &&& bits_of(words[3], 0x1, 4) == 0
            &&& bits_of(words[3], 0x8, 4) == 0
            &&& bits_of(words[3], 0x40, 8) == 0
            &&& bits_of(words[3], 0x8000_0000, 2) == 1 <==> state.config.iso_start_asap
            &&& state.config.iso_start_asap ==> bits_of(words[3], 0x10_0000, 0x800) == 0
            &&& !state.config.iso_start_asap ==> bits_of(words[3], 0x10_0000, 0x800) == (
            state.next_iso_frame_id + k * state.config.interval) % 0x800
        },
{
    if state.submitted(request, mapped) is Ok {
        lemma_iso_trb_fields(state, request, mapped, k);
        let fields = iso_packet_fields(
            state.config,
            state.next_iso_frame_id,
            address_given(request, mapped) as u64,
            request.kind->packet_lengths,
            request.direction is In,
            k,
        );
        law_isoch_trb_can_be_read_back(fields);
        let due: int = state.next_iso_frame_id + k * state.config.interval;
        assert(0 <= due % 0x800 < 0x800);
    }
}

/// The TRB of an isochronous packet tells in how many bursts its bytes go over the bus.
/// Take the number `packets` of packets on the bus that just hold the bytes, and at
/// least one, and divide all but one of them into bursts: the whole bursts and the
/// packets over are what the TRB holds, each as far as its field goes.
pub proof fn law_iso_trbs_count_bursts(
    state: EndpointState,
    request: TransferRequestView,
    mapped: Option<DmaMapping>,
    k: int,
    packets: int,
    burst: int,
    bursts: int,
    over: int,
)
    requires
        maps_all(request, mapped),
        state.submission_fits(request, mapped),
        request.kind is Isochronous,
        0 <= k < trbs_asked(request),
        ({
            let size: int = state.config.max_packet_size as int;
            let len: int = packet_length(request.kind->packet_lengths, k) as int;
            if size == 0 || len == 0 {
                packets == 1
            } else {
                (packets - 1) * size < len <= packets * size
            }
        }),
        burst == (if state.config.max_burst_size == usize::MAX {
            usize::MAX as int
        } else {
            state.config.max_burst_size + 1
        }),
        packets - 1 == bursts * burst + over,
        0 <= over < burst,
    ensures
        state.submitted(request, mapped) matches Ok(submission) ==> {
            let words = submission.trbs[k];
            &&& words.len() == 4
            &&& bits_of(words[2], 0x2_0000, 0x20) == (if bursts < 0x1f {
                bursts
            } else {
                0x1f
            })
            &&& bits_of(words[3], 0x1_0000, 0x10) == (if over < 0xf {
                over
            } else {
                0xf
            })
        },
{
    if state.submitted(request, mapped) is Ok {
        let lengths = request.kind->packet_lengths;
        let size: int = state.config.max_packet_size as int;
        let len: int = packet_length(lengths, k) as int;
        lemma_iso_trb_fields(state, request, mapped, k);
        let fields = iso_packet_fields(
            state.config,
            state.next_iso_frame_id,
            address_given(request, mapped) as u64,
            lengths,
            request.direction is In,
            k,
        );
        law_isoch_trb_can_be_read_back(fields);
        if size != 0 && len != 0 {
            let rest = len - 1 - (packets - 1) * size;
            assert(packets * size == (packets - 1) * size + size) by (nonlinear_arith);
            vstd::arithmetic::div_mod::lemma_fundamental_div_mod_converse(
                len - 1,
                size,
                packets - 1,
                rest,
            );
        }
        vstd::arithmetic::div_mod::lemma_fundamental_div_mod_converse(
            packets - 1,
            burst,
            bursts,
            over,
        );
        assert(packets >= 1) by {
            if size != 0 && len != 0 {
                assert(packets >= 1) by (nonlinear_arith)
                    requires
                        len <= packets * size,
                        len >= 1,
                        size >= 1,
                ;
            }
        }
        assert(bursts >= 0) by (nonlinear_arith)
            requires
                packets - 1 == bursts * burst + over,
                packets >= 1,
                over < burst,
                burst >= 1,
        ;
    }
}

/// An isochronous submission takes a frame for every interval of its packets, and a
/// submission of another kind none. Nothing else changes before its TRBs are on the
/// ring, but for the next id, which is the one after its own and never zero.
pub proof fn law_submission_takes_an_id_and_its_frames(
    state: EndpointState,
    request: TransferRequestView,
    mapped: Option<DmaMapping>,
)
    requires
        state.wf(),
        maps_all(request, mapped),
    ensures
        state.submitted(request, mapped) matches Ok(submission) ==> {
            let after = state.prepared(submission);
            &&& after.next_iso_frame_id == (if request.kind is Isochronous {
                (state.next_iso_frame_id + trbs_asked(request) * state.config.interval) % 0x800
            } else {
                state.next_iso_frame_id as int
            })
            &&& after.next_request_id == (if submission.request_id == u64::MAX {
                1
            } else {
                submission.request_id + 1
            })
            &&& after.config == state.config
            &&& after.halted == state.halted
            &&& after.reset_in_progress == state.reset_in_progress
            &&& after.inflight == state.inflight
            &&& after.stopped == state.stopped
            &&& after.routes == state.routes
            &&& after.outstanding == state.outstanding
        },
{
    if state.submitted(request, mapped) is Ok {
        let due: int = state.next_iso_frame_id + trbs_asked(request) * state.config.interval;
        assert(0 <= due % 0x800 < 0x800);
    }
}

/// Putting a submission on the ring ties each TRB to its part of the request: the first
/// address of a control transfer is that of its setup stage, the last that of its
/// status stage and one between them that of its data stage; address `i` of an
/// isochronous transfer is that of packet `i`; of another transfer there is only one.
pub proof fn law_addresses_are_those_of_their_parts(
    state: EndpointState,
    submission: SubmissionView,
    addresses: Seq<u64>,
)
    requires
        state.has_room_for(submission),
        addresses.len() == submission.trbs.len(),
    ensures
        ({
            let after = state.committed(submission, addresses);
            let td = after.inflight[submission.request_id];
            &&& after.inflight.contains_key(submission.request_id)
            &&& td.transfer == submission.transfer
            &&& td.trb_count == addresses.len()
            &&& !td.cancelled
            &&& match submission.transfer.kind {
                TransferKindView::Control(_) => {
                    &&& td.kind matches TdKindView::Control(control_td)
                    &&& control_td.setup_trb == addresses[0]
                    &&& control_td.status_trb == addresses[addresses.len() - 1]
                    &&& control_td.data_trb == (if submission.transfer.buffer_len() > 0 {
                        Some(addresses[1])
                    } else {
                        None
                    })
                    &&& control_td.requested == submission.transfer.buffer_len()
                    &&& control_td.actual is None
                },
                TransferKindView::Isochronous { .. } => {
                    &&& td.kind matches TdKindView::Iso { packets }
                    &&& packets.len() == addresses.len()
                    &&& forall|i: int|
                        #![trigger packets[i]]
                        0 <= i < packets.len() ==> {
                            &&& packets[i].trb == addresses[i]
                            &&& packets[i].final_packet <==> i == packets.len() - 1
                            &&& packets[i].event is None
                            &&& packets[i].actual is None
                        }
                },
                _ => td.kind matches TdKindView::Normal { completion_trb } && completion_trb
                    == addresses[0],
            }
            &&& after.config == state.config
            &&& after.halted == state.halted
            &&& after.reset_in_progress == state.reset_in_progress
            &&& after.next_request_id == state.next_request_id
            &&& after.next_iso_frame_id == state.next_iso_frame_id
            &&& after.stopped == state.stopped
            &&& after.outstanding == state.outstanding + addresses.len()
        }),
{
    lemma_td_kind_trbs(submission.transfer, addresses);
}

} // verus!
