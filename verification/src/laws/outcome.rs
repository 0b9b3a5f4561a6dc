//! What becomes of a request, in terms of the events of its TRBs.

use vstd::prelude::*;

use crate::completion::CompletionCode;
use crate::completion::EVENT_LENGTH_MAX;
use crate::completion::TransferEvent;
use crate::completion::iso_actual_length;
use crate::completion::iso_is_fatal;
use crate::completion::iso_reported_code;
use crate::completion::law_iso_fatal_means_no_length;
use crate::error::TransferError;
use crate::error::TransferFault;
use crate::laws::law_iso_completion_reports_every_packet;
use crate::laws::lemma_control_scan_keeps_stages;
use crate::laws::lemma_iso_scan_keeps_trbs;
use crate::laws::submission::law_addresses_are_those_of_their_parts;
use crate::reclaim::control_scan;
use crate::reclaim::iso_all_done;
use crate::reclaim::iso_ends_at;
use crate::reclaim::iso_recorded;
use crate::reclaim::iso_scan;
use crate::reclaim::law_iso_ends_at_the_first_ending_packet;
use crate::reclaim::lemma_recorded_keeps_wf;
use crate::reclaim::requested_length;
use crate::recovery::ResetProgress;
use crate::state::EndpointConfig;
use crate::state::EndpointState;
use crate::state::SubmissionView;
use crate::state::WakerPlanView;
use crate::state::lemma_trbs_held_remove;
use crate::td::IsoPacketTd;
use crate::td::TdKindView;
use crate::td::TdView;
use crate::td::iso_packet_final;
use crate::td::iso_packets_wf;
use crate::td::td_completed;
use crate::td::total;
use crate::trb::EnqueuePointer;
use crate::trb::bits_of;
use crate::trb::law_commands_can_be_read_back;
use crate::trb::pointer_in;

verus! {

/// Why a transfer that is judged by its event as a whole fails, where it does: a
/// success and a short packet do not fail it.
pub open spec fn failure_of(event: TransferEvent) -> Option<TransferError> {
    match event.code() {
        Ok(code) => if code is Success || code is ShortPacket {
            None
        } else if code is StallError {
            Some(TransferError::Stall)
        } else {
            Some(TransferError::Other(TransferFault::CompletionCode(code)))
        },
        Err(_) => Some(TransferError::Other(TransferFault::TransferFailed)),
    }
}

/// Why an event fails an isochronous transfer, where it does: the codes that end only
/// their packet do not.
pub open spec fn iso_failure_of(event: TransferEvent) -> Option<TransferError> {
    match event.code() {
        Ok(code) => if code is Success || code is ShortPacket || code is BabbleDetectedError
            || code is IsochBufferOverrun || code is MissedServiceError
            || code is UsbTransactionError || code is Stopped || code is StoppedShortPacket
            || code is StoppedLengthInvalid {
            None
        } else if code is StallError {
            Some(TransferError::Stall)
        } else {
            Some(TransferError::Other(TransferFault::CompletionCode(code)))
        },
        Err(raw) => Some(TransferError::Other(TransferFault::UnknownIsoCompletionCode(raw))),
    }
}

/// What is left of `len` bytes when `rest` were not moved.
pub open spec fn bytes_moved(len: usize, rest: u32) -> int {
    if rest <= len {
        len - rest
    } else {
        0
    }
}

// ---------------------------------------------------------------------------
// Bulk and interrupt transfers
// ---------------------------------------------------------------------------

/// A bulk or interrupt transfer gives its result exactly when the event of its TRB has
/// come in: the failure that the event tells of, or the bytes that were moved.
pub proof fn law_normal_outcome_is_that_of_its_event(
    state: EndpointState,
    id: u64,
    finished: Map<u64, TransferEvent>,
)
    requires
        !state.stopped.contains(id),
        state.inflight.contains_key(id),
        !state.inflight[id].cancelled,
        state.inflight[id].kind is Normal,
        state.inflight[id].wf(),
    ensures
        ({
            let td = state.inflight[id];
            let trb = td.kind->completion_trb;
            match state.reclaimed(id, finished).1 {
                None => !finished.contains_key(trb),
                Some(reclaimed) => {
                    &&& finished.contains_key(trb)
                    &&& match failure_of(finished[trb]) {
                        Some(err) => reclaimed.outcome matches Err(given) && given == err,
                        None => reclaimed.outcome matches Ok(completion) && {
                            &&& completion.request_id == id
                            &&& completion.status is Completed
                            &&& completion.actual_length == bytes_moved(
                                td.transfer.buffer_len(),
                                finished[trb].remaining(),
                            )
                            &&& completion.iso_packets.len() == 0
                        },
                    }
                },
            }
        }),
{
}

// ---------------------------------------------------------------------------
// Control transfers
// ---------------------------------------------------------------------------

/// Why a stage fails its transfer, where its event is among those that have come in.
pub open spec fn stage_failure(trb: u64, finished: Map<u64, TransferEvent>) -> Option<
    TransferError,
> {
    if finished.contains_key(trb) {
        failure_of(finished[trb])
    } else {
        None
    }
}

/// The first failure among the stages of a control transfer, setup before data before
/// status.
pub open spec fn first_failure(
    setup_trb: u64,
    data_trb: Option<u64>,
    status_trb: u64,
    finished: Map<u64, TransferEvent>,
) -> Option<TransferError> {
    if stage_failure(setup_trb, finished) is Some {
        stage_failure(setup_trb, finished)
    } else if data_trb is Some && stage_failure(data_trb->0, finished) is Some {
        stage_failure(data_trb->0, finished)
    } else {
        stage_failure(status_trb, finished)
    }
}

/// A control transfer fails with the first failure among its stages, whichever stage
/// that is. It succeeds exactly where no stage has failed and the event of the status
/// stage has come in, and gives no result as long as there is neither.
pub proof fn law_control_outcome_is_that_of_its_stages(
    state: EndpointState,
    id: u64,
    finished: Map<u64, TransferEvent>,
)
    requires
        !state.stopped.contains(id),
        state.inflight.contains_key(id),
        !state.inflight[id].cancelled,
        state.inflight[id].kind is Control,
        state.inflight[id].wf(),
    ensures
        ({
            let td = state.inflight[id];
            let control_td = td.kind->Control_0;
            let result = state.reclaimed(id, finished).1;
            match first_failure(
                control_td.setup_trb,
                control_td.data_trb,
                control_td.status_trb,
                finished,
            ) {
                Some(err) => result matches Some(reclaimed) && reclaimed.outcome is Err
                    && reclaimed.outcome->Err_0 == err,
                None => {
                    &&& result is Some <==> finished.contains_key(control_td.status_trb)
                    &&& result matches Some(reclaimed) ==> reclaimed.outcome is Ok
                        && reclaimed.outcome->Ok_0.request_id == id
                        && reclaimed.outcome->Ok_0.status is Completed
                        && reclaimed.outcome->Ok_0.iso_packets.len() == 0
                },
            }
        }),
{
    reveal_with_fuel(control_scan, 4);
}

/// A control transfer that was just put on the ring is judged by the events at its
/// addresses: at the first for its setup stage, at the last for its status stage and
/// at the one between them, where there is data, for its data stage. When it succeeds,
/// it reports what the data stage moved, or all bytes where nothing was heard of that.
pub proof fn law_control_request_is_judged_at_its_addresses(
    state: EndpointState,
    submission: SubmissionView,
    addresses: Seq<u64>,
    finished: Map<u64, TransferEvent>,
)
    requires
        state.wf(),
        state.can_commit(submission),
        submission.transfer.kind is Control,
        addresses.len() == submission.trbs.len(),
        !state.stopped.contains(submission.request_id),
    ensures
        ({
            let id = submission.request_id;
            let len = submission.transfer.buffer_len();
            let last = addresses[addresses.len() - 1];
            let data = if len > 0 {
                Some(addresses[1])
            } else {
                None
            };
            let result = state.committed(submission, addresses).reclaimed(id, finished).1;
            match first_failure(addresses[0], data, last, finished) {
                Some(err) => result matches Some(reclaimed) && reclaimed.outcome is Err
                    && reclaimed.outcome->Err_0 == err,
                None => {
                    &&& result is Some <==> finished.contains_key(last)
                    &&& result matches Some(reclaimed) ==> reclaimed.outcome is Ok
                        && reclaimed.outcome->Ok_0.request_id == id
                        && reclaimed.outcome->Ok_0.actual_length == (if len > 0
                        && finished.contains_key(addresses[1]) {
                        bytes_moved(len, finished[addresses[1]].remaining())
                    } else {
                        len as int
                    })
                },
            }
        }),
{
    let id = submission.request_id;
    let after = state.committed(submission, addresses);
    law_addresses_are_those_of_their_parts(state, submission, addresses);
    crate::state::lemma_committed_wf(state, submission, addresses);
    assert(after.inflight.contains_key(id));
    law_control_outcome_is_that_of_its_stages(after, id, finished);
    crate::laws::law_control_completion_reports_the_data_stage(after, id, finished);
}

// ---------------------------------------------------------------------------
// Isochronous transfers
// ---------------------------------------------------------------------------

/// A packet after its transfer has succeeded: with its event where there is one, and
/// empty where nothing was heard of it.
pub open spec fn settled(
    packet: IsoPacketTd,
    requested: usize,
    finished: Map<u64, TransferEvent>,
) -> IsoPacketTd {
    if packet.actual is Some {
        packet
    } else if finished.contains_key(packet.trb) {
        IsoPacketTd {
            event: Some(finished[packet.trb]),
            actual: Some(iso_actual_length(requested, finished[packet.trb])->Ok_0),
            ..packet
        }
    } else {
        IsoPacketTd { actual: Some(0), ..packet }
    }
}

proof fn lemma_scan_that_succeeds(
    packets: Seq<IsoPacketTd>,
    lengths: Seq<usize>,
    finished: Map<u64, TransferEvent>,
    k: int,
)
    requires
        packets.len() > 0,
        forall|i: int|
            0 <= i < packets.len() ==> ((#[trigger] packets[i]).final_packet <==> i
                == packets.len() - 1),
        packets.last().actual is None,
        0 <= k <= packets.len(),
        iso_scan(packets, lengths, finished, k).stop matches Some(stop) && stop.failure is None,
    ensures
        ({
            let scan = iso_scan(packets, lengths, finished, k);
            &&& scan.packets.len() == packets.len()
            &&& scan.stop->0.trb == packets.last().trb
            &&& finished.contains_key(packets.last().trb)
            &&& forall|i: int|
                #![trigger scan.packets[i]]
                0 <= i < packets.len() ==> scan.packets[i] == (if i < k {
                    if packets[i].actual is Some {
                        packets[i]
                    } else {
                        IsoPacketTd { actual: Some(0), ..packets[i] }
                    }
                } else {
                    settled(packets[i], requested_length(lengths, i), finished)
                })
        }),
    decreases packets.len() - k,
{
    if k < packets.len() {
        if packets[k].actual is Some || !finished.contains_key(packets[k].trb) {
            lemma_scan_that_succeeds(packets, lengths, finished, k + 1);
        } else {
            let event = finished[packets[k].trb];
            let result = iso_actual_length(requested_length(lengths, k), event);
            law_iso_fatal_means_no_length(requested_length(lengths, k), event);
            let next = iso_recorded(packets, k, event, result->Ok_0, iso_is_fatal(event));
            if !packets[k].final_packet {
                let last = packets.len() - 1;
                assert(next[last].actual is None);
                assert(!iso_all_done(next));
                lemma_scan_that_succeeds(next, lengths, finished, k + 1);
            }
        }
    }
}

proof fn lemma_scan_that_fails(
    packets: Seq<IsoPacketTd>,
    lengths: Seq<usize>,
    finished: Map<u64, TransferEvent>,
    k: int,
)
    requires
        0 <= k <= packets.len(),
        iso_scan(packets, lengths, finished, k).stop matches Some(stop) && stop.failure is Some,
    ensures
        ({
            let scan = iso_scan(packets, lengths, finished, k);
            let stop = scan.stop->0;
            &&& scan.packets.len() == packets.len()
            &&& exists|i: int|
                #![trigger scan.packets[i]]
                0 <= i < packets.len() && scan.packets[i].actual is None && scan.packets[i].trb
                    == stop.trb
            &&& iso_actual_length(0, stop.event) matches Err(err) && stop.failure == Some(err)
        }),
    decreases packets.len() - k,
{
    if k < packets.len() {
        if packets[k].actual is Some || !finished.contains_key(packets[k].trb) {
            lemma_scan_that_fails(packets, lengths, finished, k + 1);
        } else {
            let event = finished[packets[k].trb];
            match iso_actual_length(requested_length(lengths, k), event) {
                Ok(actual) => {
                    let next = iso_recorded(packets, k, event, actual, iso_is_fatal(event));
                    lemma_scan_that_fails(next, lengths, finished, k + 1);
                },
                Err(_) => {
                    assert(iso_scan(packets, lengths, finished, k).packets[k] == packets[k]);
                },
            }
        }
    }
}

/// Whether packet `i` of an isochronous request has a new event that fails the
/// transfer.
pub open spec fn packet_fails(td: TdView, finished: Map<u64, TransferEvent>, i: int) -> bool {
    let packet = td.packets()[i];
    packet.actual is None && finished.contains_key(packet.trb) && iso_failure_of(
        finished[packet.trb],
    ) is Some
}

proof fn lemma_iso_failure_is_fatal(event: TransferEvent, requested: usize)
    ensures
        iso_failure_of(event) is Some <==> iso_is_fatal(event),
        iso_failure_of(event) matches Some(err) ==> (iso_actual_length(
            requested,
            event,
        ) matches Err(given) && given == err),
{
}

/// Where packet `i` is the first of an isochronous request whose event fails the
/// transfer, the request fails with exactly that failure.
pub proof fn law_iso_fails_with_its_first_failure(
    state: EndpointState,
    id: u64,
    finished: Map<u64, TransferEvent>,
    i: int,
)
    requires
        state.wf(),
        !state.stopped.contains(id),
        state.inflight.contains_key(id),
        !state.inflight[id].cancelled,
        state.inflight[id].is_iso(),
        state.inflight[id].lengths().len() > 0,
        0 <= i < state.inflight[id].packets().len(),
        packet_fails(state.inflight[id], finished, i),
        forall|j: int| 0 <= j < i ==> !#[trigger] packet_fails(state.inflight[id], finished, j),
    ensures
        state.reclaimed(id, finished).1 matches Some(reclaimed) && reclaimed.outcome is Err
            && Some(reclaimed.outcome->Err_0) == iso_failure_of(
            finished[state.inflight[id].packets()[i].trb],
        ),
{
    let td = state.inflight[id];
    let packets = td.packets();
    let lengths = td.lengths();
    law_iso_ends_at_the_first_ending_packet(packets, lengths, finished);
    assert forall|j: int| 0 <= j <= i implies (#[trigger] iso_ends_at(packets, finished, j) <==> j
        == i) by {
        assert(packet_fails(td, finished, j) <==> j == i);
        if finished.contains_key(packets[j].trb) {
            lemma_iso_failure_is_fatal(finished[packets[j].trb], 0);
        }
    }
    assert(iso_ends_at(packets, finished, i));
    let scan = iso_scan(packets, lengths, finished, 0);
    let stop = scan.stop->0;
    lemma_iso_failure_is_fatal(finished[packets[i].trb], 0);
    assert(stop.event == finished[packets[i].trb]);
    lemma_stop_failure_is_that_of_its_event(packets, lengths, finished, 0);
    lemma_scan_that_fails(packets, lengths, finished, 0);
    lemma_iso_failure_ends_in_err(td, finished);
}

proof fn lemma_stop_failure_is_that_of_its_event(
    packets: Seq<IsoPacketTd>,
    lengths: Seq<usize>,
    finished: Map<u64, TransferEvent>,
    k: int,
)
    requires
        0 <= k <= packets.len(),
        iso_scan(packets, lengths, finished, k).stop is Some,
    ensures
        iso_scan(packets, lengths, finished, k).stop->0.failure == iso_failure_of(
            iso_scan(packets, lengths, finished, k).stop->0.event,
        ),
    decreases packets.len() - k,
{
    if k < packets.len() {
        if packets[k].actual is Some || !finished.contains_key(packets[k].trb) {
            lemma_stop_failure_is_that_of_its_event(packets, lengths, finished, k + 1);
        } else {
            let event = finished[packets[k].trb];
            lemma_iso_failure_is_fatal(event, requested_length(lengths, k));
            law_iso_fatal_means_no_length(requested_length(lengths, k), event);
            match iso_actual_length(requested_length(lengths, k), event) {
                Ok(actual) => {
                    let next = iso_recorded(packets, k, event, actual, iso_is_fatal(event));
                    if iso_scan(packets, lengths, finished, k) != iso_scan(
                        next,
                        lengths,
                        finished,
                        k + 1,
                    ) {
                    } else {
                        lemma_stop_failure_is_that_of_its_event(next, lengths, finished, k + 1);
                    }
                },
                Err(_) => {},
            }
        }
    }
}

/// An isochronous transfer that is stopped by a failing event is completed with an
/// error, too.
proof fn lemma_iso_failure_ends_in_err(td: TdView, finished: Map<u64, TransferEvent>)
    requires
        td.wf(),
        td.is_iso(),
        !td.cancelled,
        iso_scan(td.packets(), td.lengths(), finished, 0).stop matches Some(stop)
            && stop.failure is Some,
    ensures
        ({
            let scan = iso_scan(td.packets(), td.lengths(), finished, 0);
            let stop = scan.stop->0;
            let completed = td_completed(td.with_packets(scan.packets), stop.trb, stop.event);
            &&& completed is Err
            &&& td.lengths().len() > 0 ==> completed->Err_0 == stop.failure->0
        }),
{
    let scan = iso_scan(td.packets(), td.lengths(), finished, 0);
    let stop = scan.stop->0;
    lemma_scan_that_fails(td.packets(), td.lengths(), finished, 0);
    if td.lengths().len() > 0 {
        let i = choose|i: int|
            #![trigger scan.packets[i]]
            0 <= i < td.packets().len() && scan.packets[i].actual is None && scan.packets[i].trb
                == stop.trb;
        law_iso_fatal_means_no_length(td.lengths()[i], stop.event);
        law_iso_fatal_means_no_length(0, stop.event);
        assert(iso_packet_final(scan.packets[i], td.lengths()[i], stop.trb, stop.event) is Err);
    }
}

/// Where no packet of an isochronous request has failed the transfer, the request
/// gives its result exactly when the event of the last packet has come in, and the
/// result is a success. Packet by packet it tells what was asked for and what came of
/// it: a packet that was recorded before keeps its length and its code, a packet with
/// an event takes both from there, and a packet that nothing was heard of is empty and
/// has no code.
pub proof fn law_iso_success_tells_of_every_packet(
    state: EndpointState,
    id: u64,
    finished: Map<u64, TransferEvent>,
)
    requires
        state.wf(),
        !state.stopped.contains(id),
        state.inflight.contains_key(id),
        !state.inflight[id].cancelled,
        state.inflight[id].is_iso(),
        state.inflight[id].lengths().len() > 0,
        forall|j: int|
            0 <= j < state.inflight[id].packets().len() ==> !#[trigger] packet_fails(
                state.inflight[id],
                finished,
                j,
            ),
    ensures
        ({
            let td = state.inflight[id];
            let packets = td.packets();
            let result = state.reclaimed(id, finished).1;
            &&& result is Some <==> finished.contains_key(packets[packets.len() - 1].trb)
            &&& result matches Some(reclaimed) ==> {
                let told = reclaimed.outcome->Ok_0.iso_packets;
                &&& reclaimed.outcome is Ok
                &&& reclaimed.outcome->Ok_0.request_id == id
                &&& reclaimed.outcome->Ok_0.status is Completed
                &&& told.len() == td.lengths().len()
                &&& forall|i: int|
                    #![trigger told[i]]
                    0 <= i < told.len() ==> {
                        let packet = packets[i];
                        &&& told[i].requested_length == td.lengths()[i]
                        &&& told[i].status is Completed
                        &&& packet.actual matches Some(actual) ==> told[i].actual_length == actual
                        &&& packet.actual is Some ==> (packet.event matches Some(event)
                            ==> told[i].completion_code == iso_reported_code(event))
                        &&& packet.actual is None && finished.contains_key(packet.trb) ==> {
                            let event = finished[packet.trb];
                            &&& iso_actual_length(td.lengths()[i], event) matches Ok(actual)
                            &&& told[i].actual_length == actual
                            &&& event.code() matches Ok(code)
                            &&& told[i].completion_code == Some(code.code())
                        }
                        &&& packet.actual is None && !finished.contains_key(packet.trb) ==> {
                            &&& told[i].actual_length == 0
                            &&& packet.event is None ==> told[i].completion_code is None
                        }
                    }
            }
        }),
{
    let td = state.inflight[id];
    let packets = td.packets();
    let lengths = td.lengths();
    let last = packets.len() - 1;
    law_iso_ends_at_the_first_ending_packet(packets, lengths, finished);
    assert forall|j: int| 0 <= j < packets.len() implies (#[trigger] iso_ends_at(
        packets,
        finished,
        j,
    ) <==> j == last && finished.contains_key(packets[last].trb)) by {
        assert(!packet_fails(td, finished, j));
        if finished.contains_key(packets[j].trb) {
            lemma_iso_failure_is_fatal(finished[packets[j].trb], 0);
        }
    }
    if finished.contains_key(packets[last].trb) {
        assert(iso_ends_at(packets, finished, last));
        let scan = iso_scan(packets, lengths, finished, 0);
        let stop = scan.stop->0;
        assert(!packet_fails(td, finished, last));
        lemma_stop_failure_is_that_of_its_event(packets, lengths, finished, 0);
        lemma_scan_that_succeeds(packets, lengths, finished, 0);
        let seen = td.with_packets(scan.packets);
        assert forall|i: int| 0 <= i < packets.len() implies {
            &&& (#[trigger] scan.packets[i]).actual is Some
            &&& iso_packet_final(scan.packets[i], lengths[i], stop.trb, stop.event) == Ok::<
                usize,
                TransferError,
            >(scan.packets[i].actual->0)
        } by {
        }
        let completed = td_completed(seen, stop.trb, stop.event);
        assert(completed is Ok);
        assert forall|i: int| 0 <= i < packets.len() && packets[i].actual is None
            && finished.contains_key(#[trigger] packets[i].trb) implies iso_actual_length(
            lengths[i],
            finished[packets[i].trb],
        ) is Ok by {
            assert(!packet_fails(td, finished, i));
            lemma_iso_failure_is_fatal(finished[packets[i].trb], lengths[i]);
            law_iso_fatal_means_no_length(lengths[i], finished[packets[i].trb]);
        }
        let told = crate::transfer::completion_of(id, completed->Ok_0).iso_packets;
        assert forall|i: int| 0 <= i < told.len() implies {
            let packet = packets[i];
            &&& (#[trigger] told[i]).requested_length == lengths[i]
            &&& told[i].actual_length == scan.packets[i].actual->0
        } by {
        }
    }
}

/// An isochronous transfer without packets still has one TRB. It gives its result when
/// the event of that has come in, and fails for want of packets.
pub proof fn law_iso_request_without_packets_fails(
    state: EndpointState,
    id: u64,
    finished: Map<u64, TransferEvent>,
)
    requires
        state.wf(),
        !state.stopped.contains(id),
        state.inflight.contains_key(id),
        !state.inflight[id].cancelled,
        state.inflight[id].is_iso(),
        state.inflight[id].lengths().len() == 0,
    ensures
        ({
            let result = state.reclaimed(id, finished).1;
            &&& result is Some <==> finished.contains_key(state.inflight[id].packets()[0].trb)
            &&& result matches Some(reclaimed) ==> (reclaimed.outcome matches Err(err) && err
                == TransferError::Other(TransferFault::IsoPacketCount { ids: 1, packets: 0 }))
        }),
{
    let td = state.inflight[id];
    let packets = td.packets();
    law_iso_ends_at_the_first_ending_packet(packets, td.lengths(), finished);
    if finished.contains_key(packets[0].trb) {
        assert(iso_ends_at(packets, finished, 0));
        lemma_scan_length(packets, td.lengths(), finished, 0);
    } else {
        assert(!iso_ends_at(packets, finished, 0));
    }
}

proof fn lemma_scan_length(
    packets: Seq<IsoPacketTd>,
    lengths: Seq<usize>,
    finished: Map<u64, TransferEvent>,
    k: int,
)
    requires
        0 <= k,
    ensures
        iso_scan(packets, lengths, finished, k).packets.len() == packets.len(),
    decreases packets.len() - k,
{
    if k < packets.len() {
        if packets[k].actual is Some || !finished.contains_key(packets[k].trb) {
            lemma_scan_length(packets, lengths, finished, k + 1);
        } else {
            let event = finished[packets[k].trb];
            if let Ok(actual) = iso_actual_length(requested_length(lengths, k), event) {
                lemma_scan_length(
                    iso_recorded(packets, k, event, actual, iso_is_fatal(event)),
                    lengths,
                    finished,
                    k + 1,
                );
            }
        }
    }
}

proof fn lemma_scan_keeps_wf(
    packets: Seq<IsoPacketTd>,
    lengths: Seq<usize>,
    finished: Map<u64, TransferEvent>,
    k: int,
)
    requires
        0 <= k,
        iso_packets_wf(packets, lengths),
        forall|trb: u64| #[trigger]
            finished.contains_key(trb) ==> finished[trb].remaining() <= EVENT_LENGTH_MAX,
    ensures
        iso_packets_wf(iso_scan(packets, lengths, finished, k).packets, lengths),
    decreases packets.len() - k,
{
    if k < packets.len() {
        if packets[k].actual is Some || !finished.contains_key(packets[k].trb) {
            lemma_scan_keeps_wf(packets, lengths, finished, k + 1);
        } else {
            let event = finished[packets[k].trb];
            if let Ok(actual) = iso_actual_length(requested_length(lengths, k), event) {
                let fatal = iso_is_fatal(event);
                lemma_recorded_keeps_wf(packets, lengths, k, event, actual, fatal);
                lemma_scan_keeps_wf(
                    iso_recorded(packets, k, event, actual, fatal),
                    lengths,
                    finished,
                    k + 1,
                );
            }
        }
    }
}

/// The length of an isochronous transfer that succeeds is the sum of the lengths that
/// are told of its packets.
pub proof fn law_iso_total_is_the_sum_of_its_packets(
    state: EndpointState,
    id: u64,
    finished: Map<u64, TransferEvent>,
)
    requires
        state.wf(),
        !state.stopped.contains(id),
        state.inflight.contains_key(id),
        state.inflight[id].is_iso(),
        forall|trb: u64| #[trigger]
            finished.contains_key(trb) ==> finished[trb].remaining() <= EVENT_LENGTH_MAX,
    ensures
        state.reclaimed(id, finished).1 matches Some(reclaimed) ==> (
        reclaimed.outcome matches Ok(completion) ==> completion.actual_length == total(
            Seq::new(
                completion.iso_packets.len(),
                |i: int| completion.iso_packets[i].actual_length,
            ),
        )),
{
    let td = state.inflight[id];
    let scan = iso_scan(td.packets(), td.lengths(), finished, 0);
    if let Some(stop) = scan.stop {
        lemma_scan_keeps_wf(td.packets(), td.lengths(), finished, 0);
        lemma_iso_scan_keeps_trbs(td.packets(), td.lengths(), finished, 0);
        let seen = td.with_packets(scan.packets);
        assert(seen.kind.trbs() =~= td.kind.trbs());
        assert(seen.wf());
        if td_completed(seen, stop.trb, stop.event) is Ok {
            lemma_stop_event_came_in(td.packets(), td.lengths(), finished, 0);
            law_iso_completion_reports_every_packet(seen, id, stop.trb, stop.event);
        }
    }
}

proof fn lemma_stop_event_came_in(
    packets: Seq<IsoPacketTd>,
    lengths: Seq<usize>,
    finished: Map<u64, TransferEvent>,
    k: int,
)
    requires
        0 <= k,
        iso_scan(packets, lengths, finished, k).stop is Some,
    ensures
        ({
            let stop = iso_scan(packets, lengths, finished, k).stop->0;
            finished.contains_key(stop.trb) && finished[stop.trb] == stop.event
        }),
    decreases packets.len() - k,
{
    if k < packets.len() {
        if packets[k].actual is Some || !finished.contains_key(packets[k].trb) {
            lemma_stop_event_came_in(packets, lengths, finished, k + 1);
        } else {
            let event = finished[packets[k].trb];
            if let Ok(actual) = iso_actual_length(requested_length(lengths, k), event) {
                let next = iso_recorded(packets, k, event, actual, iso_is_fatal(event));
                if iso_scan(packets, lengths, finished, k) == iso_scan(
                    next,
                    lengths,
                    finished,
                    k + 1,
                ) {
                    lemma_stop_event_came_in(next, lengths, finished, k + 1);
                }
            }
        }
    }
}

// ---------------------------------------------------------------------------
// Transfers of all kinds
// ---------------------------------------------------------------------------

/// The buffer has to be shown to the CPU exactly where a transfer towards the host has
/// succeeded and moved something.
pub proof fn law_cpu_is_shown_what_came_in(
    state: EndpointState,
    id: u64,
    finished: Map<u64, TransferEvent>,
)
    requires
        state.wf(),
        !state.stopped.contains(id),
        state.inflight.contains_key(id),
    ensures
        state.reclaimed(id, finished).1 matches Some(reclaimed) ==> (reclaimed.sync_for_cpu <==> (
        reclaimed.outcome matches Ok(completion) && completion.actual_length > 0)
            && state.inflight[id].transfer.direction is In),
{
    let td = state.inflight[id];
    if td.is_iso() && !td.cancelled {
        let scan = iso_scan(td.packets(), td.lengths(), finished, 0);
        if scan.stop is Some && scan.stop->0.failure is Some {
            lemma_iso_failure_ends_in_err(td, finished);
        }
    }
}

/// An endpoint is halted by a request exactly where the request fails with a stall. A
/// request without packets is left out, since it fails for want of them whatever its
/// event. A cancelled request halts nothing.
pub proof fn law_endpoint_halts_with_a_stall(
    state: EndpointState,
    id: u64,
    finished: Map<u64, TransferEvent>,
)
    requires
        state.wf(),
        !state.stopped.contains(id),
        state.inflight.contains_key(id),
        state.inflight[id].is_iso() ==> state.inflight[id].lengths().len() > 0,
    ensures
        ({
            let (after, result) = state.reclaimed(id, finished);
            after.halted <==> state.halted || (result matches Some(reclaimed)
                && reclaimed.outcome is Err && reclaimed.outcome->Err_0 == TransferError::Stall)
        }),
{
    let td = state.inflight[id];
    if td.is_iso() && !td.cancelled {
        let scan = iso_scan(td.packets(), td.lengths(), finished, 0);
        if scan.stop is Some {
            lemma_stop_failure_is_that_of_its_event(td.packets(), td.lengths(), finished, 0);
            if scan.stop->0.failure is Some {
                lemma_iso_failure_ends_in_err(td, finished);
            } else {
                lemma_scan_that_succeeds(td.packets(), td.lengths(), finished, 0);
                let stop = scan.stop->0;
                assert forall|i: int| 0 <= i < td.packets().len() implies iso_packet_final(
                    #[trigger] scan.packets[i],
                    td.lengths()[i],
                    stop.trb,
                    stop.event,
                ) is Ok by {
                }
            }
        }
    }
}

/// Reclaiming a request changes nothing that is not its own: setup, reset, ids and
/// frames stay. A result takes the request and exactly its TRBs out; without one the
/// request stays, and so does the count. A request that was stopped or is unknown has
/// no TRBs to give back, and halts nothing.
pub proof fn law_reclaim_touches_only_its_request(
    state: EndpointState,
    id: u64,
    finished: Map<u64, TransferEvent>,
)
    requires
        state.wf(),
    ensures
        ({
            let (after, result) = state.reclaimed(id, finished);
            let known: bool = !state.stopped.contains(id) && state.inflight.contains_key(id);
            &&& after.config == state.config
            &&& after.reset_in_progress == state.reset_in_progress
            &&& after.next_request_id == state.next_request_id
            &&& after.next_iso_frame_id == state.next_iso_frame_id
            &&& known && result is Some ==> {
                &&& after.outstanding + state.inflight[id].trb_count == state.outstanding
                &&& after.inflight == state.inflight.remove(id)
                &&& forall|trb: u64| #[trigger]
                    after.routes.contains_key(trb) <==> state.routes.contains_key(trb)
                        && !state.inflight[id].kind.trbs().contains(trb)
            }
            &&& !(known && result is Some) ==> {
                &&& after.outstanding == state.outstanding
                &&& after.routes == state.routes
                &&& after.halted == state.halted
                &&& after.inflight.dom() == state.inflight.dom()
            }
            &&& state.stopped.contains(id) ==> after.inflight == state.inflight && after.stopped
                == state.stopped.remove(id)
            &&& !state.stopped.contains(id) ==> after.stopped == state.stopped
        }),
{
    let (after, result) = state.reclaimed(id, finished);
    if !state.stopped.contains(id) && state.inflight.contains_key(id) {
        let td = state.inflight[id];
        assert(state.outstanding >= td.trb_count) by {
            lemma_trbs_held_remove(state.inflight, id);
        }
        match td.kind {
            TdKindView::Normal { .. } => {},
            TdKindView::Control(control_td) => {
                let len = td.transfer.buffer_len();
                lemma_control_scan_keeps_stages(control_td, len, finished, 0);
                let scan = control_scan(control_td, len, finished, 0);
                let seen = TdView { kind: TdKindView::Control(scan.control_td), ..td };
                assert(seen.kind.trbs() =~= td.kind.trbs());
                assert(state.with_td(id, seen).inflight.remove(id) =~= state.inflight.remove(id));
            },
            TdKindView::Iso { packets } => {
                lemma_iso_scan_keeps_trbs(packets, td.lengths(), finished, 0);
                let seen = td.with_packets(iso_scan(packets, td.lengths(), finished, 0).packets);
                assert(seen.kind.trbs() =~= td.kind.trbs());
                assert(state.with_td(id, seen).inflight.remove(id) =~= state.inflight.remove(id));
            },
        }
        if result is Some {
            assert forall|trb: u64| #[trigger]
                after.routes.contains_key(trb) <==> state.routes.contains_key(trb)
                    && !td.kind.trbs().contains(trb) by {
                assert(td.kind.trbs().to_set().contains(trb) <==> td.kind.trbs().contains(trb));
            }
        } else {
            assert(after.inflight.dom() =~= state.inflight.dom());
        }
    }
}

/// Cancelling decides only what a request comes to, not when: it gives its result with
/// the same events as before.
pub proof fn law_cancelling_does_not_hasten_the_result(
    state: EndpointState,
    id: u64,
    finished: Map<u64, TransferEvent>,
)
    requires
        state.inflight.contains_key(id),
    ensures
        state.cancelled(id).reclaimed(id, finished).1 is Some <==> state.reclaimed(
            id,
            finished,
        ).1 is Some,
        state.cancelled(id).inflight[id].cancelled,
        state.cancelled(id).inflight[id].transfer == state.inflight[id].transfer,
        state.cancelled(id).inflight[id].kind == state.inflight[id].kind,
        state.cancelled(id).inflight[id].trb_count == state.inflight[id].trb_count,
        state.cancelled(id).inflight.remove(id) == state.inflight.remove(id),
        state.cancelled(id).routes == state.routes,
        state.cancelled(id).outstanding == state.outstanding,
        state.cancelled(id).stopped == state.stopped,
        state.cancelled(id).halted == state.halted,
{
    assert(state.cancelled(id).inflight.remove(id) =~= state.inflight.remove(id));
}

/// A stop leaves nothing in flight, no route and no TRB outstanding. Every request that
/// was in flight is stopped afterwards, beside those that were stopped before, and the
/// rest of the endpoint stays as it is.
pub proof fn law_stop_retires_everything(state: EndpointState, id: u64)
    ensures
        !state.retired().inflight.contains_key(id),
        !state.retired().routes.contains_key(id),
        state.retired().outstanding == 0,
        state.retired().stopped.contains(id) <==> state.stopped.contains(id)
            || state.inflight.contains_key(id),
        state.retired().config == state.config,
        state.retired().halted == state.halted,
        state.retired().reset_in_progress == state.reset_in_progress,
        state.retired().next_request_id == state.next_request_id,
        state.retired().next_iso_frame_id == state.next_iso_frame_id,
{
}

// ---------------------------------------------------------------------------
// Resets
// ---------------------------------------------------------------------------

/// A reset is started exactly where the endpoint is halted, idle and not being reset.
/// An idle endpoint that is not halted needs none, and in every other case there is no
/// room for one. Starting it is all that changes.
pub proof fn law_reset_starts_on_an_idle_halted_endpoint(
    state: EndpointState,
    pointer: EnqueuePointer,
)
    requires
        state.wf(),
    ensures
        ({
            let idle: bool = state.outstanding == 0 && state.inflight.dom() == Set::<u64>::empty();
            let asked = state.reset_asked(pointer);
            &&& asked is Continue <==> idle && state.halted && !state.reset_in_progress
            &&& idle && !state.halted ==> asked == ResetProgress::Finished(Ok(()))
            &&& !idle || (state.halted && state.reset_in_progress) ==> asked
                == ResetProgress::Finished(Err(TransferError::QueueFull))
            &&& state.after_reset_asked(pointer) == (EndpointState {
                reset_in_progress: state.reset_in_progress || asked is Continue,
                ..state
            })
        }),
{
    if state.inflight.dom() == Set::<u64>::empty() {
        assert(state.inflight =~= Map::empty());
    } else if state.inflight =~= Map::empty() {
        assert(state.inflight.dom() =~= Set::<u64>::empty());
    }
}

/// A reset that was started first issues a reset of the endpoint and then, where that
/// succeeds, moves the dequeue pointer to where the ring stood. Both name the endpoint
/// and its slot. The reply to the last command issued is what the reset comes to.
pub proof fn law_reset_issues_two_commands(
    state: EndpointState,
    pointer: EnqueuePointer,
    replies: (Result<(), TransferError>, Result<(), TransferError>),
)
    requires
        state.config.dci <= 31,
        pointer.address % 16 == 0,
        state.reset_asked(pointer) is Continue,
    ensures
        ({
            let first = state.reset_asked(pointer)->Continue_0;
            let reset = first.command_words();
            &&& reset[0] == 0 && reset[1] == 0 && reset[2] == 0
            &&& bits_of(reset[3], 0x1, 0x1_0000) == 14 * 0x400
            &&& bits_of(reset[3], 0x1_0000, 0x100) == state.config.dci
            &&& bits_of(reset[3], 0x100_0000, 0x100) == state.config.slot_id
            &&& replies.0 is Err ==> first.after(replies.0) == ResetProgress::Finished(replies.0)
            &&& replies.0 is Ok ==> {
                let second = first.after(replies.0)->Continue_0;
                let set = second.command_words();
                &&& first.after(replies.0) is Continue
                &&& pointer_in(set) == pointer.address + (if pointer.cycle_state {
                    1int
                } else {
                    0
                })
                &&& set[2] == 0
                &&& bits_of(set[3], 0x1, 0x1_0000) == 16 * 0x400
                &&& bits_of(set[3], 0x1_0000, 0x100) == state.config.dci
                &&& bits_of(set[3], 0x100_0000, 0x100) == state.config.slot_id
                &&& second.after(replies.1) == ResetProgress::Finished(replies.1)
            }
        }),
{
    law_commands_can_be_read_back(pointer, state.config.dci, state.config.slot_id);
}

// ---------------------------------------------------------------------------
// Setting up and cancelling
// ---------------------------------------------------------------------------

/// An endpoint that has not been used is idle: it is not halted and not being reset,
/// nothing is in flight, stopped or outstanding, and ids start at one and frames at
/// zero.
pub proof fn law_unused_endpoint_is_idle(config: EndpointConfig, id: u64)
    ensures
        ({
            let state = EndpointState::fresh(config);
            &&& state.config == config
            &&& !state.halted && !state.reset_in_progress
            &&& !state.inflight.contains_key(id)
            &&& !state.stopped.contains(id)
            &&& !state.routes.contains_key(id)
            &&& state.outstanding == 0
            &&& state.next_request_id == 1
            &&& state.next_iso_frame_id == 0
        }),
{
}

/// Setting up periodic transfers takes over the sizes, and an interval of at least one
/// microframe, and goes back to starting as soon as possible. Nothing else changes, so
/// that the last of two setups is the one that counts.
pub proof fn law_last_setup_counts(
    state: EndpointState,
    first: (usize, usize, u8),
    last: (usize, usize, u8),
)
    ensures
        ({
            let once = state.configured(last.0, last.1, last.2);
            &&& state.configured(first.0, first.1, first.2).configured(last.0, last.1, last.2)
                == once
            &&& once.config.max_packet_size == last.0
            &&& once.config.max_burst_size == last.1
            &&& once.config.interval >= 1
            &&& last.2 >= 1 ==> once.config.interval == last.2
            &&& last.2 == 0 ==> once.config.interval == 1
            &&& once.config.iso_start_asap
            &&& once.config.slot_id == state.config.slot_id
            &&& once.config.dci == state.config.dci
            &&& once.config.ring == state.config.ring
            &&& once.config.dma_mask == state.config.dma_mask
            &&& once.inflight == state.inflight
            &&& once.stopped == state.stopped
            &&& once.routes == state.routes
            &&& once.outstanding == state.outstanding
            &&& once.halted == state.halted
            &&& once.reset_in_progress == state.reset_in_progress
            &&& once.next_request_id == state.next_request_id
            &&& once.next_iso_frame_id == state.next_iso_frame_id
        }),
{
}

/// A request can be cancelled exactly as long as it is in flight, as often as one
/// likes: doing so again changes nothing.
pub proof fn law_cancelling_again_changes_nothing(state: EndpointState, id: u64)
    ensures
        ({
            let (after, result) = state.cancel_asked(id);
            let (again, second) = after.cancel_asked(id);
            &&& result is Ok <==> state.inflight.contains_key(id)
            &&& result matches Err(err) ==> err == TransferError::InvalidEndpoint && after == state
            &&& result is Ok ==> after.inflight[id].cancelled
            &&& again == after
            &&& second == result
        }),
{
    let after = state.cancel_asked(id).0;
    if state.inflight.contains_key(id) {
        assert(after.cancelled(id).inflight =~= after.inflight);
    }
}

// ---------------------------------------------------------------------------
// Stopping and resuming
// ---------------------------------------------------------------------------

/// The commands that stop and resume an endpoint name it and its slot. Resuming takes
/// the controller to where the ring stands, with the cycle state of the ring, and rings
/// the doorbell of the endpoint exactly where the command succeeds.
pub proof fn law_stop_and_resume_name_the_endpoint(
    state: EndpointState,
    pointer: EnqueuePointer,
    reply: Result<(), TransferError>,
)
    requires
        state.config.dci <= 31,
        pointer.address % 16 == 0,
    ensures
        ({
            let stop = state.stop_words();
            let set = state.resume_words(pointer);
            &&& stop[0] == 0 && stop[1] == 0 && stop[2] == 0 && set[2] == 0
            &&& bits_of(stop[3], 0x1, 0x1_0000) == 15 * 0x400
            &&& bits_of(stop[3], 0x1_0000, 0x100) == state.config.dci
            &&& bits_of(stop[3], 0x100_0000, 0x100) == state.config.slot_id
            &&& pointer_in(set) == pointer.address + (if pointer.cycle_state {
                1int
            } else {
                0
            })
            &&& bits_of(set[3], 0x1, 0x1_0000) == 16 * 0x400
            &&& bits_of(set[3], 0x1_0000, 0x100) == state.config.dci
            &&& bits_of(set[3], 0x100_0000, 0x100) == state.config.slot_id
            &&& state.resumed(reply) is Ok <==> reply is Ok
            &&& state.resumed(reply) matches Ok(target) ==> target == state.config.dci
            &&& state.resumed(reply) matches Err(err) ==> reply == Err::<(), TransferError>(err)
        }),
{
    law_commands_can_be_read_back(pointer, state.config.dci, state.config.slot_id);
}

// ---------------------------------------------------------------------------
// Waiting
// ---------------------------------------------------------------------------

/// A task is woken at once exactly where reclaiming would give a result whatever events
/// have come in, and told to ignore a request exactly where reclaiming never would. In
/// every other case it waits for the TRBs of the request, and as long as none of them
/// has an event there is nothing to wake it for.
pub proof fn law_task_waits_for_what_can_wake_it(
    state: EndpointState,
    id: u64,
    finished: Map<u64, TransferEvent>,
)
    ensures
        match state.waker_plan(id) {
            WakerPlanView::WakeNow => {
                &&& state.stopped.contains(id)
                &&& state.reclaimed(id, finished).1 is Some
            },
            WakerPlanView::Ignore => {
                &&& !state.stopped.contains(id) && !state.inflight.contains_key(id)
                &&& state.reclaimed(id, finished).1 is None
            },
            WakerPlanView::Register { trbs } => {
                &&& !state.stopped.contains(id) && state.inflight.contains_key(id)
                &&& trbs == state.inflight[id].kind.trbs()
                &&& (forall|trb: u64| #[trigger]
                    trbs.contains(trb) ==> !finished.contains_key(trb)) ==> state.reclaimed(
                    id,
                    finished,
                ).1 is None
            },
        },
{
    if let WakerPlanView::Register { trbs } = state.waker_plan(id) {
        if forall|trb: u64| #[trigger] trbs.contains(trb) ==> !finished.contains_key(trb) {
            crate::laws::law_no_event_changes_nothing(state, id, finished);
        }
    }
}

} // verus!
