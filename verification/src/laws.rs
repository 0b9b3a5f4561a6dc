//! What holds of an endpoint across its operations.

use vstd::prelude::*;

pub mod outcome;
pub mod submission;

use crate::completion::CompletionCode;
use crate::completion::EVENT_LENGTH_MAX;
use crate::completion::TransferEvent;
use crate::completion::iso_actual_length;
use crate::completion::iso_is_fatal;
use crate::completion::iso_length_bound;
use crate::completion::iso_reported_code;
use crate::completion::minus_or_zero;
use crate::endpoint::TransferRequestView;
use crate::error::TransferError;
use crate::reclaim::control_actual_after;
use crate::reclaim::control_scan;
use crate::reclaim::control_stage_ends;
use crate::reclaim::iso_ends_at;
use crate::reclaim::iso_recorded;
use crate::reclaim::iso_scan;
use crate::reclaim::law_iso_ends_at_the_first_ending_packet;
use crate::reclaim::requested_length;
use crate::recovery::ResetProgress;
use crate::state::EndpointConfig;
use crate::state::EndpointState;
use crate::state::ReclaimedView;
use crate::state::SubmissionView;
use crate::state::first_free_id;
use crate::state::id_after;
use crate::state::ids_between;
use crate::state::lemma_requests_within_trbs;
use crate::state::lemma_td_kind_trbs;
use crate::state::lemma_trbs_held_insert;
use crate::state::lemma_trbs_held_remove;
use crate::state::request_len;
use crate::submit::frame_id_at;
use crate::submit::iso_fits;
use crate::submit::iso_packet_fields;
use crate::submit::iso_trb_count;
use crate::submit::lemma_total_of_prefix;
use crate::submit::trbs_needed;
use crate::td::ControlTd;
use crate::td::IsoPacketTd;
use crate::td::TdKindView;
use crate::td::TdView;
use crate::td::event_verdict;
use crate::td::iso_packet_final;
use crate::td::lemma_total_within_budget;
use crate::td::td_completed;
use crate::td::total;
use crate::transfer::DmaMapping;
use crate::transfer::completion_of;
use crate::transfer::new_transfer;
use crate::trb::EnqueuePointer;

verus! {

// ---------------------------------------------------------------------------
// One result for each request
// ---------------------------------------------------------------------------

/// A request that was in flight when its endpoint was stopped is reported as
/// cancelled exactly once, whether or not it had been cancelled before and
/// whatever events have come in.
pub proof fn law_stopped_request_is_cancelled_once(
    state: EndpointState,
    id: u64,
    first: Map<u64, TransferEvent>,
    second: Map<u64, TransferEvent>,
)
    requires
        state.inflight.contains_key(id),
    ensures
        ({
            let (after, result) = state.retired().reclaimed(id, first);
            &&& result matches Some(reclaimed) && reclaimed.outcome is Err
                && reclaimed.outcome->Err_0 == TransferError::Cancelled
            &&& after.reclaimed(id, second) == (after, None::<ReclaimedView>)
        }),
        state.cancelled(id).retired() == state.retired(),
{
    assert(state.cancelled(id).inflight.dom() =~= state.inflight.dom());
    assert(state.cancelled(id).retired() =~= state.retired());
}

/// No request yields two results: once one was handed out, there is none to have.
///
/// An id that is in use and at the same time belongs to a stopped request nobody
/// has reclaimed would have two; ids have to run through their whole range to
/// come to that.
pub proof fn law_one_result_for_each_request(
    state: EndpointState,
    id: u64,
    first: Map<u64, TransferEvent>,
    second: Map<u64, TransferEvent>,
)
    requires
        !(state.stopped.contains(id) && state.inflight.contains_key(id)),
        state.reclaimed(id, first).1 is Some,
    ensures
        state.reclaimed(id, first).0.reclaimed(id, second).1 is None,
        state.reclaimed(id, first).0.reclaimed(id, second).0 == state.reclaimed(id, first).0,
{
}

/// Reclaiming one request leaves the others alone.
pub proof fn law_reclaiming_leaves_others_alone(
    state: EndpointState,
    id: u64,
    other: u64,
    finished: Map<u64, TransferEvent>,
)
    requires
        other != id,
    ensures
        ({
            let after = state.reclaimed(id, finished).0;
            &&& after.inflight.contains_key(other) == state.inflight.contains_key(other)
            &&& state.inflight.contains_key(other) ==> after.inflight[other]
                == state.inflight[other]
            &&& after.stopped.contains(other) == state.stopped.contains(other)
        }),
{
}

/// A cancelled request never succeeds: if it gives a result at all, the result is
/// its cancellation. As long as it gives none, it stays cancelled.
pub proof fn law_cancelled_request_never_succeeds(
    state: EndpointState,
    id: u64,
    finished: Map<u64, TransferEvent>,
)
    requires
        state.inflight.contains_key(id),
        state.inflight[id].cancelled,
    ensures
        match state.reclaimed(id, finished).1 {
            Some(reclaimed) => reclaimed.outcome is Err && reclaimed.outcome->Err_0
                == TransferError::Cancelled && !reclaimed.sync_for_cpu,
            None => {
                let after = state.reclaimed(id, finished).0;
                after.inflight.contains_key(id) && after.inflight[id].cancelled
            },
        },
{
}

/// A result gives the mapping of its request back, and a request without a result
/// keeps it.
pub proof fn law_mapping_is_released_with_the_result(
    state: EndpointState,
    id: u64,
    finished: Map<u64, TransferEvent>,
)
    requires
        !state.stopped.contains(id),
        state.inflight.contains_key(id),
    ensures
        match state.reclaimed(id, finished).1 {
            Some(reclaimed) => {
                &&& reclaimed.released == state.inflight[id].transfer.mapping
                &&& !state.reclaimed(id, finished).0.inflight.contains_key(id)
            },
            None => {
                let after = state.reclaimed(id, finished).0;
                &&& after.inflight.contains_key(id)
                &&& after.inflight[id].transfer == state.inflight[id].transfer
            },
        },
{
}

proof fn lemma_control_scan_without_events(
    control_td: ControlTd,
    buffer_len: usize,
    finished: Map<u64, TransferEvent>,
    k: int,
)
    requires
        0 <= k,
        forall|i: int|
            0 <= i < control_td.stages().len() ==> !finished.contains_key(
                #[trigger] control_td.stages()[i].0,
            ),
    ensures
        control_scan(control_td, buffer_len, finished, k).control_td == control_td,
        control_scan(control_td, buffer_len, finished, k).stop is None,
    decreases control_td.stages().len() - k,
{
    if k < control_td.stages().len() {
        assert(!finished.contains_key(control_td.stages()[k].0));
        lemma_control_scan_without_events(control_td, buffer_len, finished, k + 1);
    }
}

proof fn lemma_iso_scan_without_events(
    packets: Seq<IsoPacketTd>,
    lengths: Seq<usize>,
    finished: Map<u64, TransferEvent>,
    k: int,
)
    requires
        0 <= k,
        forall|i: int|
            0 <= i < packets.len() ==> !finished.contains_key(#[trigger] packets[i].trb),
    ensures
        iso_scan(packets, lengths, finished, k).packets == packets,
        iso_scan(packets, lengths, finished, k).stop is None,
    decreases packets.len() - k,
{
    if k < packets.len() {
        assert(!finished.contains_key(packets[k].trb));
        lemma_iso_scan_without_events(packets, lengths, finished, k + 1);
    }
}

/// Without an event on one of its TRBs, a request in flight stays as it is.
pub proof fn law_no_event_changes_nothing(
    state: EndpointState,
    id: u64,
    finished: Map<u64, TransferEvent>,
)
    requires
        !state.stopped.contains(id),
        forall|trb: u64|
            state.inflight.contains_key(id) && #[trigger] state.inflight[id].kind.trbs().contains(
                trb,
            ) ==> !finished.contains_key(trb),
    ensures
        state.reclaimed(id, finished) == (state, None::<ReclaimedView>),
{
    if state.inflight.contains_key(id) {
        let td = state.inflight[id];
        assert forall|i: int| 0 <= i < td.kind.trbs().len() implies !finished.contains_key(
            #[trigger] td.kind.trbs()[i],
        ) by {
            assert(td.kind.trbs().contains(td.kind.trbs()[i]));
        }
        match td.kind {
            TdKindView::Normal { completion_trb } => {
                assert(td.kind.trbs()[0] == completion_trb);
            },
            TdKindView::Control(control_td) => {
                assert forall|i: int| 0 <= i < control_td.stages().len() implies !finished.contains_key(
                    #[trigger] control_td.stages()[i].0,
                ) by {
                    assert(td.kind.trbs()[i] == control_td.stages()[i].0);
                }
                lemma_control_scan_without_events(
                    control_td,
                    td.transfer.buffer_len(),
                    finished,
                    0,
                );
                assert(state.inflight.insert(id, td) =~= state.inflight);
            },
            TdKindView::Iso { packets } => {
                assert forall|i: int| 0 <= i < packets.len() implies !finished.contains_key(
                    #[trigger] packets[i].trb,
                ) by {
                    assert(td.kind.trbs()[i] == packets[i].trb);
                }
                lemma_iso_scan_without_events(packets, td.lengths(), finished, 0);
                assert(state.inflight.insert(id, td) =~= state.inflight);
            },
        }
    }
}

// ---------------------------------------------------------------------------
// Halting and recovery
// ---------------------------------------------------------------------------

/// A stall of a bulk or interrupt transfer fails the request and halts the
/// endpoint; a stall of a cancelled one does neither.
pub proof fn law_stall_fails_and_halts(
    state: EndpointState,
    id: u64,
    finished: Map<u64, TransferEvent>,
)
    requires
        !state.stopped.contains(id),
        state.inflight.contains_key(id),
        state.inflight[id].kind matches TdKindView::Normal { completion_trb }
            && finished.contains_key(completion_trb) && finished[completion_trb].code() == Ok::<
            CompletionCode,
            u8,
        >(CompletionCode::StallError),
    ensures
        ({
            let (after, result) = state.reclaimed(id, finished);
            &&& result matches Some(reclaimed) && reclaimed.outcome is Err
                && reclaimed.outcome->Err_0 == (if state.inflight[id].cancelled {
                TransferError::Cancelled
            } else {
                TransferError::Stall
            })
            &&& after.halted == (state.halted || !state.inflight[id].cancelled)
        }),
{
}

/// Only handing out a result can halt an endpoint, and no reclaim ends a halt.
pub proof fn law_halt_comes_with_a_result(
    state: EndpointState,
    id: u64,
    finished: Map<u64, TransferEvent>,
)
    ensures
        state.halted ==> state.reclaimed(id, finished).0.halted,
        state.reclaimed(id, finished).0.halted ==> state.halted || state.reclaimed(
            id,
            finished,
        ).1 is Some,
{
}

/// While an endpoint is being reset it takes no request, and no second reset.
pub proof fn law_reset_excludes_everything_else(
    state: EndpointState,
    pointer: EnqueuePointer,
    other: EnqueuePointer,
    request: TransferRequestView,
)
    requires
        state.reset_asked(pointer) is Continue,
    ensures
        !state.after_reset_asked(pointer).admits(request),
        state.after_reset_asked(pointer).reset_asked(other) == ResetProgress::Finished(
            Err(TransferError::QueueFull),
        ),
{
}

/// A reset that is carried through ends the halt. One that fails, at whichever
/// command, leaves the endpoint halted and free for another attempt.
pub proof fn law_reset_ends_the_halt_on_success_only(
    state: EndpointState,
    pointer: EnqueuePointer,
    replies: (Result<(), TransferError>, Result<(), TransferError>),
)
    requires
        state.reset_asked(pointer) is Continue,
    ensures
        ({
            let started = state.after_reset_asked(pointer);
            let sequence = state.reset_asked(pointer)->Continue_0;
            match sequence.after(replies.0) {
                ResetProgress::Finished(result) => {
                    &&& result == replies.0
                    &&& result is Err
                    &&& started.after_reset(result) == state
                },
                ResetProgress::Continue(next) => {
                    &&& replies.0 is Ok
                    &&& next.after(replies.1) == ResetProgress::Finished(replies.1)
                    &&& replies.1 is Ok ==> started.after_reset(replies.1) == (EndpointState {
                        halted: false,
                        ..state
                    })
                    &&& replies.1 is Err ==> started.after_reset(replies.1) == state
                },
            }
        }),
{
}

// ---------------------------------------------------------------------------
// Request ids
// ---------------------------------------------------------------------------

proof fn lemma_first_free(used: Set<u64>, start: u64, next: u64, passed: Set<u64>)
    requires
        used.finite(),
        used.len() < u64::MAX,
        start >= 1,
        next >= 1,
        passed.finite(),
        passed.subset_of(used),
        passed.len() == ids_between(start, next),
        forall|id: u64| #[trigger]
            passed.contains(id) <==> id >= 1 && ids_between(start, id) < passed.len(),
    ensures
        ({
            let id = first_free_id(used, next, (used.len() - passed.len()) as nat);
            &&& id >= 1
            &&& !used.contains(id)
            &&& forall|other: u64|
                other >= 1 && ids_between(start, other) < ids_between(start, id)
                    ==> #[trigger] used.contains(other)
        }),
    decreases used.len() - passed.len(),
{
    vstd::set_lib::lemma_len_subset(passed, used);
    assert(!passed.contains(next));
    if used.contains(next) {
        let more = passed.insert(next);
        vstd::set_lib::lemma_len_subset(more, used);
        lemma_first_free(used, start, id_after(next), more);
    } else {
        assert forall|other: u64|
            other >= 1 && ids_between(start, other) < ids_between(
                start,
                next,
            ) implies #[trigger] used.contains(other) by {
            assert(passed.contains(other));
        }
    }
}

proof fn lemma_fresh_id_is_free(state: EndpointState)
    requires
        state.next_request_id >= 1,
        state.inflight.dom().finite(),
        state.inflight.len() < u64::MAX,
    ensures
        state.fresh_id() >= 1,
        !state.inflight.contains_key(state.fresh_id()),
{
    lemma_first_free(
        state.inflight.dom(),
        state.next_request_id,
        state.next_request_id,
        Set::empty(),
    );
}

/// A new request gets an id that no request in flight has, and none is passed over
/// that was free.
pub proof fn law_new_ids_are_free(state: EndpointState)
    requires
        state.wf(),
    ensures
        state.fresh_id() >= 1,
        !state.inflight.contains_key(state.fresh_id()),
        forall|other: u64|
            other >= 1 && ids_between(state.next_request_id, other) < ids_between(
                state.next_request_id,
                state.fresh_id(),
            ) ==> #[trigger] state.inflight.contains_key(other),
{
    lemma_requests_within_trbs(state.inflight);
    lemma_first_free(
        state.inflight.dom(),
        state.next_request_id,
        state.next_request_id,
        Set::empty(),
    );
    assert forall|other: u64|
        other >= 1 && ids_between(state.next_request_id, other) < ids_between(
            state.next_request_id,
            state.fresh_id(),
        ) implies #[trigger] state.inflight.contains_key(other) by {
        assert(state.inflight.dom().contains(other));
    }
}

// ---------------------------------------------------------------------------
// Routes from TRBs to requests
// ---------------------------------------------------------------------------

/// Putting a request on the ring gives every one of its TRBs a route, and takes
/// none from another request, where its addresses are not in use.
pub proof fn law_submission_keeps_routes_complete(
    state: EndpointState,
    submission: SubmissionView,
    addresses: Seq<u64>,
)
    requires
        state.every_trb_has_a_route(),
        state.has_room_for(submission),
        addresses.len() == submission.trbs.len(),
        forall|i: int|
            0 <= i < addresses.len() ==> !state.routes.contains_key(#[trigger] addresses[i]),
    ensures
        state.committed(submission, addresses).every_trb_has_a_route(),
{
    let id = submission.request_id;
    let next = state.committed(submission, addresses);
    lemma_td_kind_trbs(submission.transfer, addresses);
    assert forall|other: u64, trb: u64|
        #![trigger next.inflight[other].kind.trbs().contains(trb)]
        next.inflight.contains_key(other) && next.inflight[other].kind.trbs().contains(
            trb,
        ) implies next.routes.contains_key(trb) && next.routes[trb] == other by {
        if other == id {
            assert(addresses.to_set().contains(trb));
        } else {
            assert(state.inflight[other].kind.trbs().contains(trb));
            assert(state.routes.contains_key(trb));
            assert(!addresses.contains(trb));
        }
    }
}

/// Taking a request out leaves the routes of all other requests complete.
pub proof fn law_removal_keeps_routes_complete(state: EndpointState, id: u64)
    requires
        state.every_trb_has_a_route(),
        state.inflight.contains_key(id),
    ensures
        state.without_request(id).every_trb_has_a_route(),
{
    let next = state.without_request(id);
    let gone = state.inflight[id].kind.trbs();
    assert forall|other: u64, trb: u64|
        #![trigger next.inflight[other].kind.trbs().contains(trb)]
        next.inflight.contains_key(other) && next.inflight[other].kind.trbs().contains(
            trb,
        ) implies next.routes.contains_key(trb) && next.routes[trb] == other by {
        assert(state.inflight[other].kind.trbs().contains(trb));
        assert(state.routes[trb] == other);
        if gone.contains(trb) {
            assert(state.inflight[id].kind.trbs().contains(trb));
        }
    }
}

/// Events of a control transfer do not change its TRBs.
pub proof fn lemma_control_scan_keeps_stages(
    control_td: ControlTd,
    buffer_len: usize,
    finished: Map<u64, TransferEvent>,
    k: int,
)
    requires
        0 <= k,
    ensures
        control_scan(control_td, buffer_len, finished, k).control_td.stages()
            == control_td.stages(),
    decreases control_td.stages().len() - k,
{
    if k < control_td.stages().len() {
        let (trb, stage) = control_td.stages()[k];
        if finished.contains_key(trb) {
            let event = finished[trb];
            let next = ControlTd {
                actual: control_actual_after(control_td, stage, buffer_len, event),
                ..control_td
            };
            assert(next.stages() =~= control_td.stages());
            if !control_stage_ends(stage, event) {
                lemma_control_scan_keeps_stages(next, buffer_len, finished, k + 1);
            }
        } else {
            lemma_control_scan_keeps_stages(control_td, buffer_len, finished, k + 1);
        }
    }
}

/// Two lists of packets on the same TRBs.
pub open spec fn same_trbs(a: Seq<IsoPacketTd>, b: Seq<IsoPacketTd>) -> bool {
    &&& a.len() == b.len()
    &&& forall|i: int| 0 <= i < a.len() ==> (#[trigger] a[i]).trb == b[i].trb
}

/// Events of an isochronous transfer do not change its TRBs.
pub proof fn lemma_iso_scan_keeps_trbs(
    packets: Seq<IsoPacketTd>,
    lengths: Seq<usize>,
    finished: Map<u64, TransferEvent>,
    k: int,
)
    requires
        0 <= k,
    ensures
        same_trbs(iso_scan(packets, lengths, finished, k).packets, packets),
    decreases packets.len() - k,
{
    if k < packets.len() {
        if packets[k].actual is Some || !finished.contains_key(packets[k].trb) {
            lemma_iso_scan_keeps_trbs(packets, lengths, finished, k + 1);
        } else {
            let event = finished[packets[k].trb];
            match iso_actual_length(requested_length(lengths, k), event) {
                Ok(actual) => {
                    let next = iso_recorded(packets, k, event, actual, iso_is_fatal(event));
                    assert(same_trbs(next, packets));
                    lemma_iso_scan_keeps_trbs(next, lengths, finished, k + 1);
                },
                Err(_) => {},
            }
        }
    }
}

/// Reclaiming keeps the routes complete, whether it ends the request or not.
pub proof fn law_reclaim_keeps_routes_complete(
    state: EndpointState,
    id: u64,
    finished: Map<u64, TransferEvent>,
)
    requires
        state.every_trb_has_a_route(),
    ensures
        state.reclaimed(id, finished).0.every_trb_has_a_route(),
{
    let after = state.reclaimed(id, finished).0;
    if state.stopped.contains(id) || !state.inflight.contains_key(id) {
        assert forall|other: u64, trb: u64|
            #![trigger after.inflight[other].kind.trbs().contains(trb)]
            after.inflight.contains_key(other) && after.inflight[other].kind.trbs().contains(
                trb,
            ) implies after.routes.contains_key(trb) && after.routes[trb] == other by {
            assert(state.inflight[other].kind.trbs().contains(trb));
        }
    } else {
        let td = state.inflight[id];
        let seen = match td.kind {
            TdKindView::Normal { .. } => td,
            TdKindView::Control(control_td) => {
                let len = td.transfer.buffer_len();
                lemma_control_scan_keeps_stages(control_td, len, finished, 0);
                let scan = control_scan(control_td, len, finished, 0);
                let seen = TdView { kind: TdKindView::Control(scan.control_td), ..td };
                assert(seen.kind.trbs() =~= td.kind.trbs());
                seen
            },
            TdKindView::Iso { packets } => {
                lemma_iso_scan_keeps_trbs(packets, td.lengths(), finished, 0);
                let scan = iso_scan(packets, td.lengths(), finished, 0);
                let seen = td.with_packets(scan.packets);
                assert(seen.kind.trbs() =~= td.kind.trbs());
                seen
            },
        };
        let updated = state.with_td(id, seen);
        assert(seen.kind.trbs() == td.kind.trbs());
        assert(updated.every_trb_has_a_route()) by {
            assert forall|other: u64, trb: u64|
                #![trigger updated.inflight[other].kind.trbs().contains(trb)]
                updated.inflight.contains_key(other) && updated.inflight[other].kind.trbs().contains(
                    trb,
                ) implies updated.routes.contains_key(trb) && updated.routes[trb] == other by {
                assert(state.inflight[other].kind.trbs().contains(trb));
            }
        }
        law_removal_keeps_routes_complete(updated, id);
        if td.kind is Normal {
            assert(updated =~= state);
        }
        assert(after.inflight == updated.inflight || after.inflight == updated.without_request(
            id,
        ).inflight);
        assert forall|other: u64, trb: u64|
            #![trigger after.inflight[other].kind.trbs().contains(trb)]
            after.inflight.contains_key(other) && after.inflight[other].kind.trbs().contains(
                trb,
            ) implies after.routes.contains_key(trb) && after.routes[trb] == other by {
            if state.reclaimed(id, finished).1 is Some {
                assert(updated.without_request(id).inflight[other].kind.trbs().contains(trb));
            } else {
                assert(updated.inflight[other].kind.trbs().contains(trb));
            }
        }
    }
}

// ---------------------------------------------------------------------------
// As many routes as TRBs
// ---------------------------------------------------------------------------

/// Whether TRBs are accounted for depends on the requests, their routes and the
/// count alone.
proof fn lemma_same_trbs_accounted(state: EndpointState, other: EndpointState)
    requires
        state.trbs_accounted(),
        other.inflight == state.inflight,
        other.routes == state.routes,
        other.outstanding == state.outstanding,
    ensures
        other.trbs_accounted(),
{
    assert forall|trb: u64| #[trigger] other.routes.contains_key(trb) implies {
        &&& other.inflight.contains_key(other.routes[trb])
        &&& other.inflight[other.routes[trb]].kind.trbs().contains(trb)
    } by {
        assert(state.routes.contains_key(trb));
    }
    assert forall|id: u64, trb: u64|
        #![trigger other.inflight[id].kind.trbs().contains(trb)]
        other.inflight.contains_key(id) && other.inflight[id].kind.trbs().contains(
            trb,
        ) implies other.routes.contains_key(trb) && other.routes[trb] == id by {
        assert(state.inflight[id].kind.trbs().contains(trb));
    }
}

/// Where every TRB is accounted for, there are as many routes as TRBs outstanding.
pub proof fn law_as_many_routes_as_outstanding_trbs(state: EndpointState)
    requires
        state.trbs_accounted(),
    ensures
        state.routes.dom().finite(),
        state.routes.len() == state.outstanding,
    decreases state.inflight.dom().len(),
{
    if state.inflight.dom().len() == 0 {
        assert forall|trb: u64| !state.routes.contains_key(trb) by {
            if state.routes.contains_key(trb) {
                assert(state.inflight.contains_key(state.routes[trb]));
            }
        }
        assert(state.routes.dom() =~= Set::<u64>::empty());
    } else {
        let id = state.inflight.dom().choose();
        assert(state.inflight.contains_key(id));
        law_removal_keeps_trbs_accounted(state, id);
        let rest = state.without_request(id);
        law_as_many_routes_as_outstanding_trbs(rest);
        lemma_trbs_held_remove(state.inflight, id);
        let trbs = state.inflight[id].kind.trbs();
        trbs.unique_seq_to_set();
        assert forall|trb: u64| trbs.to_set().contains(trb) implies state.routes.contains_key(
            trb,
        ) by {
            assert(state.inflight[id].kind.trbs().contains(trb));
        }
        assert(state.routes.dom() =~= rest.routes.dom().union(trbs.to_set()));
        assert(rest.routes.dom().disjoint(trbs.to_set()));
        vstd::set_lib::lemma_set_disjoint_lens(rest.routes.dom(), trbs.to_set());
    }
}

/// The books of an endpoint agree wherever every TRB is accounted for.
pub proof fn law_accounted_trbs_mean_books_agree(state: EndpointState)
    requires
        state.wf(),
        state.trbs_accounted(),
    ensures
        state.books_agree(),
{
    law_as_many_routes_as_outstanding_trbs(state);
    assert forall|id: u64| #[trigger]
        state.inflight.contains_key(id) implies state.inflight[id].trb_count >= 1 by {
        assert(state.inflight[id].wf());
    }
}

/// An unused endpoint has every TRB accounted for.
pub proof fn law_unused_endpoint_has_trbs_accounted(config: EndpointConfig)
    ensures
        EndpointState::fresh(config).trbs_accounted(),
{
}

/// Putting a request on the ring keeps every TRB accounted for, where the ring
/// gives out addresses that are distinct and not in use.
pub proof fn law_submission_keeps_trbs_accounted(
    state: EndpointState,
    submission: SubmissionView,
    addresses: Seq<u64>,
)
    requires
        state.trbs_accounted(),
        state.has_room_for(submission),
        addresses.len() == submission.trbs.len(),
        addresses.no_duplicates(),
        forall|i: int|
            0 <= i < addresses.len() ==> !state.routes.contains_key(#[trigger] addresses[i]),
    ensures
        state.committed(submission, addresses).trbs_accounted(),
{
    let id = submission.request_id;
    let next = state.committed(submission, addresses);
    let td = next.inflight[id];
    lemma_td_kind_trbs(submission.transfer, addresses);
    lemma_trbs_held_insert(state.inflight, id, td);
    law_submission_keeps_routes_complete(state, submission, addresses);
    assert forall|other: u64| #[trigger] next.inflight.contains_key(other) implies {
        &&& next.inflight[other].trb_count == next.inflight[other].kind.trbs().len()
        &&& next.inflight[other].kind.trbs().no_duplicates()
    } by {
        if other != id {
            assert(state.inflight.contains_key(other));
        }
    }
    assert forall|trb: u64| #[trigger] next.routes.contains_key(trb) implies {
        &&& next.inflight.contains_key(next.routes[trb])
        &&& next.inflight[next.routes[trb]].kind.trbs().contains(trb)
    } by {
        if addresses.to_set().contains(trb) {
            assert(next.routes[trb] == id);
        } else {
            assert(state.routes.contains_key(trb));
        }
    }
}

/// Taking a request out keeps every TRB accounted for.
pub proof fn law_removal_keeps_trbs_accounted(state: EndpointState, id: u64)
    requires
        state.trbs_accounted(),
        state.inflight.contains_key(id),
    ensures
        state.without_request(id).trbs_accounted(),
        state.without_request(id).outstanding == state.outstanding
            - state.inflight[id].trb_count,
{
    let next = state.without_request(id);
    lemma_trbs_held_remove(state.inflight, id);
    law_removal_keeps_routes_complete(state, id);
    assert forall|other: u64| #[trigger] next.inflight.contains_key(other) implies {
        &&& next.inflight[other].trb_count == next.inflight[other].kind.trbs().len()
        &&& next.inflight[other].kind.trbs().no_duplicates()
    } by {
        assert(state.inflight.contains_key(other));
    }
    assert forall|trb: u64| #[trigger] next.routes.contains_key(trb) implies {
        &&& next.inflight.contains_key(next.routes[trb])
        &&& next.inflight[next.routes[trb]].kind.trbs().contains(trb)
    } by {
        assert(state.routes.contains_key(trb));
        assert(!state.inflight[id].kind.trbs().to_set().contains(trb));
    }
}

proof fn lemma_with_td_keeps_trbs_accounted(state: EndpointState, id: u64, td: TdView)
    requires
        state.trbs_accounted(),
        state.inflight.contains_key(id),
        td.trb_count == state.inflight[id].trb_count,
        td.kind.trbs() == state.inflight[id].kind.trbs(),
    ensures
        state.with_td(id, td).trbs_accounted(),
{
    let next = state.with_td(id, td);
    lemma_trbs_held_remove(state.inflight, id);
    lemma_trbs_held_remove(next.inflight, id);
    assert(next.inflight.remove(id) =~= state.inflight.remove(id));
    assert forall|other: u64| #[trigger] next.inflight.contains_key(other) implies {
        &&& next.inflight[other].trb_count == next.inflight[other].kind.trbs().len()
        &&& next.inflight[other].kind.trbs().no_duplicates()
    } by {
        assert(state.inflight.contains_key(other));
    }
    assert forall|trb: u64| #[trigger] next.routes.contains_key(trb) implies {
        &&& next.inflight.contains_key(next.routes[trb])
        &&& next.inflight[next.routes[trb]].kind.trbs().contains(trb)
    } by {
        assert(state.routes.contains_key(trb));
    }
    assert forall|other: u64, trb: u64|
        #![trigger next.inflight[other].kind.trbs().contains(trb)]
        next.inflight.contains_key(other) && next.inflight[other].kind.trbs().contains(
            trb,
        ) implies next.routes.contains_key(trb) && next.routes[trb] == other by {
        assert(state.inflight[other].kind.trbs().contains(trb));
    }
}

/// Reclaiming keeps every TRB accounted for, whether it ends the request or not.
pub proof fn law_reclaim_keeps_trbs_accounted(
    state: EndpointState,
    id: u64,
    finished: Map<u64, TransferEvent>,
)
    requires
        state.trbs_accounted(),
    ensures
        state.reclaimed(id, finished).0.trbs_accounted(),
{
    let after = state.reclaimed(id, finished).0;
    if !state.stopped.contains(id) && state.inflight.contains_key(id) {
        let td = state.inflight[id];
        let seen = match td.kind {
            TdKindView::Normal { .. } => td,
            TdKindView::Control(control_td) => {
                let len = td.transfer.buffer_len();
                lemma_control_scan_keeps_stages(control_td, len, finished, 0);
                let scan = control_scan(control_td, len, finished, 0);
                TdView { kind: TdKindView::Control(scan.control_td), ..td }
            },
            TdKindView::Iso { packets } => {
                lemma_iso_scan_keeps_trbs(packets, td.lengths(), finished, 0);
                td.with_packets(iso_scan(packets, td.lengths(), finished, 0).packets)
            },
        };
        assert(seen.kind.trbs() =~= td.kind.trbs());
        let updated = state.with_td(id, seen);
        lemma_with_td_keeps_trbs_accounted(state, id, seen);
        law_removal_keeps_trbs_accounted(updated, id);
        if td.kind is Normal {
            assert(updated =~= state);
        }
        if state.reclaimed(id, finished).1 is Some {
            lemma_same_trbs_accounted(updated.without_request(id), after);
        } else {
            lemma_same_trbs_accounted(updated, after);
        }
    } else {
        lemma_same_trbs_accounted(state, after);
    }
}

/// Cancelling a request, retiring all of them and resetting the endpoint keep every
/// TRB accounted for.
pub proof fn law_cancel_stop_and_reset_keep_trbs_accounted(
    state: EndpointState,
    id: u64,
    pointer: EnqueuePointer,
    result: Result<(), TransferError>,
)
    requires
        state.trbs_accounted(),
    ensures
        state.inflight.contains_key(id) ==> state.cancelled(id).trbs_accounted(),
        state.retired().trbs_accounted(),
        state.after_reset_asked(pointer).trbs_accounted(),
        state.after_reset(result).trbs_accounted(),
{
    lemma_same_trbs_accounted(state, state.after_reset_asked(pointer));
    lemma_same_trbs_accounted(state, state.after_reset(result));
    if state.inflight.contains_key(id) {
        lemma_with_td_keeps_trbs_accounted(
            state,
            id,
            TdView { cancelled: true, ..state.inflight[id] },
        );
    }
}

// ---------------------------------------------------------------------------
// Submission
// ---------------------------------------------------------------------------

/// A request and the transfer that is made of it take the same number of TRBs,
/// where the whole buffer was mapped.
pub proof fn law_request_and_transfer_need_the_same_trbs(
    request: TransferRequestView,
    mapped: Option<DmaMapping>,
)
    requires
        mapped matches Some(mapping) ==> mapping.len == request_len(request),
    ensures
        new_transfer(request.kind, request.direction, request.buffer, mapped) matches Ok(transfer)
            ==> trbs_needed(transfer.kind, transfer.buffer_len()) == trbs_needed(
            request.kind,
            request_len(request),
        ),
{
}

/// A submission has as many TRBs as were counted when it was admitted.
pub proof fn law_submission_has_the_counted_trbs(
    state: EndpointState,
    request: TransferRequestView,
    mapped: Option<DmaMapping>,
)
    requires
        mapped matches Some(mapping) ==> mapping.len == request_len(request),
    ensures
        state.submitted(request, mapped) matches Ok(submission) ==> submission.trbs.len()
            == trbs_needed(request.kind, request_len(request)),
{
}

/// Isochronous schedules continue from one transfer to the next: `a` packets and
/// then `b` packets are due when `a + b` packets would be.
pub proof fn law_frames_continue(start: u16, interval: u8, a: int, b: int)
    requires
        a >= 0,
        b >= 0,
    ensures
        frame_id_at(frame_id_at(start, interval, a), interval, b) == frame_id_at(
            start,
            interval,
            a + b,
        ),
        frame_id_at(start, interval, a) < 0x800,
{
    let x: int = start + a * interval;
    let y: int = b * interval;
    assert((a + b) * interval == a * interval + b * interval) by (nonlinear_arith);
    assert(x >= 0 && y >= 0) by (nonlinear_arith)
        requires
            x == start + a * interval,
            y == b * interval,
            a >= 0,
            b >= 0,
            start >= 0,
            interval >= 0,
    ;
    assert((x % 0x800 + y) % 0x800 == (x + y) % 0x800);
}

/// The packets of an isochronous transfer follow each other in the buffer without
/// a gap, and only the last one is allowed to interrupt.
pub proof fn law_iso_packets_are_contiguous(
    config: EndpointConfig,
    next_iso_frame_id: u16,
    bus_addr: u64,
    lengths: Seq<usize>,
    short: bool,
    k: int,
)
    requires
        iso_fits(bus_addr, lengths),
        0 <= k < iso_trb_count(lengths),
    ensures
        ({
            let fields = iso_packet_fields(
                config,
                next_iso_frame_id,
                bus_addr,
                lengths,
                short,
                k,
            );
            &&& k == 0 ==> fields.pointer == bus_addr
            &&& fields.block_event_interrupt <==> k + 1 < iso_trb_count(lengths)
            &&& k + 1 < iso_trb_count(lengths) ==> iso_packet_fields(
                config,
                next_iso_frame_id,
                bus_addr,
                lengths,
                short,
                k + 1,
            ).pointer == fields.pointer + lengths[k]
        }),
{
    assert(lengths.take(0) =~= Seq::<usize>::empty());
    if lengths.len() > 0 {
        lemma_total_of_prefix(lengths, k);
        if k + 1 < lengths.len() {
            lemma_total_of_prefix(lengths, k + 1);
        }
    }
}

/// Submitting a request and putting it on the ring adds exactly this request: it
/// gets a new id, it is in flight with the TRBs that it was put at, each of them has
/// a route to it, and no other request or route changes.
pub proof fn law_submission_adds_exactly_one_request(
    state: EndpointState,
    request: TransferRequestView,
    mapped: Option<DmaMapping>,
    addresses: Seq<u64>,
)
    requires
        state.requests_counted(),
        mapped matches Some(mapping) ==> mapping.len == request_len(request),
        state.submitted(request, mapped) matches Ok(submission) && addresses.len()
            == submission.trbs.len(),
    ensures
        ({
            let submission = state.submitted(request, mapped)->Ok_0;
            let after = state.prepared(submission).committed(submission, addresses);
            let id = submission.request_id;
            &&& id == state.fresh_id()
            &&& id >= 1
            &&& after.next_request_id == id_after(id)
            &&& !state.inflight.contains_key(id)
            &&& after.inflight == state.inflight.insert(id, after.inflight[id])
            &&& after.inflight[id].kind.trbs() == addresses
            &&& after.inflight[id].transfer.kind == request.kind
            &&& after.inflight[id].transfer.direction == request.direction
            &&& !after.inflight[id].cancelled
            &&& forall|trb: u64|
                addresses.contains(trb) ==> #[trigger] after.routes.contains_key(trb)
                    && after.routes[trb] == id
            &&& forall|trb: u64|
                !addresses.contains(trb) ==> {
                    &&& #[trigger] after.routes.contains_key(trb) == state.routes.contains_key(trb)
                    &&& state.routes.contains_key(trb) ==> after.routes[trb] == state.routes[trb]
                }
            &&& after.outstanding == state.outstanding + addresses.len()
        }),
{
    let submission = state.submitted(request, mapped)->Ok_0;
    let after = state.prepared(submission).committed(submission, addresses);
    lemma_requests_within_trbs(state.inflight);
    lemma_fresh_id_is_free(state);
    lemma_td_kind_trbs(submission.transfer, addresses);
    assert forall|trb: u64| addresses.contains(trb) implies #[trigger] after.routes.contains_key(
        trb,
    ) && after.routes[trb] == submission.request_id by {
        assert(addresses.to_set().contains(trb));
    }
    assert forall|trb: u64| !addresses.contains(trb) implies {
        &&& #[trigger] after.routes.contains_key(trb) == state.routes.contains_key(trb)
        &&& state.routes.contains_key(trb) ==> after.routes[trb] == state.routes[trb]
    } by {
        assert(!addresses.to_set().contains(trb));
    }
}

/// Submitting a request and putting it on the ring keeps the books in agreement,
/// where the ring gives out addresses that are distinct and not in use.
pub proof fn law_submission_keeps_the_books(
    state: EndpointState,
    request: TransferRequestView,
    mapped: Option<DmaMapping>,
    addresses: Seq<u64>,
)
    requires
        state.books_agree(),
        mapped matches Some(mapping) ==> mapping.len == request_len(request),
        state.submitted(request, mapped) matches Ok(submission) && addresses.len()
            == submission.trbs.len(),
        addresses.no_duplicates(),
        forall|i: int|
            0 <= i < addresses.len() ==> !state.routes.contains_key(#[trigger] addresses[i]),
    ensures
        ({
            let submission = state.submitted(request, mapped)->Ok_0;
            let after = state.prepared(submission).committed(submission, addresses);
            &&& after.books_agree()
            &&& state.trbs_accounted() ==> after.trbs_accounted()
        }),
{
    let submission = state.submitted(request, mapped)->Ok_0;
    let id = submission.request_id;
    let ready = state.prepared(submission);
    let after = ready.committed(submission, addresses);
    law_submission_adds_exactly_one_request(state, request, mapped, addresses);
    lemma_trbs_held_insert(state.inflight, id, after.inflight[id]);
    assert forall|other: u64| #[trigger]
        after.inflight.contains_key(other) implies after.inflight[other].trb_count >= 1 by {
        if other != id {
            assert(state.inflight.contains_key(other));
        }
    }
    assert forall|trb: u64| #[trigger]
        after.routes.contains_key(trb) implies after.inflight.contains_key(after.routes[trb]) by {
        if !addresses.contains(trb) {
            assert(state.routes.contains_key(trb));
        }
    }
    addresses.unique_seq_to_set();
    assert(after.routes.dom() =~= state.routes.dom().union(addresses.to_set()));
    assert forall|trb: u64| state.routes.contains_key(trb) implies !addresses.to_set().contains(
        trb,
    ) by {
        if addresses.contains(trb) {
            let i = choose|i: int| 0 <= i < addresses.len() && addresses[i] == trb;
            assert(!state.routes.contains_key(addresses[i]));
        }
    }
    assert(state.routes.dom().disjoint(addresses.to_set()));
    vstd::set_lib::lemma_set_disjoint_lens(state.routes.dom(), addresses.to_set());
    if state.trbs_accounted() {
        lemma_same_trbs_accounted(state, ready);
        law_submission_keeps_trbs_accounted(ready, submission, addresses);
    }
}

/// Taking a request out undoes putting it on the ring, where its addresses were
/// not in use.
pub proof fn law_removal_undoes_submission(
    state: EndpointState,
    submission: SubmissionView,
    addresses: Seq<u64>,
)
    requires
        state.wf(),
        state.has_room_for(submission),
        addresses.len() == submission.trbs.len(),
        forall|i: int|
            0 <= i < addresses.len() ==> !state.routes.contains_key(#[trigger] addresses[i]),
    ensures
        state.committed(submission, addresses).without_request(submission.request_id) == state,
{
    let id = submission.request_id;
    let after = state.committed(submission, addresses).without_request(id);
    lemma_td_kind_trbs(submission.transfer, addresses);
    assert(after.inflight =~= state.inflight);
    assert forall|trb: u64| state.routes.contains_key(trb) implies !addresses.to_set().contains(
        trb,
    ) by {
        if addresses.contains(trb) {
            let i = choose|i: int| 0 <= i < addresses.len() && addresses[i] == trb;
            assert(!state.routes.contains_key(addresses[i]));
        }
    }
    assert(after.routes =~= state.routes);
    assert(after =~= state);
}

// ---------------------------------------------------------------------------
// Completions
// ---------------------------------------------------------------------------

/// A bulk or interrupt transfer that succeeds reports its bytes less those that the
/// controller has left over, and leaves everything as it was before it.
pub proof fn law_successful_transfer_reports_what_was_moved(
    state: EndpointState,
    submission: SubmissionView,
    address: u64,
    finished: Map<u64, TransferEvent>,
)
    requires
        state.wf(),
        state.has_room_for(submission),
        submission.transfer.kind is Bulk || submission.transfer.kind is Interrupt,
        !state.routes.contains_key(address),
        !state.stopped.contains(submission.request_id),
        finished.contains_key(address),
        event_verdict(finished[address]) is Ok,
    ensures
        ({
            let transfer = submission.transfer;
            let (after, result) = state.committed(submission, seq![address]).reclaimed(
                submission.request_id,
                finished,
            );
            &&& after == state
            &&& result matches Some(reclaimed) && reclaimed.released == transfer.mapping
                && reclaimed.outcome is Ok && reclaimed.outcome->Ok_0.actual_length
                == minus_or_zero(
                transfer.buffer_len() as int,
                finished[address].remaining() as int,
            )
        }),
{
    law_removal_undoes_submission(state, submission, seq![address]);
    let after = state.committed(submission, seq![address]).reclaimed(
        submission.request_id,
        finished,
    ).0;
    assert(after =~= state);
}

/// The completion of an isochronous transfer has one result for each packet, in
/// order. A packet that an event was recorded for keeps the length and the raw code
/// of that event, whatever ended the transfer. The length of the transfer is the
/// sum of the lengths of its packets.
pub proof fn law_iso_completion_reports_every_packet(
    td: TdView,
    id: u64,
    event_trb: u64,
    event: TransferEvent,
)
    requires
        td.wf(),
        td.is_iso(),
        event.remaining() <= EVENT_LENGTH_MAX,
        td_completed(td, event_trb, event) is Ok,
    ensures
        ({
            let completion = completion_of(id, td_completed(td, event_trb, event)->Ok_0);
            let packets = td.packets();
            &&& completion.iso_packets.len() == td.lengths().len() == packets.len()
            &&& forall|i: int|
                #![trigger completion.iso_packets[i]]
                0 <= i < packets.len() ==> {
                    &&& completion.iso_packets[i].requested_length == td.lengths()[i]
                    &&& packets[i].actual matches Some(actual)
                        ==> completion.iso_packets[i].actual_length == actual
                    &&& packets[i].event matches Some(own)
                        ==> completion.iso_packets[i].completion_code == iso_reported_code(own)
                }
            &&& completion.actual_length == total(
                Seq::new(packets.len(), |i: int| completion.iso_packets[i].actual_length),
            )
        }),
{
    let transfer = td_completed(td, event_trb, event)->Ok_0;
    let completion = completion_of(id, transfer);
    assert(Seq::new(
        td.packets().len(),
        |i: int| completion.iso_packets[i].actual_length,
    ) =~= transfer.iso_packet_actual_lengths);
    assert forall|i: int| 0 <= i < td.packets().len() implies (
    #[trigger] transfer.iso_packet_actual_lengths[i]) <= iso_length_bound(td.lengths()[i]) by {
        let packet = td.packets()[i];
        assert(iso_packet_final(packet, td.lengths()[i], event_trb, event) is Ok);
    }
    lemma_total_within_budget(transfer.iso_packet_actual_lengths, td.lengths());
}

/// The length that a data stage reports, where its event is among those that have
/// come in.
pub open spec fn data_stage_length(td: TdView, finished: Map<u64, TransferEvent>) -> Option<int> {
    match td.kind->Control_0.data_trb {
        Some(data_trb) if finished.contains_key(data_trb) => Some(
            minus_or_zero(
                td.transfer.buffer_len() as int,
                finished[data_trb].remaining() as int,
            ),
        ),
        _ => None,
    }
}

/// A control transfer that succeeds reports what its data stage moved: what the
/// event among those at hand says, else what was recorded of an earlier one, else
/// all of it. As long as it gives no result, it records what its data stage moved
/// and keeps everything else.
pub proof fn law_control_completion_reports_the_data_stage(
    state: EndpointState,
    id: u64,
    finished: Map<u64, TransferEvent>,
)
    requires
        !state.stopped.contains(id),
        state.inflight.contains_key(id),
        state.inflight[id].wf(),
        state.inflight[id].kind is Control,
    ensures
        ({
            let td = state.inflight[id];
            let control_td = td.kind->Control_0;
            let (after, result) = state.reclaimed(id, finished);
            match result {
                Some(reclaimed) => {
                    &&& !after.inflight.contains_key(id)
                    &&& reclaimed.outcome is Ok ==> {
                        let completion = reclaimed.outcome->Ok_0;
                        &&& completion.request_id == id
                        &&& completion.actual_length == (match data_stage_length(td, finished) {
                            Some(length) => length,
                            None => match control_td.actual {
                                Some(actual) => actual as int,
                                None => td.transfer.buffer_len() as int,
                            },
                        })
                    }
                },
                None => {
                    &&& after.inflight.contains_key(id)
                    &&& after.inflight[id] == (TdView {
                        kind: TdKindView::Control(
                            ControlTd {
                                actual: match data_stage_length(td, finished) {
                                    Some(length) => Some(length as usize),
                                    None => control_td.actual,
                                },
                                ..control_td
                            },
                        ),
                        ..td
                    })
                },
            }
        }),
{
    reveal_with_fuel(control_scan, 4);
}

/// A control transfer succeeds when its status stage does and no other stage has
/// failed, unless it was cancelled.
pub proof fn law_control_succeeds_with_its_status_stage(
    state: EndpointState,
    id: u64,
    finished: Map<u64, TransferEvent>,
)
    requires
        !state.stopped.contains(id),
        state.inflight.contains_key(id),
        !state.inflight[id].cancelled,
        state.inflight[id].kind matches TdKindView::Control(control_td) && {
            &&& finished.contains_key(control_td.setup_trb) ==> event_verdict(
                finished[control_td.setup_trb],
            ) is Ok
            &&& control_td.data_trb matches Some(data_trb) ==> finished.contains_key(data_trb)
                ==> event_verdict(finished[data_trb]) is Ok
            &&& finished.contains_key(control_td.status_trb)
            &&& event_verdict(finished[control_td.status_trb]) is Ok
        },
    ensures
        state.reclaimed(id, finished).1 matches Some(reclaimed) && reclaimed.outcome is Ok,
{
    reveal_with_fuel(control_scan, 4);
}

/// The state after request `id` was tried to be reclaimed a number of times, each
/// time with the events that had come in by then.
pub open spec fn reclaimed_all(
    state: EndpointState,
    id: u64,
    tries: Seq<Map<u64, TransferEvent>>,
) -> EndpointState
    decreases tries.len(),
{
    if tries.len() == 0 {
        state
    } else {
        reclaimed_all(state, id, tries.drop_last()).reclaimed(id, tries.last()).0
    }
}

/// What the data stage of a request moved, after the last of a number of tries that
/// had its event.
pub open spec fn data_stage_length_seen(
    td: TdView,
    tries: Seq<Map<u64, TransferEvent>>,
) -> Option<int>
    decreases tries.len(),
{
    if tries.len() == 0 {
        None
    } else {
        match data_stage_length(td, tries.last()) {
            Some(length) => Some(length),
            None => data_stage_length_seen(td, tries.drop_last()),
        }
    }
}

proof fn lemma_control_request_after_tries(
    state: EndpointState,
    id: u64,
    tries: Seq<Map<u64, TransferEvent>>,
)
    requires
        !state.stopped.contains(id),
        state.inflight.contains_key(id),
        state.inflight[id].wf(),
        state.inflight[id].kind matches TdKindView::Control(control_td)
            && control_td.actual is None,
        reclaimed_all(state, id, tries).inflight.contains_key(id),
    ensures
        ({
            let td = state.inflight[id];
            let after = reclaimed_all(state, id, tries);
            &&& !after.stopped.contains(id)
            &&& after.inflight[id] == (TdView {
                kind: TdKindView::Control(
                    ControlTd {
                        actual: match data_stage_length_seen(td, tries) {
                            Some(length) => Some(length as usize),
                            None => None,
                        },
                        ..td.kind->Control_0
                    },
                ),
                ..td
            })
        }),
        data_stage_length_seen(state.inflight[id], tries) matches Some(length) ==> 0 <= length
            <= usize::MAX,
    decreases tries.len(),
{
    if tries.len() > 0 {
        let before = reclaimed_all(state, id, tries.drop_last());
        assert(before.inflight.contains_key(id));
        lemma_control_request_after_tries(state, id, tries.drop_last());
        assert(before.inflight[id].kind.trbs() =~= state.inflight[id].kind.trbs()) by {
            assert(before.inflight[id].kind->Control_0.stages()
                =~= state.inflight[id].kind->Control_0.stages());
        }
        assert(before.inflight[id].wf());
        law_control_completion_reports_the_data_stage(before, id, tries.last());
    }
}

/// A control transfer of which nothing was known reports, when it succeeds, what
/// its data stage moved, whichever of the tries to reclaim it brought the event of
/// that stage. Where none did, it reports all of its bytes.
pub proof fn law_control_completion_remembers_the_data_stage(
    state: EndpointState,
    id: u64,
    tries: Seq<Map<u64, TransferEvent>>,
    finished: Map<u64, TransferEvent>,
)
    requires
        !state.stopped.contains(id),
        state.inflight.contains_key(id),
        state.inflight[id].wf(),
        state.inflight[id].kind matches TdKindView::Control(control_td)
            && control_td.actual is None,
        reclaimed_all(state, id, tries).inflight.contains_key(id),
    ensures
        reclaimed_all(state, id, tries).reclaimed(id, finished).1 matches Some(reclaimed)
            ==> reclaimed.outcome is Ok ==> {
            &&& reclaimed.outcome->Ok_0.request_id == id
            &&& reclaimed.outcome->Ok_0.actual_length == (match data_stage_length_seen(
                state.inflight[id],
                tries.push(finished),
            ) {
                Some(length) => length,
                None => state.inflight[id].transfer.buffer_len() as int,
            })
        },
{
    let before = reclaimed_all(state, id, tries);
    lemma_control_request_after_tries(state, id, tries);
    assert(before.inflight[id].kind.trbs() =~= state.inflight[id].kind.trbs()) by {
        assert(before.inflight[id].kind->Control_0.stages()
            =~= state.inflight[id].kind->Control_0.stages());
    }
    assert(before.inflight[id].wf());
    assert(tries.push(finished).drop_last() =~= tries);
    law_control_completion_reports_the_data_stage(before, id, finished);
}

/// An isochronous request in flight has its last packet still to come. With events
/// that end only their packets, it gives its result exactly when the event of the
/// last packet has come in.
pub proof fn law_iso_request_ends_with_its_last_packet(
    state: EndpointState,
    id: u64,
    finished: Map<u64, TransferEvent>,
)
    requires
        state.wf(),
        !state.stopped.contains(id),
        state.inflight.contains_key(id),
        state.inflight[id].is_iso(),
        forall|i: int|
            0 <= i < state.inflight[id].packets().len() && (
            #[trigger] state.inflight[id].packets()[i]).actual is None && finished.contains_key(
                state.inflight[id].packets()[i].trb,
            ) ==> !iso_is_fatal(finished[state.inflight[id].packets()[i].trb]),
    ensures
        state.inflight[id].packets().last().actual is None,
        state.reclaimed(id, finished).1 is Some <==> finished.contains_key(
            state.inflight[id].packets().last().trb,
        ),
{
    let td = state.inflight[id];
    let packets = td.packets();
    let last = packets.len() - 1;
    law_iso_ends_at_the_first_ending_packet(packets, td.lengths(), finished);
    if finished.contains_key(packets.last().trb) {
        assert(iso_ends_at(packets, finished, last));
    } else {
        assert forall|i: int| 0 <= i < packets.len() implies !#[trigger] iso_ends_at(
            packets,
            finished,
            i,
        ) by {
            assert(packets[i].actual is None && finished.contains_key(packets[i].trb)
                ==> !iso_is_fatal(finished[packets[i].trb]));
        }
    }
}

} // verus!
