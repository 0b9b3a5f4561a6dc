//! The state of an xHCI endpoint as a mathematical value, and what each event
//! in the life of a request makes of it.

use vstd::prelude::*;

use crate::completion::CompletionCode;
use crate::completion::TransferEvent;
use crate::completion::minus_or_zero;
use crate::endpoint::TransferCompletionView;
use crate::endpoint::TransferKindView;
use crate::endpoint::TransferRequestView;
use crate::error::TransferError;
use crate::error::TransferFault;
use crate::reclaim::control_scan;
use crate::reclaim::iso_scan;
use crate::submit::frame_after;
use crate::submit::transfer_fits;
use crate::submit::transfer_words;
use crate::submit::trbs_needed;
use crate::td::ControlTd;
use crate::td::IsoPacketTd;
use crate::td::TdKindView;
use crate::td::TdView;
use crate::td::needs_cpu_sync;
use crate::td::td_completed;
use crate::transfer::DmaMapping;
use crate::transfer::TransferView;
use crate::transfer::completion_of;
use crate::transfer::new_transfer;

verus! {

/// A transfer ring: where it starts on the bus, and how many TRBs it has room for.
#[derive(Clone, Copy, Debug, PartialEq, Eq, Structural)]
pub struct SendRing {
    pub bus_addr: u64,
    pub usable_capacity: usize,
}

/// What an endpoint is set up with.
#[derive(Clone, Copy, Debug, PartialEq, Eq, Structural)]
pub struct EndpointConfig {
    pub slot_id: u8,
    pub dci: u8,
    pub ring: SendRing,
    /// Highest bus address that the controller can reach.
    pub dma_mask: u64,
    pub max_packet_size: usize,
    pub max_burst_size: usize,
    pub interval: u8,
    pub iso_start_asap: bool,
}

/// Model of an endpoint.
#[verifier::ext_equal]
pub struct EndpointState {
    pub config: EndpointConfig,
    /// The device has stalled the endpoint.
    pub halted: bool,
    pub reset_in_progress: bool,
    pub next_request_id: u64,
    /// The requests that the controller works on.
    pub inflight: Map<u64, TdView>,
    /// The requests that were retired by a stop and not reclaimed yet.
    pub stopped: Set<u64>,
    /// The request that each TRB belongs to.
    pub routes: Map<u64, u64>,
    /// How many TRBs the requests in flight hold.
    pub outstanding: usize,
    pub next_iso_frame_id: u16,
}

/// How many TRBs a set of requests holds, all together.
pub open spec fn trbs_held(requests: Map<u64, TdView>) -> nat
    decreases requests.dom().len(),
{
    if requests.dom().finite() && requests.dom().len() > 0 {
        let id = requests.dom().choose();
        requests[id].trb_count as nat + trbs_held(requests.remove(id))
    } else {
        0
    }
}

/// Taking one request out takes exactly its TRBs out.
pub proof fn lemma_trbs_held_remove(requests: Map<u64, TdView>, id: u64)
    requires
        requests.dom().finite(),
        requests.contains_key(id),
    ensures
        trbs_held(requests) == requests[id].trb_count as nat + trbs_held(requests.remove(id)),
    decreases requests.dom().len(),
{
    let first = requests.dom().choose();
    if first != id {
        lemma_trbs_held_remove(requests.remove(first), id);
        assert(requests.remove(id).dom().contains(first));
        lemma_trbs_held_remove(requests.remove(id), first);
        assert(requests.remove(id).remove(first) =~= requests.remove(first).remove(id));
    }
}

/// Adding one request adds exactly its TRBs.
pub proof fn lemma_trbs_held_insert(requests: Map<u64, TdView>, id: u64, td: TdView)
    requires
        requests.dom().finite(),
        !requests.contains_key(id),
    ensures
        trbs_held(requests.insert(id, td)) == td.trb_count as nat + trbs_held(requests),
{
    let more = requests.insert(id, td);
    lemma_trbs_held_remove(more, id);
    assert(more.remove(id) =~= requests);
}

/// Every request holds at least one TRB, so there are no more requests than TRBs.
pub proof fn lemma_requests_within_trbs(requests: Map<u64, TdView>)
    requires
        requests.dom().finite(),
        forall|id: u64| #[trigger] requests.contains_key(id) ==> requests[id].trb_count >= 1,
    ensures
        requests.len() <= trbs_held(requests),
    decreases requests.dom().len(),
{
    if requests.dom().len() > 0 {
        let id = requests.dom().choose();
        assert(requests.contains_key(id));
        assert forall|other: u64| #[trigger]
            requests.remove(id).contains_key(other) implies requests.remove(
            id,
        )[other].trb_count >= 1 by {
            assert(requests.contains_key(other));
        }
        lemma_requests_within_trbs(requests.remove(id));
    }
}

/// The request id that follows `id`: zero is never used.
pub open spec fn id_after(id: u64) -> u64 {
    if id == u64::MAX {
        1
    } else {
        (id + 1) as u64
    }
}

/// The first id from `next` on that is not in use, looking at no more than
/// `tries` ids in use.
pub open spec fn first_free_id(used: Set<u64>, next: u64, tries: nat) -> u64
    decreases tries,
{
    if tries == 0 || !used.contains(next) {
        next
    } else {
        first_free_id(used, id_after(next), (tries - 1) as nat)
    }
}

/// How many steps lead from one id to another.
pub open spec fn ids_between(from: u64, to: u64) -> int {
    if to >= from {
        to - from
    } else {
        to - from + u64::MAX
    }
}

/// How many TRBs a ring takes. One place is kept free, so that a full ring can be
/// told from an empty one.
pub open spec fn ring_limit(usable_capacity: usize) -> int {
    minus_or_zero(usable_capacity as int, 1)
}

/// What reclaiming a request hands back.
pub struct ReclaimedView {
    pub outcome: Result<TransferCompletionView, TransferError>,
    /// The buffer has to be made visible to the CPU before it is read.
    pub sync_for_cpu: bool,
    /// The mapping that is no longer needed.
    pub released: Option<DmaMapping>,
}

/// What a task that waits for a request has to do.
#[verifier::ext_equal]
pub enum WakerPlanView {
    WakeNow,
    Ignore,
    Register { trbs: Seq<u64> },
}

/// A request that is ready to be put on the ring.
#[verifier::ext_equal]
pub struct SubmissionView {
    pub request_id: u64,
    pub transfer: TransferView,
    /// The TRBs, in ring order.
    pub trbs: Seq<Seq<u32>>,
}

/// The TD of a transfer whose TRBs were put at `addresses`.
pub open spec fn td_kind_at(transfer: TransferView, addresses: Seq<u64>) -> TdKindView {
    match transfer.kind {
        TransferKindView::Control(_) => TdKindView::Control(
            ControlTd {
                setup_trb: addresses[0],
                data_trb: if transfer.buffer_len() > 0 {
                    Some(addresses[1])
                } else {
                    None
                },
                status_trb: addresses.last(),
                requested: transfer.buffer_len(),
                actual: None,
            },
        ),
        TransferKindView::Bulk => TdKindView::Normal { completion_trb: addresses[0] },
        TransferKindView::Interrupt => TdKindView::Normal { completion_trb: addresses[0] },
        TransferKindView::Isochronous { .. } => TdKindView::Iso {
            packets: Seq::new(
                addresses.len(),
                |i: int|
                    IsoPacketTd {
                        trb: addresses[i],
                        final_packet: i == addresses.len() - 1,
                        event: None,
                        actual: None,
                    },
            ),
        },
    }
}

/// Whether a mapped buffer reaches beyond what the controller can address.
pub open spec fn beyond_mask(transfer: TransferView, dma_mask: u64) -> bool {
    transfer.buffer_len() > 0 && (transfer.dma_addr() > dma_mask || transfer.dma_addr()
        + transfer.buffer_len() > dma_mask)
}

/// The bytes that a request wants to move.
pub open spec fn request_len(request: TransferRequestView) -> usize {
    match request.buffer {
        Some(buffer) => buffer.len,
        None => 0,
    }
}

impl EndpointState {
    /// An endpoint that has not been used.
    pub open spec fn fresh(config: EndpointConfig) -> EndpointState {
        EndpointState {
            config,
            halted: false,
            reset_in_progress: false,
            next_request_id: 1,
            inflight: Map::empty(),
            stopped: Set::empty(),
            routes: Map::empty(),
            outstanding: 0,
            next_iso_frame_id: 0,
        }
    }

    /// What an endpoint keeps to, apart from how far its requests have come.
    pub open spec fn consistent(self) -> bool {
        &&& self.next_request_id >= 1
        &&& self.config.interval >= 1
        &&& self.next_iso_frame_id < 0x800
        &&& self.inflight.dom().finite()
        &&& self.stopped.finite()
        &&& forall|id: u64| #[trigger]
            self.inflight.contains_key(id) ==> id >= 1 && self.inflight[id].wf()
        &&& self.outstanding == trbs_held(self.inflight)
        &&& self.outstanding <= ring_limit(self.config.ring.usable_capacity)
        &&& self.routes_lead_to_requests()
        &&& self.reset_in_progress ==> self.halted && self.inflight =~= Map::empty()
    }

    /// The invariant of an endpoint.
    pub open spec fn wf(self) -> bool {
        &&& self.consistent()
        &&& forall|id: u64| #[trigger]
            self.inflight.contains_key(id) ==> self.inflight[id].unfinished()
    }

    /// The invariant of an endpoint that is about to take request `id` out.
    pub open spec fn wf_but_for(self, id: u64) -> bool {
        &&& self.consistent()
        &&& forall|other: u64| #[trigger]
            self.inflight.contains_key(other) && other != id ==> self.inflight[other].unfinished()
    }

    /// Every route leads from a TRB to a request in flight that holds it.
    pub open spec fn routes_lead_to_requests(self) -> bool {
        forall|trb: u64| #[trigger]
            self.routes.contains_key(trb) ==> {
                &&& self.inflight.contains_key(self.routes[trb])
                &&& self.inflight[self.routes[trb]].kind.trbs().contains(trb)
            }
    }

    /// Every TRB of a request in flight has a route to it.
    pub open spec fn every_trb_has_a_route(self) -> bool {
        forall|id: u64, trb: u64|
            #![trigger self.inflight[id].kind.trbs().contains(trb)]
            self.inflight.contains_key(id) && self.inflight[id].kind.trbs().contains(trb)
                ==> self.routes.contains_key(trb) && self.routes[trb] == id
    }

    /// Whether the count of TRBs is that of the requests in flight.
    pub open spec fn requests_counted(self) -> bool {
        &&& self.next_request_id >= 1
        &&& self.inflight.dom().finite()
        &&& forall|id: u64| #[trigger]
            self.inflight.contains_key(id) ==> self.inflight[id].trb_count >= 1
        &&& self.outstanding == trbs_held(self.inflight)
    }

    /// Whether the books of an endpoint agree: the TRBs that are outstanding, those
    /// that the requests in flight hold, and the routes are equally many, and every
    /// route leads to a request in flight.
    pub open spec fn books_agree(self) -> bool {
        &&& self.requests_counted()
        &&& self.routes.dom().finite()
        &&& self.routes.len() == self.outstanding
        &&& forall|trb: u64| #[trigger]
            self.routes.contains_key(trb) ==> self.inflight.contains_key(self.routes[trb])
    }

    /// Whether the TRBs in use, the requests that hold them and the routes between
    /// them agree: every TRB is held once, and has one route to its holder.
    pub open spec fn trbs_accounted(self) -> bool {
        &&& self.inflight.dom().finite()
        &&& self.outstanding == trbs_held(self.inflight)
        &&& forall|id: u64| #[trigger]
            self.inflight.contains_key(id) ==> {
                &&& self.inflight[id].trb_count == self.inflight[id].kind.trbs().len()
                &&& self.inflight[id].kind.trbs().no_duplicates()
            }
        &&& self.routes_lead_to_requests()
        &&& self.every_trb_has_a_route()
    }

    /// The id that the next request gets: the first from the next one on that no
    /// request in flight has.
    pub open spec fn fresh_id(self) -> u64 {
        first_free_id(self.inflight.dom(), self.next_request_id, self.inflight.dom().len())
    }

    /// Whether the endpoint takes a request now: not while it is being reset, and
    /// not without room for all TRBs of the request.
    pub open spec fn admits(self, request: TransferRequestView) -> bool {
        &&& !self.reset_in_progress
        &&& self.outstanding + trbs_needed(request.kind, request_len(request)) <= ring_limit(
            self.config.ring.usable_capacity,
        )
    }

    /// What submitting a request comes to, given what became of its mapping.
    pub open spec fn submitted(
        self,
        request: TransferRequestView,
        mapped: Option<DmaMapping>,
    ) -> Result<SubmissionView, TransferError> {
        if !self.admits(request) {
            Err(TransferError::QueueFull)
        } else {
            match new_transfer(request.kind, request.direction, request.buffer, mapped) {
                Err(err) => Err(err),
                Ok(transfer) => if beyond_mask(transfer, self.config.dma_mask) {
                    Err(
                        TransferError::Other(
                            TransferFault::DmaMaskExceeded {
                                start: transfer.dma_addr(),
                                end: (transfer.dma_addr() + transfer.buffer_len()) as u64,
                                mask: self.config.dma_mask,
                            },
                        ),
                    )
                } else {
                    Ok(
                        SubmissionView {
                            request_id: self.fresh_id(),
                            transfer,
                            trbs: transfer_words(self.config, self.next_iso_frame_id, transfer),
                        },
                    )
                },
            }
        }
    }

    /// Whether the numbers of a submission fit the machine: the end of the mapped
    /// buffer, the lengths and addresses in the TRBs, and the total of the lengths
    /// that may be reported. Only numbers that submitting it would use matter.
    pub open spec fn submission_fits(
        self,
        request: TransferRequestView,
        mapped: Option<DmaMapping>,
    ) -> bool {
        self.admits(request) ==> (new_transfer(
            request.kind,
            request.direction,
            request.buffer,
            mapped,
        ) matches Ok(transfer) ==> {
            &&& transfer.dma_addr() + transfer.buffer_len() <= u64::MAX
            &&& beyond_mask(transfer, self.config.dma_mask) || transfer_fits(transfer)
        })
    }

    /// The state after a submission was made ready: its id and its frames are taken.
    pub open spec fn prepared(self, submission: SubmissionView) -> EndpointState {
        EndpointState {
            next_request_id: id_after(submission.request_id),
            next_iso_frame_id: frame_after(
                self.config,
                self.next_iso_frame_id,
                submission.transfer,
            ),
            ..self
        }
    }

    /// Whether a submission has an id of its own, and room on the ring.
    pub open spec fn has_room_for(self, submission: SubmissionView) -> bool {
        let transfer = submission.transfer;
        let count = trbs_needed(transfer.kind, transfer.buffer_len());
        &&& !self.reset_in_progress
        &&& submission.request_id >= 1
        &&& !self.inflight.contains_key(submission.request_id)
        &&& submission.trbs.len() == count
        &&& self.outstanding + count <= ring_limit(self.config.ring.usable_capacity)
    }

    /// Whether a submission can be put on the ring.
    pub open spec fn can_commit(self, submission: SubmissionView) -> bool {
        &&& self.has_room_for(submission)
        &&& transfer_fits(submission.transfer)
    }

    /// The state after the TRBs of a submission were put at `addresses`.
    pub open spec fn committed(
        self,
        submission: SubmissionView,
        addresses: Seq<u64>,
    ) -> EndpointState {
        EndpointState {
            inflight: self.inflight.insert(
                submission.request_id,
                TdView {
                    transfer: submission.transfer,
                    kind: td_kind_at(submission.transfer, addresses),
                    trb_count: addresses.len() as usize,
                    cancelled: false,
                },
            ),
            routes: self.routes.union_prefer_right(
                addresses.to_set().mk_map(|trb: u64| submission.request_id),
            ),
            outstanding: (self.outstanding + addresses.len()) as usize,
            ..self
        }
    }

    /// The state in which request `id` is known to have come to `td`.
    pub open spec fn with_td(self, id: u64, td: TdView) -> EndpointState {
        EndpointState { inflight: self.inflight.insert(id, td), ..self }
    }

    /// The state without request `id`, its TRBs and their routes.
    pub open spec fn without_request(self, id: u64) -> EndpointState {
        let td = self.inflight[id];
        EndpointState {
            inflight: self.inflight.remove(id),
            routes: self.routes.remove_keys(td.kind.trbs().to_set()),
            outstanding: minus_or_zero(
                self.outstanding as int,
                td.trb_count as int,
            ) as usize,
            ..self
        }
    }

    /// The state after `event` has ended request `id`. A stall halts the endpoint,
    /// unless the request was cancelled.
    pub open spec fn after_completion(self, id: u64, event: TransferEvent) -> EndpointState {
        EndpointState {
            halted: self.halted || (!self.inflight[id].cancelled && event.code() == Ok::<
                CompletionCode,
                u8,
            >(CompletionCode::StallError)),
            ..self.without_request(id)
        }
    }

    /// What is handed back when `event` on `trb` ends request `id`. `failure` takes
    /// the place of a success.
    pub open spec fn ended_by(
        self,
        id: u64,
        trb: u64,
        event: TransferEvent,
        failure: Option<TransferError>,
    ) -> ReclaimedView {
        let td = self.inflight[id];
        let completed = td_completed(td, trb, event);
        ReclaimedView {
            outcome: match completed {
                Ok(transfer) => match failure {
                    Some(err) => Err(err),
                    None => Ok(completion_of(id, transfer)),
                },
                Err(err) => Err(err),
            },
            sync_for_cpu: needs_cpu_sync(completed),
            released: td.transfer.mapping,
        }
    }

    /// What reclaiming request `id` comes to, given the events that have come in.
    ///
    /// A request that a stop has retired gives its cancellation once. A request in
    /// flight is looked through for the event that ends it: without one it stays in
    /// flight, with what was learned of it.
    pub open spec fn reclaimed(self, id: u64, finished: Map<u64, TransferEvent>) -> (
        EndpointState,
        Option<ReclaimedView>,
    ) {
        if self.stopped.contains(id) {
            (
                EndpointState { stopped: self.stopped.remove(id), ..self },
                Some(
                    ReclaimedView {
                        outcome: Err(TransferError::Cancelled),
                        sync_for_cpu: false,
                        released: None,
                    },
                ),
            )
        } else if !self.inflight.contains_key(id) {
            (self, None)
        } else {
            let td = self.inflight[id];
            match td.kind {
                TdKindView::Normal { completion_trb } => {
                    if finished.contains_key(completion_trb) {
                        let event = finished[completion_trb];
                        (
                            self.after_completion(id, event),
                            Some(self.ended_by(id, completion_trb, event, None)),
                        )
                    } else {
                        (self, None)
                    }
                },
                TdKindView::Control(control_td) => {
                    let scan = control_scan(control_td, td.transfer.buffer_len(), finished, 0);
                    let seen = self.with_td(
                        id,
                        TdView { kind: TdKindView::Control(scan.control_td), ..td },
                    );
                    match scan.stop {
                        Some((trb, event)) => (
                            seen.after_completion(id, event),
                            Some(seen.ended_by(id, trb, event, None)),
                        ),
                        None => (seen, None),
                    }
                },
                TdKindView::Iso { packets } => {
                    let scan = iso_scan(packets, td.lengths(), finished, 0);
                    let seen = self.with_td(id, td.with_packets(scan.packets));
                    match scan.stop {
                        Some(stop) => (
                            seen.after_completion(id, stop.event),
                            Some(seen.ended_by(id, stop.trb, stop.event, stop.failure)),
                        ),
                        None => (seen, None),
                    }
                },
            }
        }
    }

    /// The state after request `id` was marked as cancelled. It stays in flight
    /// until its events come in or the endpoint is stopped.
    pub open spec fn cancelled(self, id: u64) -> EndpointState {
        self.with_td(id, TdView { cancelled: true, ..self.inflight[id] })
    }

    /// What a task that waits for request `id` has to do.
    pub open spec fn waker_plan(self, id: u64) -> WakerPlanView {
        if self.stopped.contains(id) {
            WakerPlanView::WakeNow
        } else if self.inflight.contains_key(id) {
            WakerPlanView::Register { trbs: self.inflight[id].kind.trbs() }
        } else {
            WakerPlanView::Ignore
        }
    }

    /// What asking to cancel request `id` comes to, and the state after it.
    pub open spec fn cancel_asked(self, id: u64) -> (EndpointState, Result<(), TransferError>) {
        if self.inflight.contains_key(id) {
            (self.cancelled(id), Ok(()))
        } else {
            (self, Err(TransferError::InvalidEndpoint))
        }
    }

    /// The state after periodic transfers were set up. An interval of zero counts as
    /// one.
    pub open spec fn configured(
        self,
        max_packet_size: usize,
        max_burst_size: usize,
        interval: u8,
    ) -> EndpointState {
        EndpointState {
            config: EndpointConfig {
                max_packet_size,
                max_burst_size,
                interval: if interval == 0 {
                    1
                } else {
                    interval
                },
                iso_start_asap: true,
                ..self.config
            },
            ..self
        }
    }

    /// The state after a stop has retired everything in flight.
    pub open spec fn retired(self) -> EndpointState {
        EndpointState {
            inflight: Map::empty(),
            routes: Map::empty(),
            outstanding: 0,
            stopped: self.stopped.union(self.inflight.dom()),
            ..self
        }
    }
}

/// The TRBs of a TD are those that it was put at.
pub proof fn lemma_td_kind_trbs(transfer: TransferView, addresses: Seq<u64>)
    requires
        addresses.len() == trbs_needed(transfer.kind, transfer.buffer_len()),
    ensures
        td_kind_at(transfer, addresses).trbs() == addresses,
{
    assert(td_kind_at(transfer, addresses).trbs() =~= addresses);
}

/// Putting a request on the ring keeps the invariant.
pub proof fn lemma_committed_wf(
    state: EndpointState,
    submission: SubmissionView,
    addresses: Seq<u64>,
)
    requires
        state.wf(),
        state.can_commit(submission),
        addresses.len() == submission.trbs.len(),
    ensures
        state.committed(submission, addresses).wf(),
{
    let id = submission.request_id;
    let next = state.committed(submission, addresses);
    let td = next.inflight[id];
    lemma_trbs_held_insert(state.inflight, id, td);
    lemma_td_kind_trbs(submission.transfer, addresses);
    assert(td.wf());
    assert forall|other: u64| #[trigger] next.inflight.contains_key(other) implies other >= 1
        && next.inflight[other].wf() by {
        if other != id {
            assert(state.inflight.contains_key(other));
        }
    }
    assert forall|other: u64| #[trigger]
        next.inflight.contains_key(other) implies next.inflight[other].unfinished() by {
        if other != id {
            assert(state.inflight.contains_key(other));
        }
    }
    assert forall|trb: u64| #[trigger] next.routes.contains_key(trb) implies {
        &&& next.inflight.contains_key(next.routes[trb])
        &&& next.inflight[next.routes[trb]].kind.trbs().contains(trb)
    } by {
        if addresses.to_set().contains(trb) {
            assert(next.routes[trb] == id);
        } else {
            assert(state.routes.contains_key(trb));
        }
    }
}

/// Taking a request out keeps the invariant.
pub proof fn lemma_without_request_wf(state: EndpointState, id: u64)
    requires
        state.wf_but_for(id),
        state.inflight.contains_key(id),
    ensures
        state.without_request(id).wf(),
        state.outstanding >= state.inflight[id].trb_count,
{
    lemma_trbs_held_remove(state.inflight, id);
    let next = state.without_request(id);
    assert forall|other: u64| #[trigger] next.inflight.contains_key(other) implies other >= 1
        && next.inflight[other].wf() by {
        assert(state.inflight.contains_key(other));
    }
    assert forall|other: u64| #[trigger]
        next.inflight.contains_key(other) implies next.inflight[other].unfinished() by {
        assert(state.inflight.contains_key(other));
    }
    assert forall|trb: u64| #[trigger] next.routes.contains_key(trb) implies {
        &&& next.inflight.contains_key(next.routes[trb])
        &&& next.inflight[next.routes[trb]].kind.trbs().contains(trb)
    } by {
        assert(state.routes.contains_key(trb));
        let td = state.inflight[id];
        assert(!td.kind.trbs().to_set().contains(trb));
        assert(td.kind.trbs().to_set().contains(trb) <==> td.kind.trbs().contains(trb));
    }
}

/// Learning more of a request keeps the invariant.
pub proof fn lemma_with_td_wf(state: EndpointState, id: u64, td: TdView)
    requires
        state.wf(),
        state.inflight.contains_key(id),
        td.wf(),
        td.kind.trbs() == state.inflight[id].kind.trbs(),
    ensures
        state.with_td(id, td).wf_but_for(id),
        td.unfinished() ==> state.with_td(id, td).wf(),
{
    let next = state.with_td(id, td);
    lemma_trbs_held_remove(state.inflight, id);
    lemma_trbs_held_remove(next.inflight, id);
    assert(next.inflight.remove(id) =~= state.inflight.remove(id));
    assert(state.inflight[id].wf());
    assert forall|other: u64| #[trigger] next.inflight.contains_key(other) implies other >= 1
        && next.inflight[other].wf() by {
        assert(state.inflight.contains_key(other));
    }
    assert forall|other: u64| #[trigger]
        next.inflight.contains_key(other) && other
            != id implies next.inflight[other].unfinished() by {
        assert(state.inflight.contains_key(other));
    }
    assert forall|trb: u64| #[trigger] next.routes.contains_key(trb) implies {
        &&& next.inflight.contains_key(next.routes[trb])
        &&& next.inflight[next.routes[trb]].kind.trbs().contains(trb)
    } by {
        assert(state.routes.contains_key(trb));
    }
}

} // verus!
