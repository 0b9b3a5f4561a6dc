//! An endpoint of an xHCI controller: it turns requests into TRBs, keeps track of
//! the requests in flight, and turns the controller's events into completions.

use std::collections::BTreeMap;
use std::collections::BTreeSet;

use vstd::prelude::*;
use vstd::std_specs::iter::IteratorSpec;

use crate::completion::CompletionCode;
use crate::completion::TransferEvent;
use crate::endpoint::RequestId;
use crate::endpoint::TransferCompletion;
use crate::endpoint::TransferKind;
use crate::endpoint::TransferRequest;
use crate::error::TransferError;
use crate::error::TransferFault;
use crate::reclaim::FinishedEvents;
use crate::reclaim::scan_control;
use crate::reclaim::scan_iso;
use crate::state::EndpointConfig;
use crate::state::EndpointState;
use crate::state::ReclaimedView;
use crate::state::SendRing;
use crate::state::SubmissionView;
use crate::state::WakerPlanView;
use crate::state::first_free_id;
use crate::state::id_after;
use crate::state::ids_between;
use crate::state::lemma_committed_wf;
use crate::state::lemma_requests_within_trbs;
use crate::state::lemma_with_td_wf;
use crate::state::lemma_without_request_wf;
use crate::state::request_len;
use crate::state::ring_limit;
use crate::state::td_kind_at;
use crate::submit::transfer_trbs;
use crate::submit::trbs_needed;
use crate::submit::words_of;
use crate::td::ControlTd;
use crate::td::IsoPacketTd;
use crate::td::SubmittedTd;
use crate::td::SubmittedTdKind;
use crate::td::TdKindView;
use crate::td::TdView;
use crate::td::td_completed;
use crate::td::transfer_from_completion;
use crate::td::validate_completion_code;
use crate::transfer::DmaMapping;
use crate::transfer::Transfer;
use crate::transfer::TransferView;
use crate::transfer::transfer_to_completion;
use crate::usb::Direction;

verus! {

broadcast use {
    vstd::std_specs::btree::group_btree_axioms,
    vstd::laws_cmp::group_laws_cmp,
};

/// Pages of a transfer ring.
pub const ENDPOINT_RING_PAGES: usize = 16;

/// An endpoint of an xHCI controller.
pub struct Endpoint {
    pub config: EndpointConfig,
    pub halted: bool,
    pub reset_in_progress: bool,
    pub next_request_id: u64,
    pub inflight: BTreeMap<u64, SubmittedTd>,
    pub stopped_completions: BTreeSet<u64>,
    pub trb_to_request: BTreeMap<u64, u64>,
    pub outstanding_trbs: usize,
    pub next_iso_frame_id: u16,
}

impl View for Endpoint {
    type V = EndpointState;

    open spec fn view(&self) -> EndpointState {
        EndpointState {
            config: self.config,
            halted: self.halted,
            reset_in_progress: self.reset_in_progress,
            next_request_id: self.next_request_id,
            inflight: self.inflight@.map_values(|td: SubmittedTd| td@),
            stopped: self.stopped_completions@,
            routes: self.trb_to_request@,
            outstanding: self.outstanding_trbs,
            next_iso_frame_id: self.next_iso_frame_id,
        }
    }
}

/// What reclaiming a request hands back.
#[derive(Debug)]
pub struct Reclaimed {
    pub outcome: Result<TransferCompletion, TransferError>,
    /// The buffer has to be made visible to the CPU before it is read.
    pub sync_for_cpu: bool,
    /// The mapping that is no longer needed.
    pub released: Option<DmaMapping>,
}

impl View for Reclaimed {
    type V = ReclaimedView;

    open spec fn view(&self) -> ReclaimedView {
        ReclaimedView {
            outcome: match self.outcome {
                Ok(completion) => Ok(completion@),
                Err(err) => Err(err),
            },
            sync_for_cpu: self.sync_for_cpu,
            released: self.released,
        }
    }
}

/// The model of what reclaiming hands back, if anything.
pub open spec fn reclaimed_view(reclaimed: Option<Reclaimed>) -> Option<ReclaimedView> {
    match reclaimed {
        Some(reclaimed) => Some(reclaimed@),
        None => None,
    }
}

/// Where to look for the events of a request.
#[derive(Clone, Copy, Debug)]
enum ReclaimTarget {
    Normal(u64),
    Control(ControlTd),
    Iso,
}

/// A request that a stop has retired, and the mapping that it no longer needs.
#[derive(Clone, Copy, Debug, PartialEq, Eq)]
pub struct RetiredRequest {
    pub request_id: u64,
    pub released: Option<DmaMapping>,
}

/// A request that is ready to be put on the ring.
#[derive(Debug)]
pub struct Submission {
    pub request_id: u64,
    pub transfer: Transfer,
    /// The TRBs, in ring order.
    pub trbs: Vec<[u32; 4]>,
}

impl View for Submission {
    type V = SubmissionView;

    open spec fn view(&self) -> SubmissionView {
        SubmissionView {
            request_id: self.request_id,
            transfer: self.transfer@,
            trbs: words_of(self.trbs@),
        }
    }
}

/// A request that is in flight from now on.
#[derive(Clone, Copy, Debug, PartialEq, Eq)]
pub struct Committed {
    pub id: RequestId,
    /// The doorbell that tells the controller of its TRBs, to be rung once.
    pub doorbell_target: u8,
}

/// The TD of a transfer whose TRBs were put at `addresses`.
fn td_kind(transfer: &Transfer, addresses: &Vec<u64>) -> (kind: SubmittedTdKind)
    requires
        addresses@.len() == trbs_needed(transfer@.kind, transfer@.buffer_len()),
    ensures
        kind@ == td_kind_at(transfer@, addresses@),
{
    match &transfer.kind {
        TransferKind::Control(_) => {
            let len: usize = transfer.buffer_len();
            SubmittedTdKind::Control(
                ControlTd {
                    setup_trb: addresses[0],
                    data_trb: if len > 0 {
                        Some(addresses[1])
                    } else {
                        None
                    },
                    status_trb: addresses[addresses.len() - 1],
                    requested: len,
                    actual: None,
                },
            )
        },
        TransferKind::Isochronous { .. } => {
            let mut packets: Vec<IsoPacketTd> = Vec::new();
            let mut i: usize = 0;
            while i < addresses.len()
                invariant
                    i <= addresses@.len(),
                    packets@ == Seq::new(
                        i as nat,
                        |j: int|
                            IsoPacketTd {
                                trb: addresses@[j],
                                final_packet: j == addresses@.len() - 1,
                                event: None,
                                actual: None,
                            },
                    ),
                decreases addresses@.len() - i,
            {
                packets.push(
                    IsoPacketTd {
                        trb: addresses[i],
                        final_packet: i == addresses.len() - 1,
                        event: None,
                        actual: None,
                    },
                );
                i += 1;
            }
            SubmittedTdKind::Iso { packets }
        },
        _ => SubmittedTdKind::Normal { completion_trb: addresses[0] },
    }
}

/// What a task that waits for a request has to do.
#[derive(Debug)]
pub enum WakerPlan {
    /// The request is done: wake at once.
    WakeNow,
    /// There is no such request.
    Ignore,
    /// Wait for an event on one of these TRBs, or for the request to be retired.
    Register { trbs: Vec<u64> },
}

impl View for WakerPlan {
    type V = WakerPlanView;

    open spec fn view(&self) -> WakerPlanView {
        match self {
            WakerPlan::WakeNow => WakerPlanView::WakeNow,
            WakerPlan::Ignore => WakerPlanView::Ignore,
            WakerPlan::Register { trbs } => WakerPlanView::Register { trbs: trbs@ },
        }
    }
}

/// Whether each id is larger than the one before it.
pub open spec fn increasing(ids: Seq<u64>) -> bool {
    forall|i: int, j: int| 0 <= i < j < ids.len() ==> #[trigger] ids[i] < #[trigger] ids[j]
}

/// The ids of retired requests.
pub open spec fn retired_ids(retired: Seq<RetiredRequest>) -> Seq<u64> {
    Seq::new(retired.len(), |i: int| retired[i].request_id)
}

/// The order that `BTreeMap` keeps its keys in is that of the numbers.
proof fn lemma_keys_increase(keys: Seq<&u64>)
    requires
        vstd::std_specs::btree::increasing_seq(keys),
    ensures
        increasing(keys.unref()),
{
    assert(vstd::laws_cmp::obeys_cmp::<&u64>());
    assert forall|i: int, j: int| 0 <= i < j < keys.unref().len() implies #[trigger] keys.unref()[i]
        < #[trigger] keys.unref()[j] by {
        assert(vstd::std_specs::cmp::OrdSpec::cmp_spec(&keys[i], &keys[j]) is Less);
    }
}

impl SubmittedTdKind {
    /// Bus addresses of the TRBs, in ring order.
    pub fn trbs(&self) -> (trbs: Vec<u64>)
        ensures
            trbs@ == self@.trbs(),
    {
        let mut trbs: Vec<u64> = Vec::new();
        match self {
            SubmittedTdKind::Normal { completion_trb } => {
                trbs.push(*completion_trb);
            },
            SubmittedTdKind::Control(control_td) => {
                let stages = control_td.trbs();
                let mut i: usize = 0;
                while i < stages.len()
                    invariant
                        i <= stages@.len(),
                        trbs@ == Seq::new(i as nat, |j: int| stages@[j].0),
                    decreases stages@.len() - i,
                {
                    trbs.push(stages[i].0);
                    i += 1;
                }
            },
            SubmittedTdKind::Iso { packets } => {
                let mut i: usize = 0;
                while i < packets.len()
                    invariant
                        i <= packets@.len(),
                        trbs@ == Seq::new(i as nat, |j: int| packets@[j].trb),
                    decreases packets@.len() - i,
                {
                    trbs.push(packets[i].trb);
                    i += 1;
                }
            },
        }
        assert(trbs@ =~= self@.trbs());
        trbs
    }
}

impl Endpoint {
    /// An endpoint that has not been used.
    pub fn new(slot_id: u8, dci: u8, ring: SendRing, dma_mask: u64) -> (endpoint: Endpoint)
        ensures
            endpoint@ == EndpointState::fresh(
                EndpointConfig {
                    slot_id,
                    dci,
                    ring,
                    dma_mask,
                    max_packet_size: 0,
                    max_burst_size: 0,
                    interval: 1,
                    iso_start_asap: true,
                },
            ),
            endpoint@.wf(),
    {
        let endpoint = Endpoint {
            config: EndpointConfig {
                slot_id,
                dci,
                ring,
                dma_mask,
                max_packet_size: 0,
                max_burst_size: 0,
                interval: 1,
                iso_start_asap: true,
            },
            halted: false,
            reset_in_progress: false,
            next_request_id: 1,
            inflight: BTreeMap::new(),
            stopped_completions: BTreeSet::new(),
            trb_to_request: BTreeMap::new(),
            outstanding_trbs: 0,
            next_iso_frame_id: 0,
        };
        assert(endpoint@.inflight =~= Map::<u64, TdView>::empty());
        endpoint
    }

    /// Sets what periodic transfers are scheduled by. An interval of zero counts
    /// as one.
    pub fn configure_periodic(
        &mut self,
        max_packet_size: usize,
        max_burst_size: usize,
        interval: u8,
    )
        requires
            old(self)@.wf(),
        ensures
            final(self)@ == old(self)@.configured(max_packet_size, max_burst_size, interval),
            final(self)@ == (EndpointState {
                config: EndpointConfig {
                    max_packet_size,
                    max_burst_size,
                    interval: if interval == 0 {
                        1
                    } else {
                        interval
                    },
                    iso_start_asap: true,
                    ..old(self)@.config
                },
                ..old(self)@
            }),
            final(self)@.wf(),
    {
        self.config =
        EndpointConfig {
            max_packet_size,
            max_burst_size,
            interval: if interval == 0 {
                1
            } else {
                interval
            },
            iso_start_asap: true,
            ..self.config
        };
    }

    /// Bus address of the transfer ring.
    pub fn bus_addr(&self) -> (addr: u64)
        ensures
            addr == self@.config.ring.bus_addr,
    {
        self.config.ring.bus_addr
    }

    pub fn ring(&self) -> (ring: &SendRing)
        ensures
            *ring == self@.config.ring,
    {
        &self.config.ring
    }

    /// Target of the doorbell that tells the controller of new work.
    pub fn doorbell_target(&self) -> (target: u8)
        ensures
            target == self@.config.dci,
    {
        self.config.dci
    }

    /// Takes a request out of flight.
    fn remove_request(&mut self, request_id: u64) -> (removed: Option<SubmittedTd>)
        requires
            old(self)@.wf_but_for(request_id),
        ensures
            match removed {
                Some(td) => {
                    &&& old(self)@.inflight.contains_key(request_id)
                    &&& td@ == old(self)@.inflight[request_id]
                    &&& final(self)@ == old(self)@.without_request(request_id)
                },
                None => {
                    &&& !old(self)@.inflight.contains_key(request_id)
                    &&& final(self)@ == old(self)@
                },
            },
            final(self)@.wf(),
    {
        let ghost before = self@;
        match self.inflight.remove(&request_id) {
            Some(td) => {
                self.outstanding_trbs = self.outstanding_trbs.saturating_sub(td.trb_count);
                let trbs = td.kind.trbs();
                let mut i: usize = 0;
                while i < trbs.len()
                    invariant
                        i <= trbs@.len(),
                        self@ == (EndpointState {
                            inflight: before.inflight.remove(request_id),
                            routes: before.routes.remove_keys(trbs@.take(i as int).to_set()),
                            outstanding: before.without_request(request_id).outstanding,
                            ..before
                        }),
                    decreases trbs@.len() - i,
                {
                    self.trb_to_request.remove(&trbs[i]);
                    proof {
                        assert(trbs@.take(i + 1) =~= trbs@.take(i as int).push(trbs@[i as int]));
                        trbs@.take(i as int).lemma_push_to_set_commute(trbs@[i as int]);
                        assert(self@.routes =~= before.routes.remove_keys(
                            trbs@.take(i + 1).to_set(),
                        ));
                    }
                    i += 1;
                }
                proof {
                    assert(trbs@.take(i as int) =~= trbs@);
                    lemma_without_request_wf(before, request_id);
                }
                Some(td)
            },
            None => {
                assert(self@.inflight =~= before.inflight);
                None
            },
        }
    }

    /// Ends a request with the event that came for one of its TRBs.
    fn complete_request(&mut self, request_id: u64, event_trb: u64, event: TransferEvent) -> (result:
        Result<Transfer, TransferError>)
        requires
            old(self)@.wf_but_for(request_id),
        ensures
            if old(self)@.inflight.contains_key(request_id) {
                &&& final(self)@ == old(self)@.after_completion(request_id, event)
                &&& match result {
                    Ok(transfer) => Ok::<TransferView, TransferError>(transfer@),
                    Err(err) => Err(err),
                } == td_completed(old(self)@.inflight[request_id], event_trb, event)
            } else {
                &&& final(self)@ == old(self)@
                &&& result == Err::<Transfer, TransferError>(TransferError::InvalidEndpoint)
            },
            final(self)@.wf(),
    {
        let submitted = match self.remove_request(request_id) {
            Some(submitted) => submitted,
            None => {
                return Err(TransferError::InvalidEndpoint);
            },
        };
        assert(submitted@.wf());
        if submitted.cancelled {
            return Err(TransferError::Cancelled);
        }
        if let Ok(code) = event.completion_code() {
            if code == CompletionCode::StallError {
                self.halted = true;
            }
        }
        let iso: bool = match &submitted.kind {
            SubmittedTdKind::Iso { .. } => true,
            _ => false,
        };
        if !iso {
            if let Err(err) = validate_completion_code(event) {
                return Err(err);
            }
        }
        transfer_from_completion(submitted, event_trb, event)
    }

    /// Ends a request and gathers what is to be handed back of it.
    fn finish_request(
        &mut self,
        id: RequestId,
        event_trb: u64,
        event: TransferEvent,
        failure: Option<TransferError>,
    ) -> (reclaimed: Reclaimed)
        requires
            old(self)@.wf_but_for(id.value()),
            old(self)@.inflight.contains_key(id.value()),
        ensures
            final(self)@ == old(self)@.after_completion(id.value(), event),
            reclaimed@ == old(self)@.ended_by(id.value(), event_trb, event, failure),
            final(self)@.wf(),
    {
        let request_id: u64 = id.raw();
        let released = match self.inflight.get(&request_id) {
            Some(submitted) => submitted.transfer.mapping,
            None => None,
        };
        match self.complete_request(request_id, event_trb, event) {
            Ok(transfer) => {
                let sync_for_cpu: bool = transfer.transfer_len > 0 && transfer.direction
                    == Direction::In;
                let outcome = match failure {
                    Some(err) => Err(err),
                    None => Ok(transfer_to_completion(id, transfer)),
                };
                Reclaimed { outcome, sync_for_cpu, released }
            },
            Err(err) => Reclaimed { outcome: Err(err), sync_for_cpu: false, released },
        }
    }

    fn reclaim_control_request(
        &mut self,
        finished: &FinishedEvents,
        id: RequestId,
        control_td: ControlTd,
    ) -> (result: Option<Reclaimed>)
        requires
            old(self)@.wf(),
            !old(self)@.stopped.contains(id.value()),
            old(self)@.inflight.contains_key(id.value()),
            old(self)@.inflight[id.value()].kind == TdKindView::Control(control_td),
        ensures
            final(self)@ == old(self)@.reclaimed(id.value(), finished@).0,
            reclaimed_view(result) == old(self)@.reclaimed(id.value(), finished@).1,
            final(self)@.wf(),
    {
        let ghost before = self@;
        let request_id: u64 = id.raw();
        let mut submitted = match self.inflight.remove(&request_id) {
            Some(submitted) => submitted,
            None => {
                return None;
            },
        };
        let ghost td = submitted@;
        let (control_td, stop) = scan_control(control_td, submitted.transfer.buffer_len(), finished);
        submitted.kind = SubmittedTdKind::Control(control_td);
        let ghost next = submitted@;
        self.inflight.insert(request_id, submitted);
        proof {
            assert(td.wf());
            assert(next.kind.trbs() =~= td.kind.trbs());
            assert(next.wf());
            lemma_with_td_wf(before, request_id, next);
            assert(self@.inflight =~= before.with_td(request_id, next).inflight);
            assert(self@ == before.with_td(request_id, next));
        }
        match stop {
            Some((event_trb, event)) => Some(self.finish_request(id, event_trb, event, None)),
            None => None,
        }
    }

    fn reclaim_iso_request(&mut self, finished: &FinishedEvents, id: RequestId) -> (result: Option<
        Reclaimed,
    >)
        requires
            old(self)@.wf(),
            !old(self)@.stopped.contains(id.value()),
            old(self)@.inflight.contains_key(id.value()),
            old(self)@.inflight[id.value()].is_iso(),
        ensures
            final(self)@ == old(self)@.reclaimed(id.value(), finished@).0,
            reclaimed_view(result) == old(self)@.reclaimed(id.value(), finished@).1,
            final(self)@.wf(),
    {
        let ghost before = self@;
        let request_id: u64 = id.raw();
        let submitted = match self.inflight.remove(&request_id) {
            Some(submitted) => submitted,
            None => {
                return None;
            },
        };
        let ghost td = submitted@;
        assert(td.wf());
        let (submitted, stop) = scan_iso(submitted, finished);
        let ghost next = submitted@;
        self.inflight.insert(request_id, submitted);
        proof {
            lemma_with_td_wf(before, request_id, next);
            assert(self@.inflight =~= before.with_td(request_id, next).inflight);
            assert(self@ == before.with_td(request_id, next));
        }
        match stop {
            Some(stop) => Some(self.finish_request(id, stop.trb, stop.event, stop.failure)),
            None => None,
        }
    }

    /// Takes a request back, where the events that have come in end it.
    pub fn reclaim_request(&mut self, finished: &FinishedEvents, id: RequestId) -> (result: Option<
        Reclaimed,
    >)
        requires
            old(self)@.wf(),
        ensures
            final(self)@ == old(self)@.reclaimed(id.value(), finished@).0,
            reclaimed_view(result) == old(self)@.reclaimed(id.value(), finished@).1,
            final(self)@.wf(),
    {
        let request_id: u64 = id.raw();
        if self.stopped_completions.remove(&request_id) {
            return Some(
                Reclaimed {
                    outcome: Err(TransferError::Cancelled),
                    sync_for_cpu: false,
                    released: None,
                },
            );
        }
        assert(self@.stopped =~= old(self)@.stopped);
        let target = match self.inflight.get(&request_id) {
            Some(submitted) => match &submitted.kind {
                SubmittedTdKind::Normal { completion_trb } => ReclaimTarget::Normal(*completion_trb),
                SubmittedTdKind::Control(control_td) => ReclaimTarget::Control(*control_td),
                SubmittedTdKind::Iso { .. } => ReclaimTarget::Iso,
            },
            None => {
                return None;
            },
        };
        match target {
            ReclaimTarget::Normal(completion_trb) => {
                match finished.get_finished(completion_trb) {
                    Some(event) => Some(self.finish_request(id, completion_trb, event, None)),
                    None => None,
                }
            },
            ReclaimTarget::Control(control_td) => {
                self.reclaim_control_request(finished, id, control_td)
            },
            ReclaimTarget::Iso => self.reclaim_iso_request(finished, id),
        }
    }

    /// What a task that waits for a request has to do.
    pub fn register_waker(&self, id: RequestId) -> (plan: WakerPlan)
        ensures
            plan@ == self@.waker_plan(id.value()),
            match plan {
                WakerPlan::WakeNow => self@.stopped.contains(id.value()),
                WakerPlan::Ignore => {
                    &&& !self@.stopped.contains(id.value())
                    &&& !self@.inflight.contains_key(id.value())
                },
                WakerPlan::Register { trbs } => {
                    &&& !self@.stopped.contains(id.value())
                    &&& self@.inflight.contains_key(id.value())
                    &&& trbs@ == self@.inflight[id.value()].kind.trbs()
                },
            },
    {
        let request_id: u64 = id.raw();
        if self.stopped_completions.contains(&request_id) {
            return WakerPlan::WakeNow;
        }
        match self.inflight.get(&request_id) {
            Some(submitted) => WakerPlan::Register { trbs: submitted.kind.trbs() },
            None => WakerPlan::Ignore,
        }
    }

    /// Marks a request as cancelled. It stays in flight until its events come in or
    /// the endpoint is stopped.
    pub fn cancel_request(&mut self, id: RequestId) -> (result: Result<(), TransferError>)
        requires
            old(self)@.wf(),
        ensures
            (final(self)@, result) == old(self)@.cancel_asked(id.value()),
            if old(self)@.inflight.contains_key(id.value()) {
                &&& result == Ok::<(), TransferError>(())
                &&& final(self)@ == old(self)@.cancelled(id.value())
            } else {
                &&& result == Err::<(), TransferError>(TransferError::InvalidEndpoint)
                &&& final(self)@ == old(self)@
            },
            final(self)@.wf(),
    {
        let ghost before = self@;
        let request_id: u64 = id.raw();
        match self.inflight.remove(&request_id) {
            Some(submitted) => {
                let ghost td = submitted@;
                let mut submitted = submitted;
                submitted.cancelled = true;
                let ghost next = submitted@;
                self.inflight.insert(request_id, submitted);
                proof {
                    assert(before.inflight.contains_key(request_id));
                    lemma_with_td_wf(before, request_id, next);
                    assert(self@.inflight =~= before.cancelled(request_id).inflight);
                    assert(self@ == before.cancelled(request_id));
                }
                Ok(())
            },
            None => {
                assert(self@.inflight =~= before.inflight);
                Err(TransferError::InvalidEndpoint)
            },
        }
    }

    /// The ids of the requests in flight, in order.
    fn request_ids(&self) -> (ids: Vec<u64>)
        ensures
            ids@.to_set() == self@.inflight.dom(),
            ids@.no_duplicates(),
            increasing(ids@),
    {
        let mut ids: Vec<u64> = Vec::new();
        let keys = self.inflight.keys();
        let ghost all = keys.remaining().unref();
        proof {
            lemma_keys_increase(keys.remaining());
        }
        for id in it: keys
            invariant
                it.seq().unref() == all,
                ids@ == all.take(it.index()),
        {
            ids.push(*id);
        }
        proof {
            assert(all.take(all.len() as int) =~= all);
            assert(self@.inflight.dom() =~= self.inflight@.dom());
        }
        ids
    }

    /// Retires everything in flight, once the controller has stopped the endpoint.
    /// Each retired request can be reclaimed once, as cancelled.
    pub fn retire_all_after_stop(&mut self) -> (retired: Vec<RetiredRequest>)
        requires
            old(self)@.wf(),
        ensures
            final(self)@ == old(self)@.retired(),
            final(self)@.wf(),
            retired_ids(retired@).to_set() == old(self)@.inflight.dom(),
            increasing(retired_ids(retired@)),
            forall|i: int|
                #![trigger retired@[i]]
                0 <= i < retired@.len() ==> retired@[i].released
                    == old(self)@.inflight[retired@[i].request_id].transfer.mapping,
    {
        let ghost before = self@;
        let ids = self.request_ids();
        let mut retired: Vec<RetiredRequest> = Vec::new();
        let mut i: usize = 0;
        while i < ids.len()
            invariant
                i <= ids@.len(),
                ids@.to_set() == before.inflight.dom(),
                ids@.no_duplicates(),
                self@.wf(),
                self@.inflight =~= before.inflight.remove_keys(ids@.take(i as int).to_set()),
                self@.stopped =~= before.stopped.union(ids@.take(i as int).to_set()),
                self@ == (EndpointState {
                    inflight: self@.inflight,
                    stopped: self@.stopped,
                    routes: self@.routes,
                    outstanding: self@.outstanding,
                    ..before
                }),
                retired_ids(retired@) =~= ids@.take(i as int),
                forall|j: int|
                    #![trigger retired@[j]]
                    0 <= j < i ==> retired@[j].released
                        == before.inflight[retired@[j].request_id].transfer.mapping,
            decreases ids@.len() - i,
        {
            let request_id: u64 = ids[i];
            proof {
                assert(ids@.contains(request_id));
                assert(ids@.to_set().contains(request_id));
                assert(before.inflight.contains_key(request_id));
                if ids@.take(i as int).contains(request_id) {
                    let k = choose|k: int| 0 <= k < i && ids@.take(i as int)[k] == request_id;
                    assert(ids@[k] == ids@[i as int]);
                }
                assert(self@.inflight.contains_key(request_id));
                assert(ids@.take(i + 1) =~= ids@.take(i as int).push(request_id));
                ids@.take(i as int).lemma_push_to_set_commute(request_id);
            }
            if let Some(submitted) = self.remove_request(request_id) {
                self.stopped_completions.insert(request_id);
                retired.push(RetiredRequest { request_id, released: submitted.transfer.mapping });
            }
            i += 1;
        }
        proof {
            assert(ids@.take(i as int) =~= ids@);
            assert(self@.inflight =~= Map::<u64, TdView>::empty());
            assert(self@.routes =~= Map::<u64, u64>::empty()) by {
                assert forall|trb: u64| !self@.routes.contains_key(trb) by {
                    if self@.routes.contains_key(trb) {
                        assert(self@.inflight.contains_key(self@.routes[trb]));
                    }
                }
            }
            assert(self@ == before.retired());
        }
        retired
    }

    /// Takes the next request id that no request in flight has.
    fn allocate_request_id(&mut self) -> (id: u64)
        requires
            old(self)@.wf(),
        ensures
            id == old(self)@.fresh_id(),
            final(self)@ == (EndpointState { next_request_id: id_after(id), ..old(self)@ }),
            final(self)@.wf(),
            id >= 1,
            !old(self)@.inflight.contains_key(id),
    {
        let ghost before = self@;
        let ghost used = before.inflight.dom();
        let ghost start = before.next_request_id;
        let ghost mut passed: Set<u64> = Set::empty();
        proof {
            lemma_requests_within_trbs(before.inflight);
        }
        loop
            invariant
                before == old(self)@,
                before.wf(),
                used == before.inflight.dom(),
                used.finite(),
                used.len() < u64::MAX,
                start == before.next_request_id,
                self@ == (EndpointState { next_request_id: self@.next_request_id, ..before }),
                self@.next_request_id >= 1,
                passed.finite(),
                passed.subset_of(used),
                passed.len() == ids_between(start, self@.next_request_id),
                forall|id: u64|
                    #[trigger] passed.contains(id) <==> id >= 1 && ids_between(start, id)
                        < passed.len(),
                first_free_id(used, start, used.len()) == first_free_id(
                    used,
                    self@.next_request_id,
                    (used.len() - passed.len()) as nat,
                ),
            decreases used.len() - passed.len(),
        {
            let id: u64 = self.next_request_id;
            proof {
                vstd::set_lib::lemma_len_subset(passed, used);
            }
            self.next_request_id = if id == u64::MAX {
                1
            } else {
                id + 1
            };
            assert(self@.inflight =~= before.inflight);
            if !self.inflight.contains_key(&id) {
                return id;
            }
            proof {
                assert(before.inflight.contains_key(id));
                assert(!passed.contains(id));
                vstd::set_lib::lemma_len_subset(passed.insert(id), used);
                passed = passed.insert(id);
            }
        }
    }

    /// Number of TRBs that a request takes.
    pub fn required_trbs_for_request(request: &TransferRequest) -> (count: usize)
        ensures
            count == trbs_needed(request@.kind, request_len(request@)),
    {
        match request {
            TransferRequest::Control { buffer, .. } => match buffer {
                Some(buffer) => {
                    if buffer.len > 0 {
                        3
                    } else {
                        2
                    }
                },
                None => 2,
            },
            TransferRequest::Bulk { .. } => 1,
            TransferRequest::Interrupt { .. } => 1,
            TransferRequest::Isochronous { packets, .. } => {
                if packets.len() == 0 {
                    1
                } else {
                    packets.len()
                }
            },
        }
    }

    /// Whether the ring has room for `required` more TRBs.
    fn ensure_ring_capacity(&self, required: usize) -> (result: Result<(), TransferError>)
        ensures
            if self@.outstanding + required <= ring_limit(self@.config.ring.usable_capacity) {
                result == Ok::<(), TransferError>(())
            } else {
                result == Err::<(), TransferError>(TransferError::QueueFull)
            },
    {
        let usable: usize = self.config.ring.usable_capacity.saturating_sub(1);
        if self.outstanding_trbs.saturating_add(required) > usable {
            return Err(TransferError::QueueFull);
        }
        Ok(())
    }

    /// Whether the endpoint takes a request now. This is to be asked before the
    /// buffer of the request is mapped.
    pub fn admit_request(&self, request: &TransferRequest) -> (result: Result<(), TransferError>)
        ensures
            result == (if self@.admits(request@) {
                Ok::<(), TransferError>(())
            } else {
                Err(TransferError::QueueFull)
            }),
    {
        if self.reset_in_progress {
            return Err(TransferError::QueueFull);
        }
        let required: usize = Endpoint::required_trbs_for_request(request);
        self.ensure_ring_capacity(required)
    }

    /// Makes a request ready for the ring. `mapped` is what became of the mapping
    /// that [`Transfer::mapping_request`] asks for.
    pub fn submit_request(&mut self, request: TransferRequest, mapped: Option<DmaMapping>) -> (result:
        Result<Submission, TransferError>)
        requires
            old(self)@.wf(),
            mapped matches Some(mapping) ==> mapping.len == request_len(request@),
            old(self)@.submission_fits(request@, mapped),
        ensures
            match result {
                Ok(submission) => {
                    &&& old(self)@.submitted(request@, mapped) == Ok::<
                        SubmissionView,
                        TransferError,
                    >(submission@)
                    &&& final(self)@ == old(self)@.prepared(submission@)
                    &&& final(self)@.can_commit(submission@)
                },
                Err(err) => {
                    &&& old(self)@.submitted(request@, mapped) == Err::<
                        SubmissionView,
                        TransferError,
                    >(err)
                    &&& final(self)@ == old(self)@
                },
            },
            final(self)@.wf(),
    {
        let ghost asked = request@;
        if let Err(err) = self.admit_request(&request) {
            return Err(err);
        }
        let transfer = match Transfer::from_request(request, mapped) {
            Ok(transfer) => transfer,
            Err(err) => {
                return Err(err);
            },
        };
        if transfer.buffer_len() > 0 {
            let start: u64 = transfer.dma_addr();
            let end: u64 = start + transfer.buffer_len() as u64;
            let mask: u64 = self.config.dma_mask;
            if start > mask || end > mask {
                return Err(
                    TransferError::Other(TransferFault::DmaMaskExceeded { start, end, mask }),
                );
            }
        }
        let request_id: u64 = self.allocate_request_id();
        let (trbs, next_iso_frame_id) = transfer_trbs(
            &self.config,
            self.next_iso_frame_id,
            &transfer,
        );
        self.next_iso_frame_id = next_iso_frame_id;
        let submission = Submission { request_id, transfer, trbs };
        assert(trbs_needed(asked.kind, request_len(asked)) == trbs_needed(
            submission@.transfer.kind,
            submission@.transfer.buffer_len(),
        ));
        Ok(submission)
    }

    /// Records a request as in flight, once its TRBs were put on the ring at
    /// `addresses`, and gives the doorbell that has to be rung for it.
    pub fn commit_submission(&mut self, submission: Submission, addresses: &Vec<u64>) -> (committed:
        Committed)
        requires
            old(self)@.wf(),
            old(self)@.can_commit(submission@),
            addresses@.len() == submission@.trbs.len(),
        ensures
            committed.id.value() == submission@.request_id,
            committed.doorbell_target == old(self)@.config.dci,
            final(self)@ == old(self)@.committed(submission@, addresses@),
            final(self)@.wf(),
    {
        let ghost before = self@;
        let ghost ready = submission@;
        let Submission { request_id, transfer, trbs } = submission;
        let trb_count: usize = addresses.len();
        let kind = td_kind(&transfer, addresses);
        let mut i: usize = 0;
        while i < addresses.len()
            invariant
                i <= addresses@.len(),
                self@ == (EndpointState {
                    routes: before.routes.union_prefer_right(
                        addresses@.take(i as int).to_set().mk_map(|trb: u64| request_id),
                    ),
                    ..before
                }),
            decreases addresses@.len() - i,
        {
            self.trb_to_request.insert(addresses[i], request_id);
            proof {
                assert(addresses@.take(i + 1) =~= addresses@.take(i as int).push(
                    addresses@[i as int],
                ));
                addresses@.take(i as int).lemma_push_to_set_commute(addresses@[i as int]);
                assert(self@.routes =~= before.routes.union_prefer_right(
                    addresses@.take(i + 1).to_set().mk_map(|trb: u64| request_id),
                ));
            }
            i += 1;
        }
        self.outstanding_trbs = self.outstanding_trbs + trb_count;
        self.inflight.insert(
            request_id,
            SubmittedTd { transfer, kind, trb_count, cancelled: false },
        );
        proof {
            assert(addresses@.take(i as int) =~= addresses@);
            assert(self@.inflight =~= before.committed(ready, addresses@).inflight);
            assert(self@.routes =~= before.committed(ready, addresses@).routes);
            lemma_committed_wf(before, ready, addresses@);
        }
        Committed { id: RequestId::new(request_id), doorbell_target: self.doorbell_target() }
    }
}

/// An endpoint means its fields, request by request.
pub proof fn law_endpoint_means_its_fields(endpoint: Endpoint, id: u64)
    ensures
        endpoint@.config == endpoint.config,
        endpoint@.halted == endpoint.halted,
        endpoint@.reset_in_progress == endpoint.reset_in_progress,
        endpoint@.next_request_id == endpoint.next_request_id,
        endpoint@.inflight.contains_key(id) <==> endpoint.inflight@.contains_key(id),
        endpoint.inflight@.contains_key(id) ==> endpoint@.inflight[id] == endpoint.inflight@[id]@,
        endpoint@.stopped == endpoint.stopped_completions@,
        endpoint@.routes == endpoint.trb_to_request@,
        endpoint@.outstanding == endpoint.outstanding_trbs,
        endpoint@.next_iso_frame_id == endpoint.next_iso_frame_id,
{
}

/// A submission means its fields, TRB by TRB and word by word, and what is reclaimed
/// means its own.
pub proof fn law_results_mean_their_fields(
    submission: Submission,
    reclaimed: Reclaimed,
    i: int,
    k: int,
)
    ensures
        submission@.request_id == submission.request_id,
        submission@.transfer == submission.transfer@,
        submission@.trbs.len() == submission.trbs@.len(),
        0 <= i < submission.trbs@.len() && 0 <= k < 4 ==> submission@.trbs[i][k]
            == submission.trbs@[i]@[k],
        reclaimed@.sync_for_cpu == reclaimed.sync_for_cpu,
        reclaimed@.released == reclaimed.released,
        match reclaimed.outcome {
            Ok(completion) => reclaimed@.outcome matches Ok(told) && told == completion@,
            Err(err) => reclaimed@.outcome matches Err(told) && told == err,
        },
{
}

} // verus!
