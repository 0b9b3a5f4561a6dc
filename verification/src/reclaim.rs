//! Walking the TRBs of a request for events, until one of them ends it.

use std::collections::BTreeMap;

use vstd::prelude::*;

use crate::completion::TransferEvent;
use crate::completion::iso_actual_length;
use crate::completion::iso_is_fatal;
use crate::completion::iso_length_bound;
use crate::completion::iso_packet_actual_length;
use crate::completion::iso_packet_is_fatal;
use crate::completion::law_iso_error_is_fatal;
use crate::completion::minus_or_zero;
use crate::endpoint::TransferKind;
use crate::endpoint::TransferKindView;
use crate::error::TransferError;
use crate::td::ControlStage;
use crate::td::ControlTd;
use crate::td::IsoPacketTd;
use crate::td::SubmittedTd;
use crate::td::SubmittedTdKind;
use crate::td::TdKindView;
use crate::td::TdView;
use crate::td::event_verdict;
use crate::td::iso_packets_wf;
use crate::td::validate_completion_code;

verus! {

broadcast use {
    vstd::std_specs::btree::group_btree_axioms,
    vstd::laws_cmp::group_laws_cmp,
};

/// The transfer events that have come in, by the bus address of their TRB.
pub struct FinishedEvents {
    events: BTreeMap<u64, TransferEvent>,
}

impl View for FinishedEvents {
    type V = Map<u64, TransferEvent>;

    closed spec fn view(&self) -> Map<u64, TransferEvent> {
        self.events@
    }
}

/// The events that have come in after `event` came in for `trb`.
pub open spec fn with_event(
    events: Map<u64, TransferEvent>,
    trb: u64,
    event: TransferEvent,
) -> Map<u64, TransferEvent> {
    events.insert(trb, event)
}

/// The event of a TRB, where one has come in.
pub open spec fn event_of(events: Map<u64, TransferEvent>, trb: u64) -> Option<TransferEvent> {
    if events.contains_key(trb) {
        Some(events[trb])
    } else {
        None
    }
}

impl FinishedEvents {
    pub fn new() -> (events: FinishedEvents)
        ensures
            events@ == Map::<u64, TransferEvent>::empty(),
    {
        FinishedEvents { events: BTreeMap::new() }
    }

    /// Records the event of a TRB.
    pub fn set_finished(&mut self, trb: u64, event: TransferEvent)
        ensures
            final(self)@ == with_event(old(self)@, trb, event),
            final(self)@ == old(self)@.insert(trb, event),
    {
        self.events.insert(trb, event);
    }

    /// The event of a TRB, where one has come in.
    pub fn get_finished(&self, trb: u64) -> (event: Option<TransferEvent>)
        ensures
            event == event_of(self@, trb),
            event == (if self@.contains_key(trb) {
                Some(self@[trb])
            } else {
                None
            }),
    {
        match self.events.get(&trb) {
            Some(event) => Some(*event),
            None => None,
        }
    }
}

// ---------------------------------------------------------------------------
// Control transfers
// ---------------------------------------------------------------------------

/// The length of a control transfer once the event of `stage` is taken into
/// account: the data stage reports it, and a status stage that comes without one
/// means that all of it was moved.
pub open spec fn control_actual_after(
    control_td: ControlTd,
    stage: ControlStage,
    buffer_len: usize,
    event: TransferEvent,
) -> Option<usize> {
    match stage {
        ControlStage::Setup => control_td.actual,
        ControlStage::Data => Some(
            minus_or_zero(buffer_len as int, event.remaining() as int) as usize,
        ),
        ControlStage::Status => match control_td.actual {
            Some(actual) => Some(actual),
            None => Some(control_td.requested),
        },
    }
}

/// Whether the event of `stage` ends a control transfer: any failure does, and
/// so does the status stage.
pub open spec fn control_stage_ends(stage: ControlStage, event: TransferEvent) -> bool {
    stage == ControlStage::Status || event_verdict(event) is Err
}

/// What walking a control transfer's stages found.
pub struct ControlScan {
    /// The transfer, with its length brought up to date.
    pub control_td: ControlTd,
    /// The TRB and the event that end it, where there are such.
    pub stop: Option<(u64, TransferEvent)>,
}

/// Walks the stages of a control transfer from number `k` on. Stages without an
/// event are passed over.
pub open spec fn control_scan(
    control_td: ControlTd,
    buffer_len: usize,
    finished: Map<u64, TransferEvent>,
    k: int,
) -> ControlScan
    decreases control_td.stages().len() - k,
{
    if k >= control_td.stages().len() {
        ControlScan { control_td, stop: None }
    } else {
        let (trb, stage) = control_td.stages()[k];
        if !finished.contains_key(trb) {
            control_scan(control_td, buffer_len, finished, k + 1)
        } else {
            let event = finished[trb];
            let next = ControlTd {
                actual: control_actual_after(control_td, stage, buffer_len, event),
                ..control_td
            };
            if control_stage_ends(stage, event) {
                ControlScan { control_td: next, stop: Some((trb, event)) }
            } else {
                control_scan(next, buffer_len, finished, k + 1)
            }
        }
    }
}

/// Brings a control transfer up to date with the events of its stages, and
/// returns the event that ends it.
pub fn scan_control(
    control_td: ControlTd,
    buffer_len: usize,
    finished: &FinishedEvents,
) -> (result: (ControlTd, Option<(u64, TransferEvent)>))
    ensures
        result.0 == control_scan(control_td, buffer_len, finished@, 0).control_td,
        result.1 == control_scan(control_td, buffer_len, finished@, 0).stop,
        result.0 == (ControlTd { actual: result.0.actual, ..control_td }),
{
    let stages = control_td.trbs();
    let mut current: ControlTd = control_td;
    let mut k: usize = 0;
    while k < stages.len()
        invariant
            k <= stages@.len(),
            stages@ == control_td.stages(),
            current == (ControlTd { actual: current.actual, ..control_td }),
            current.stages() == control_td.stages(),
            control_scan(current, buffer_len, finished@, k as int) == control_scan(
                control_td,
                buffer_len,
                finished@,
                0,
            ),
        decreases stages@.len() - k,
    {
        let (trb, stage) = stages[k];
        if let Some(event) = finished.get_finished(trb) {
            let remaining: usize = event.trb_transfer_length() as usize;
            let next: ControlTd = ControlTd {
                actual: match stage {
                    ControlStage::Setup => current.actual,
                    ControlStage::Data => Some(buffer_len.saturating_sub(remaining)),
                    ControlStage::Status => match current.actual {
                        Some(actual) => Some(actual),
                        None => Some(current.requested),
                    },
                },
                ..current
            };
            assert(next.stages() =~= control_td.stages());
            match validate_completion_code(event) {
                Ok(()) => {
                    if stage == ControlStage::Status {
                        return (next, Some((trb, event)));
                    }
                },
                Err(_) => {
                    return (next, Some((trb, event)));
                },
            }
            current = next;
        }
        k += 1;
    }
    (current, None)
}

// ---------------------------------------------------------------------------
// Isochronous transfers
// ---------------------------------------------------------------------------

/// Packets after `event` came in for number `index` with `actual` bytes. Where
/// the packet is the last one, or the event ends the transfer, earlier packets
/// that nothing was heard of count as empty.
pub open spec fn iso_recorded(
    packets: Seq<IsoPacketTd>,
    index: int,
    event: TransferEvent,
    actual: usize,
    fatal: bool,
) -> Seq<IsoPacketTd> {
    let closes = packets[index].final_packet || fatal;
    Seq::new(
        packets.len(),
        |i: int|
            if i == index {
                IsoPacketTd { event: Some(event), actual: Some(actual), ..packets[i] }
            } else if closes && i < index && packets[i].actual is None {
                IsoPacketTd { actual: Some(0), ..packets[i] }
            } else {
                packets[i]
            },
    )
}

/// Whether every packet has a length.
pub open spec fn iso_all_done(packets: Seq<IsoPacketTd>) -> bool {
    forall|i: int| 0 <= i < packets.len() ==> (#[trigger] packets[i]).actual is Some
}

/// Whether recording packet `index` completes the transfer.
pub open spec fn iso_completes(
    packets: Seq<IsoPacketTd>,
    index: int,
    event: TransferEvent,
    actual: usize,
    fatal: bool,
) -> bool {
    packets[index].final_packet || fatal || iso_all_done(
        iso_recorded(packets, index, event, actual, fatal),
    )
}

/// The event that ends an isochronous transfer.
#[derive(Clone, Copy, Debug)]
pub struct IsoStop {
    pub trb: u64,
    pub event: TransferEvent,
    /// Why the packet of the event has no length, where it has none.
    pub failure: Option<TransferError>,
}

/// What walking an isochronous transfer's packets found.
pub struct IsoScan {
    pub packets: Seq<IsoPacketTd>,
    pub stop: Option<IsoStop>,
}

/// The length that packet `index` asks for; the one packet of an empty transfer
/// asks for nothing.
pub open spec fn requested_length(lengths: Seq<usize>, index: int) -> usize {
    if index < lengths.len() {
        lengths[index]
    } else {
        0
    }
}

/// Walks the packets of an isochronous transfer from number `k` on. Packets that
/// are done, or that have no event, are passed over.
pub open spec fn iso_scan(
    packets: Seq<IsoPacketTd>,
    lengths: Seq<usize>,
    finished: Map<u64, TransferEvent>,
    k: int,
) -> IsoScan
    decreases packets.len() - k,
{
    if k >= packets.len() {
        IsoScan { packets, stop: None }
    } else if packets[k].actual is Some || !finished.contains_key(packets[k].trb) {
        iso_scan(packets, lengths, finished, k + 1)
    } else {
        let trb = packets[k].trb;
        let event = finished[trb];
        match iso_actual_length(requested_length(lengths, k), event) {
            Err(err) => IsoScan { packets, stop: Some(IsoStop { trb, event, failure: Some(err) }) },
            Ok(actual) => {
                let next = iso_recorded(packets, k, event, actual, iso_is_fatal(event));
                if iso_completes(packets, k, event, actual, iso_is_fatal(event)) {
                    IsoScan { packets: next, stop: Some(IsoStop { trb, event, failure: None }) }
                } else {
                    iso_scan(next, lengths, finished, k + 1)
                }
            },
        }
    }
}

impl TdView {
    /// The packets of an isochronous request.
    pub open spec fn packets(self) -> Seq<IsoPacketTd> {
        self.kind->packets
    }

    /// The packet lengths of an isochronous request.
    pub open spec fn lengths(self) -> Seq<usize> {
        self.transfer.kind->packet_lengths
    }

    /// The request with other packets.
    pub open spec fn with_packets(self, packets: Seq<IsoPacketTd>) -> TdView {
        TdView { kind: TdKindView::Iso { packets }, ..self }
    }
}

impl SubmittedTd {
    /// Number of packets of an isochronous request.
    pub fn iso_packet_count(&self) -> (count: Option<usize>)
        ensures
            match self@.kind {
                TdKindView::Iso { packets } => count == Some(packets.len() as usize),
                _ => count is None,
            },
    {
        match &self.kind {
            SubmittedTdKind::Iso { packets } => Some(packets.len()),
            _ => None,
        }
    }

    /// Whether nothing is left to hear of a packet; true of one that is not there.
    pub fn iso_packet_done(&self, index: usize) -> (done: bool)
        ensures
            done == match self@.kind {
                TdKindView::Iso { packets } => index >= packets.len() || packets[index as int].actual is Some,
                _ => true,
            },
    {
        match &self.kind {
            SubmittedTdKind::Iso { packets } => {
                if index < packets.len() {
                    packets[index].actual.is_some()
                } else {
                    true
                }
            },
            _ => true,
        }
    }

    /// The TRB of a packet and the length that it asks for.
    pub fn iso_packet_info(&self, index: usize) -> (info: Option<(u64, usize)>)
        ensures
            match (self@.kind, self@.transfer.kind) {
                (
                    TdKindView::Iso { packets },
                    TransferKindView::Isochronous { packet_lengths },
                ) if index < packets.len() => info == Some(
                    (packets[index as int].trb, requested_length(packet_lengths, index as int)),
                ),
                _ => info is None,
            },
    {
        match &self.kind {
            SubmittedTdKind::Iso { packets } => {
                if index >= packets.len() {
                    return None;
                }
                match &self.transfer.kind {
                    TransferKind::Isochronous { packet_lengths } => {
                        let requested: usize = if index < packet_lengths.len() {
                            packet_lengths[index]
                        } else {
                            0
                        };
                        Some((packets[index].trb, requested))
                    },
                    _ => None,
                }
            },
            _ => None,
        }
    }
}

/// Records the event of packet `index`, and says whether that completes the
/// transfer.
fn record_iso_packet(
    packets: &mut Vec<IsoPacketTd>,
    index: usize,
    event: TransferEvent,
    actual: usize,
    fatal: bool,
) -> (completes: bool)
    requires
        index < old(packets)@.len(),
    ensures
        final(packets)@ == iso_recorded(old(packets)@, index as int, event, actual, fatal),
        completes == iso_completes(old(packets)@, index as int, event, actual, fatal),
{
    let final_packet: bool = packets[index].final_packet;
    if final_packet || fatal {
        let mut i: usize = 0;
        while i < index
            invariant
                i <= index < packets@.len(),
                packets@.len() == old(packets)@.len(),
                forall|j: int|
                    #![trigger packets@[j]]
                    0 <= j < packets@.len() ==> packets@[j] == (if j < i && old(
                        packets,
                    )@[j].actual is None {
                        IsoPacketTd { actual: Some(0), ..old(packets)@[j] }
                    } else {
                        old(packets)@[j]
                    }),
            decreases index - i,
        {
            let packet = packets[i];
            if packet.actual.is_none() {
                packets.set(i, IsoPacketTd { actual: Some(0), ..packet });
            }
            i += 1;
        }
    }
    let packet = packets[index];
    packets.set(index, IsoPacketTd { event: Some(event), actual: Some(actual), ..packet });
    assert(packets@ =~= iso_recorded(old(packets)@, index as int, event, actual, fatal));
    if final_packet || fatal {
        return true;
    }
    let mut i: usize = 0;
    while i < packets.len()
        invariant
            i <= packets@.len(),
            forall|j: int| 0 <= j < i ==> (#[trigger] packets@[j]).actual is Some,
            packets@ == iso_recorded(old(packets)@, index as int, event, actual, fatal),
            index < old(packets)@.len(),
            !old(packets)@[index as int].final_packet,
            !fatal,
        decreases packets@.len() - i,
    {
        if packets[i].actual.is_none() {
            assert(!iso_all_done(packets@));
            return false;
        }
        i += 1;
    }
    true
}

/// Recording an event keeps what packets keep to.
pub proof fn lemma_recorded_keeps_wf(
    packets: Seq<IsoPacketTd>,
    lengths: Seq<usize>,
    index: int,
    event: TransferEvent,
    actual: usize,
    fatal: bool,
)
    requires
        iso_packets_wf(packets, lengths),
        0 <= index < packets.len(),
        actual <= iso_length_bound(requested_length(lengths, index)),
    ensures
        iso_packets_wf(iso_recorded(packets, index, event, actual, fatal), lengths),
{
    let next = iso_recorded(packets, index, event, actual, fatal);
    assert forall|i: int|
        #![trigger next[i]]
        0 <= i < next.len() implies {
        &&& next[i].final_packet <==> i == next.len() - 1
        &&& i < lengths.len() ==> (next[i].actual matches Some(a) ==> a <= iso_length_bound(
            lengths[i],
        ))
    } by {
        assert(packets[i].final_packet <==> i == packets.len() - 1);
    }
}

/// Brings an isochronous request up to date with the events of its packets, and
/// returns the event that ends it.
pub fn scan_iso(submitted: SubmittedTd, finished: &FinishedEvents) -> (result: (
    SubmittedTd,
    Option<IsoStop>,
))
    requires
        submitted@.wf(),
        submitted@.unfinished(),
        submitted@.is_iso(),
    ensures
        result.0@ == submitted@.with_packets(
            iso_scan(submitted@.packets(), submitted@.lengths(), finished@, 0).packets,
        ),
        result.1 == iso_scan(submitted@.packets(), submitted@.lengths(), finished@, 0).stop,
        result.0@.wf(),
        result.1 is None ==> result.0@.unfinished(),
        result.0@.kind.trbs() == submitted@.kind.trbs(),
{
    let ghost start = submitted@;
    let mut td = submitted;
    let count: usize = match td.iso_packet_count() {
        Some(count) => count,
        None => 0,
    };
    let mut index: usize = 0;
    while index < count
        invariant
            start == submitted@,
            index <= count == start.packets().len(),
            start.is_iso(),
            td@.wf(),
            td@.unfinished(),
            td@.is_iso(),
            td@ == start.with_packets(td@.packets()),
            td@.kind.trbs() == start.kind.trbs(),
            iso_scan(td@.packets(), start.lengths(), finished@, index as int) == iso_scan(
                start.packets(),
                start.lengths(),
                finished@,
                0,
            ),
            td@.packets().len() == count,
        decreases count - index,
    {
        if !td.iso_packet_done(index) {
            if let Some((trb, requested)) = td.iso_packet_info(index) {
                if let Some(event) = finished.get_finished(trb) {
                    match iso_packet_actual_length(requested, event) {
                        Err(err) => {
                            return (td, Some(IsoStop { trb, event, failure: Some(err) }));
                        },
                        Ok(actual) => {
                            let fatal: bool = iso_packet_is_fatal(event);
                            let ghost before = td@;
                            let SubmittedTd { transfer, kind, trb_count, cancelled } = td;
                            let mut packets: Vec<IsoPacketTd> = match kind {
                                SubmittedTdKind::Iso { packets } => packets,
                                _ => Vec::new(),
                            };
                            let completes: bool = record_iso_packet(
                                &mut packets,
                                index,
                                event,
                                actual,
                                fatal,
                            );
                            td =
                            SubmittedTd {
                                transfer,
                                kind: SubmittedTdKind::Iso { packets },
                                trb_count,
                                cancelled,
                            };
                            proof {
                                lemma_recorded_keeps_wf(
                                    before.packets(),
                                    before.lengths(),
                                    index as int,
                                    event,
                                    actual,
                                    fatal,
                                );
                                assert(td@.kind.trbs() =~= before.kind.trbs());
                                assert(td@.packets() == iso_recorded(
                                    before.packets(),
                                    index as int,
                                    event,
                                    actual,
                                    fatal,
                                ));
                            }
                            if completes {
                                return (td, Some(IsoStop { trb, event, failure: None }));
                            }
                        },
                    }
                }
            }
        }
        index += 1;
    }
    (td, None)
}

// ---------------------------------------------------------------------------
// What a walk comes to
// ---------------------------------------------------------------------------

/// A packet with its event taken into account, where it has one that is new.
pub open spec fn iso_packet_seen(
    packet: IsoPacketTd,
    requested: usize,
    finished: Map<u64, TransferEvent>,
) -> IsoPacketTd {
    if packet.actual is Some || !finished.contains_key(packet.trb) {
        packet
    } else {
        let event = finished[packet.trb];
        IsoPacketTd {
            event: Some(event),
            actual: Some(iso_actual_length(requested, event)->Ok_0),
            ..packet
        }
    }
}

proof fn lemma_iso_walk_without_end(
    packets: Seq<IsoPacketTd>,
    lengths: Seq<usize>,
    finished: Map<u64, TransferEvent>,
    k: int,
)
    requires
        0 <= k,
        iso_scan(packets, lengths, finished, k).stop is None,
    ensures
        iso_scan(packets, lengths, finished, k).packets == Seq::new(
            packets.len(),
            |i: int|
                if i < k {
                    packets[i]
                } else {
                    iso_packet_seen(packets[i], requested_length(lengths, i), finished)
                },
        ),
    decreases packets.len() - k,
{
    let expected = Seq::new(
        packets.len(),
        |i: int|
            if i < k {
                packets[i]
            } else {
                iso_packet_seen(packets[i], requested_length(lengths, i), finished)
            },
    );
    if k >= packets.len() {
        assert(packets =~= expected);
    } else if packets[k].actual is Some || !finished.contains_key(packets[k].trb) {
        lemma_iso_walk_without_end(packets, lengths, finished, k + 1);
        assert(iso_scan(packets, lengths, finished, k + 1).packets =~= expected);
    } else {
        let event = finished[packets[k].trb];
        let actual = iso_actual_length(requested_length(lengths, k), event)->Ok_0;
        let next = iso_recorded(packets, k, event, actual, iso_is_fatal(event));
        lemma_iso_walk_without_end(next, lengths, finished, k + 1);
        assert(iso_scan(next, lengths, finished, k + 1).packets =~= expected);
    }
}

/// As long as an isochronous transfer does not end, each event is recorded with its
/// own packet, and the packets without a new event stay as they are.
pub proof fn law_iso_events_stay_with_their_packets(
    packets: Seq<IsoPacketTd>,
    lengths: Seq<usize>,
    finished: Map<u64, TransferEvent>,
)
    requires
        iso_scan(packets, lengths, finished, 0).stop is None,
    ensures
        iso_scan(packets, lengths, finished, 0).packets == Seq::new(
            packets.len(),
            |i: int| iso_packet_seen(packets[i], requested_length(lengths, i), finished),
        ),
{
    lemma_iso_walk_without_end(packets, lengths, finished, 0);
    assert(iso_scan(packets, lengths, finished, 0).packets =~= Seq::new(
        packets.len(),
        |i: int| iso_packet_seen(packets[i], requested_length(lengths, i), finished),
    ));
}

/// Whether `stop` is the event of packet `i`, which had none before.
pub open spec fn stops_at(
    packets: Seq<IsoPacketTd>,
    lengths: Seq<usize>,
    finished: Map<u64, TransferEvent>,
    stop: IsoStop,
    i: int,
) -> bool {
    &&& 0 <= i < packets.len()
    &&& packets[i].trb == stop.trb
    &&& packets[i].actual is None
    &&& finished.contains_key(stop.trb)
    &&& finished[stop.trb] == stop.event
    &&& stop.failure == (match iso_actual_length(requested_length(lengths, i), stop.event) {
        Ok(_) => None::<TransferError>,
        Err(err) => Some(err),
    })
}

proof fn lemma_iso_walk_with_end(
    packets: Seq<IsoPacketTd>,
    lengths: Seq<usize>,
    finished: Map<u64, TransferEvent>,
    k: int,
)
    requires
        0 <= k,
        iso_scan(packets, lengths, finished, k).stop is Some,
    ensures
        exists|i: int| #[trigger]
            stops_at(
                packets,
                lengths,
                finished,
                iso_scan(packets, lengths, finished, k).stop->0,
                i,
            ),
    decreases packets.len() - k,
{
    let stop = iso_scan(packets, lengths, finished, k).stop->0;
    if k < packets.len() {
        if packets[k].actual is Some || !finished.contains_key(packets[k].trb) {
            lemma_iso_walk_with_end(packets, lengths, finished, k + 1);
        } else {
            let event = finished[packets[k].trb];
            let result = iso_actual_length(requested_length(lengths, k), event);
            if result is Ok && !iso_completes(
                packets,
                k,
                event,
                result->Ok_0,
                iso_is_fatal(event),
            ) {
                let next = iso_recorded(packets, k, event, result->Ok_0, iso_is_fatal(event));
                lemma_iso_walk_with_end(next, lengths, finished, k + 1);
                let i = choose|i: int| #[trigger] stops_at(next, lengths, finished, stop, i);
                assert(stops_at(packets, lengths, finished, stop, i));
            } else {
                assert(stops_at(packets, lengths, finished, stop, k));
            }
        }
    }
}

/// An isochronous transfer ends only by the event of one of its own packets, and
/// fails by it exactly where that event has no length to report.
pub proof fn law_iso_ends_by_an_event_of_its_own(
    packets: Seq<IsoPacketTd>,
    lengths: Seq<usize>,
    finished: Map<u64, TransferEvent>,
)
    requires
        iso_scan(packets, lengths, finished, 0).stop is Some,
    ensures
        exists|i: int| #[trigger]
            stops_at(
                packets,
                lengths,
                finished,
                iso_scan(packets, lengths, finished, 0).stop->0,
                i,
            ),
{
    lemma_iso_walk_with_end(packets, lengths, finished, 0);
}

/// Whether packet `i` has a new event that ends an isochronous transfer: any event
/// of the last packet does, and so does a fatal event of another.
pub open spec fn iso_ends_at(
    packets: Seq<IsoPacketTd>,
    finished: Map<u64, TransferEvent>,
    i: int,
) -> bool {
    &&& packets[i].actual is None
    &&& finished.contains_key(packets[i].trb)
    &&& i == packets.len() - 1 || iso_is_fatal(finished[packets[i].trb])
}

proof fn lemma_iso_walk(
    packets: Seq<IsoPacketTd>,
    lengths: Seq<usize>,
    finished: Map<u64, TransferEvent>,
    k: int,
)
    requires
        packets.len() > 0,
        forall|i: int|
            0 <= i < packets.len() ==> ((#[trigger] packets[i]).final_packet <==> i
                == packets.len() - 1),
        packets.last().actual is None,
        0 <= k <= packets.len(),
        forall|i: int| 0 <= i < k ==> !#[trigger] iso_ends_at(packets, finished, i),
    ensures
        match iso_scan(packets, lengths, finished, k).stop {
            Some(stop) => exists|i: int|
                #![trigger iso_ends_at(packets, finished, i)]
                0 <= i < packets.len() && iso_ends_at(packets, finished, i) && packets[i].trb
                    == stop.trb && finished[stop.trb] == stop.event && (forall|j: int|
                    0 <= j < i ==> !#[trigger] iso_ends_at(packets, finished, j)),
            None => forall|i: int|
                0 <= i < packets.len() ==> !#[trigger] iso_ends_at(packets, finished, i),
        },
    decreases packets.len() - k,
{
    if k < packets.len() {
        if packets[k].actual is Some || !finished.contains_key(packets[k].trb) {
            assert(!iso_ends_at(packets, finished, k));
            lemma_iso_walk(packets, lengths, finished, k + 1);
        } else {
            let event = finished[packets[k].trb];
            let result = iso_actual_length(requested_length(lengths, k), event);
            law_iso_error_is_fatal(requested_length(lengths, k), event);
            if packets[k].final_packet || iso_is_fatal(event) {
                assert(iso_ends_at(packets, finished, k));
            } else {
                assert(!iso_ends_at(packets, finished, k));
                let last = packets.len() - 1;
                let next = iso_recorded(packets, k, event, result->Ok_0, false);
                assert(next[last].actual is None);
                assert(!iso_all_done(next));
                assert forall|i: int| 0 <= i < packets.len() implies #[trigger] iso_ends_at(
                    next,
                    finished,
                    i,
                ) == iso_ends_at(packets, finished, i) by {
                    assert(next[i].trb == packets[i].trb);
                }
                lemma_iso_walk(next, lengths, finished, k + 1);
                match iso_scan(next, lengths, finished, k + 1).stop {
                    Some(stop) => {
                        let i = choose|i: int|
                            #![trigger iso_ends_at(next, finished, i)]
                            0 <= i < next.len() && iso_ends_at(next, finished, i) && next[i].trb
                                == stop.trb && finished[stop.trb] == stop.event && (forall|j: int|
                                0 <= j < i ==> !#[trigger] iso_ends_at(next, finished, j));
                        assert(iso_ends_at(packets, finished, i));
                        assert forall|j: int| 0 <= j < i implies !#[trigger] iso_ends_at(
                            packets,
                            finished,
                            j,
                        ) by {
                            assert(!iso_ends_at(next, finished, j));
                        }
                    },
                    None => {
                        assert forall|i: int| 0 <= i < packets.len() implies !#[trigger] iso_ends_at(
                            packets,
                            finished,
                            i,
                        ) by {
                            assert(!iso_ends_at(next, finished, i));
                        }
                    },
                }
            }
        }
    }
}

/// An isochronous transfer whose last packet is still to come ends by the first of
/// its packets whose event ends it, and goes on as long as there is none.
pub proof fn law_iso_ends_at_the_first_ending_packet(
    packets: Seq<IsoPacketTd>,
    lengths: Seq<usize>,
    finished: Map<u64, TransferEvent>,
)
    requires
        iso_packets_wf(packets, lengths),
        packets.last().actual is None,
    ensures
        match iso_scan(packets, lengths, finished, 0).stop {
            Some(stop) => exists|i: int|
                #![trigger iso_ends_at(packets, finished, i)]
                0 <= i < packets.len() && iso_ends_at(packets, finished, i) && packets[i].trb
                    == stop.trb && finished[stop.trb] == stop.event && (forall|j: int|
                    0 <= j < i ==> !#[trigger] iso_ends_at(packets, finished, j)),
            None => forall|i: int|
                0 <= i < packets.len() ==> !#[trigger] iso_ends_at(packets, finished, i),
        },
{
    lemma_iso_walk(packets, lengths, finished, 0);
}

/// Whether the event of stage `i`, if any, ends a control transfer.
pub open spec fn control_ends_at(
    control_td: ControlTd,
    finished: Map<u64, TransferEvent>,
    i: int,
) -> bool {
    let (trb, stage) = control_td.stages()[i];
    finished.contains_key(trb) && control_stage_ends(stage, finished[trb])
}

proof fn lemma_control_walk(
    control_td: ControlTd,
    buffer_len: usize,
    finished: Map<u64, TransferEvent>,
    k: int,
)
    requires
        0 <= k <= control_td.stages().len(),
        forall|i: int| 0 <= i < k ==> !#[trigger] control_ends_at(control_td, finished, i),
    ensures
        ({
            let n = control_td.stages().len();
            match control_scan(control_td, buffer_len, finished, k).stop {
                Some((trb, event)) => exists|i: int|
                    #![trigger control_ends_at(control_td, finished, i)]
                    0 <= i < n && control_ends_at(control_td, finished, i)
                        && control_td.stages()[i].0 == trb && finished[trb] == event && (
                    forall|j: int|
                        0 <= j < i ==> !#[trigger] control_ends_at(control_td, finished, j)),
                None => forall|i: int|
                    0 <= i < n ==> !#[trigger] control_ends_at(control_td, finished, i),
            }
        }),
    decreases control_td.stages().len() - k,
{
    if k < control_td.stages().len() {
        let (trb, stage) = control_td.stages()[k];
        if !finished.contains_key(trb) {
            assert(!control_ends_at(control_td, finished, k));
            lemma_control_walk(control_td, buffer_len, finished, k + 1);
        } else if !control_stage_ends(stage, finished[trb]) {
            assert(!control_ends_at(control_td, finished, k));
            let next = ControlTd {
                actual: control_actual_after(control_td, stage, buffer_len, finished[trb]),
                ..control_td
            };
            assert(next.stages() =~= control_td.stages());
            assert forall|i: int| 0 <= i < k + 1 implies !#[trigger] control_ends_at(
                next,
                finished,
                i,
            ) by {
                assert(!control_ends_at(control_td, finished, i));
            }
            lemma_control_walk(next, buffer_len, finished, k + 1);
            assert(forall|i: int| #[trigger]
                control_ends_at(next, finished, i) == control_ends_at(control_td, finished, i));
        } else {
            assert(control_ends_at(control_td, finished, k));
        }
    }
}

/// A control transfer ends by the first of its stages whose event ends it, and
/// goes on as long as there is none.
pub proof fn law_control_ends_at_the_first_ending_stage(
    control_td: ControlTd,
    buffer_len: usize,
    finished: Map<u64, TransferEvent>,
)
    ensures
        ({
            let n = control_td.stages().len();
            match control_scan(control_td, buffer_len, finished, 0).stop {
                Some((trb, event)) => exists|i: int|
                    #![trigger control_ends_at(control_td, finished, i)]
                    0 <= i < n && control_ends_at(control_td, finished, i)
                        && control_td.stages()[i].0 == trb && finished[trb] == event && (
                    forall|j: int|
                        0 <= j < i ==> !#[trigger] control_ends_at(control_td, finished, j)),
                None => forall|i: int|
                    0 <= i < n ==> !#[trigger] control_ends_at(control_td, finished, i),
            }
        }),
{
    lemma_control_walk(control_td, buffer_len, finished, 0);
}

/// The event that came in last for a TRB is the one that is found for it, and the
/// events of other TRBs are found as before. Where none has come in, none is found.
pub proof fn law_last_event_of_a_trb_is_found(
    events: Map<u64, TransferEvent>,
    trb: u64,
    other: u64,
    first: TransferEvent,
    last: TransferEvent,
)
    ensures
        event_of(with_event(with_event(events, trb, first), trb, last), trb) == Some(last),
        other != trb ==> event_of(with_event(events, trb, last), other) == event_of(events, other),
        event_of(Map::empty(), trb) is None,
{
}

} // verus!
