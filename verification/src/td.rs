//! Transfer descriptors: the TRBs of one submitted request, and what the events
//! that come back for them make of it.

use vstd::prelude::*;

use crate::completion::TransferEvent;
use crate::completion::iso_actual_length;
use crate::completion::iso_length_bound;
use crate::completion::iso_packet_actual_length;
use crate::completion::iso_packet_completion_code;
use crate::completion::iso_reported_code;
use crate::completion::minus_or_zero;
use crate::endpoint::TransferKind;
use crate::endpoint::TransferKindView;
use crate::error::TransferError;
use crate::error::TransferFault;
use crate::transfer::Transfer;
use crate::transfer::TransferView;
use crate::usb::Direction;

verus! {

/// Stage of a control transfer.
#[derive(Clone, Copy, Debug, PartialEq, Eq, Structural)]
pub enum ControlStage {
    Setup,
    Data,
    Status,
}

/// The TRBs of a control transfer, by bus address, and what is known of its
/// data stage.
#[derive(Clone, Copy, Debug, PartialEq, Eq, Structural)]
pub struct ControlTd {
    pub setup_trb: u64,
    pub data_trb: Option<u64>,
    pub status_trb: u64,
    pub requested: usize,
    pub actual: Option<usize>,
}

impl ControlTd {
    /// The stages in the order in which the controller runs them.
    pub open spec fn stages(self) -> Seq<(u64, ControlStage)> {
        match self.data_trb {
            Some(data_trb) => seq![
                (self.setup_trb, ControlStage::Setup),
                (data_trb, ControlStage::Data),
                (self.status_trb, ControlStage::Status),
            ],
            None => seq![
                (self.setup_trb, ControlStage::Setup),
                (self.status_trb, ControlStage::Status),
            ],
        }
    }

    pub fn trbs(self) -> (stages: Vec<(u64, ControlStage)>)
        ensures
            stages@ == self.stages(),
    {
        let mut stages: Vec<(u64, ControlStage)> = Vec::new();
        stages.push((self.setup_trb, ControlStage::Setup));
        if let Some(data_trb) = self.data_trb {
            stages.push((data_trb, ControlStage::Data));
        }
        stages.push((self.status_trb, ControlStage::Status));
        assert(stages@ =~= self.stages());
        stages
    }
}

/// One packet of an isochronous TD.
#[derive(Clone, Copy, Debug, PartialEq, Eq)]
pub struct IsoPacketTd {
    pub trb: u64,
    pub final_packet: bool,
    pub event: Option<TransferEvent>,
    pub actual: Option<usize>,
}

/// The TRBs of a submitted request.
#[derive(Debug)]
pub enum SubmittedTdKind {
    Normal { completion_trb: u64 },
    Control(ControlTd),
    Iso { packets: Vec<IsoPacketTd> },
}

/// Model of [`SubmittedTdKind`].
pub enum TdKindView {
    Normal { completion_trb: u64 },
    Control(ControlTd),
    Iso { packets: Seq<IsoPacketTd> },
}

impl View for SubmittedTdKind {
    type V = TdKindView;

    open spec fn view(&self) -> TdKindView {
        match self {
            SubmittedTdKind::Normal { completion_trb } => TdKindView::Normal {
                completion_trb: *completion_trb,
            },
            SubmittedTdKind::Control(control_td) => TdKindView::Control(*control_td),
            SubmittedTdKind::Iso { packets } => TdKindView::Iso { packets: packets@ },
        }
    }
}

impl TdKindView {
    /// Bus addresses of the TRBs, in ring order.
    pub open spec fn trbs(self) -> Seq<u64> {
        match self {
            TdKindView::Normal { completion_trb } => seq![completion_trb],
            TdKindView::Control(control_td) => Seq::new(
                control_td.stages().len(),
                |i: int| control_td.stages()[i].0,
            ),
            TdKindView::Iso { packets } => Seq::new(packets.len(), |i: int| packets[i].trb),
        }
    }
}

/// A request that the controller has been told of.
#[derive(Debug)]
pub struct SubmittedTd {
    pub transfer: Transfer,
    pub kind: SubmittedTdKind,
    pub trb_count: usize,
    pub cancelled: bool,
}

/// Model of [`SubmittedTd`].
pub struct TdView {
    pub transfer: TransferView,
    pub kind: TdKindView,
    pub trb_count: usize,
    pub cancelled: bool,
}

impl View for SubmittedTd {
    type V = TdView;

    open spec fn view(&self) -> TdView {
        TdView {
            transfer: self.transfer@,
            kind: self.kind@,
            trb_count: self.trb_count,
            cancelled: self.cancelled,
        }
    }
}

/// The sum of `lengths`.
pub open spec fn total(lengths: Seq<usize>) -> nat
    decreases lengths.len(),
{
    if lengths.len() == 0 {
        0
    } else {
        total(lengths.drop_last()) + lengths.last() as nat
    }
}

/// The most that events can make of packets of the given lengths, all together.
pub open spec fn iso_budget(lengths: Seq<usize>) -> int
    decreases lengths.len(),
{
    if lengths.len() == 0 {
        0
    } else {
        iso_budget(lengths.drop_last()) + iso_length_bound(lengths.last())
    }
}

/// What the packets of an isochronous TD keep to while it is in flight.
pub open spec fn iso_packets_wf(packets: Seq<IsoPacketTd>, lengths: Seq<usize>) -> bool {
    &&& packets.len() == (if lengths.len() == 0 {
        1
    } else {
        lengths.len()
    })
    &&& iso_budget(lengths) <= usize::MAX
    &&& forall|i: int|
        #![trigger packets[i]]
        0 <= i < packets.len() ==> {
            &&& packets[i].final_packet <==> i == packets.len() - 1
            &&& i < lengths.len() ==> (packets[i].actual matches Some(actual) ==> actual
                <= iso_length_bound(lengths[i]))
        }
}

impl TdView {
    /// What the parts of a request keep to.
    pub open spec fn wf(self) -> bool {
        &&& self.trb_count == self.kind.trbs().len()
        &&& self.trb_count >= 1
        &&& match (self.kind, self.transfer.kind) {
            (TdKindView::Normal { .. }, TransferKindView::Bulk) => true,
            (TdKindView::Normal { .. }, TransferKindView::Interrupt) => true,
            (TdKindView::Control(control_td), TransferKindView::Control(_)) => {
                &&& control_td.requested == self.transfer.buffer_len()
                &&& control_td.data_trb is Some <==> self.transfer.buffer_len() > 0
            },
            (
                TdKindView::Iso { packets },
                TransferKindView::Isochronous { packet_lengths },
            ) => iso_packets_wf(packets, packet_lengths),
            _ => false,
        }
    }

    pub open spec fn is_iso(self) -> bool {
        self.kind is Iso
    }

    /// Whether an isochronous request still waits for its last packet. The event of
    /// that packet ends the request, so this holds of every request in flight.
    pub open spec fn unfinished(self) -> bool {
        self.kind matches TdKindView::Iso { packets } ==> packets.last().actual is None
    }
}

// ---------------------------------------------------------------------------
// From an event to the end of a transfer
// ---------------------------------------------------------------------------

/// Whether an event lets its transfer succeed.
pub open spec fn event_verdict(event: TransferEvent) -> Result<(), TransferError> {
    match event.code() {
        Ok(code) => code.verdict(),
        Err(_) => Err(TransferError::Other(TransferFault::TransferFailed)),
    }
}

pub fn validate_completion_code(event: TransferEvent) -> (result: Result<(), TransferError>)
    ensures
        result == event_verdict(event),
{
    match event.completion_code() {
        Ok(code) => code.to_result(),
        Err(_) => Err(TransferError::Other(TransferFault::TransferFailed)),
    }
}

/// What packet `i` comes to when the transfer ends with `event` on `event_trb`: a
/// packet that was recorded keeps its length, the packet of the event takes it
/// from there, and a packet that nothing was heard of counts as empty.
pub open spec fn iso_packet_final(
    packet: IsoPacketTd,
    requested: usize,
    event_trb: u64,
    event: TransferEvent,
) -> Result<usize, TransferError> {
    match packet.actual {
        Some(actual) => Ok(actual),
        None => if packet.trb == event_trb {
            iso_actual_length(requested, event)
        } else {
            Ok(0)
        },
    }
}

/// The completion code that is reported for a packet when the transfer ends.
pub open spec fn iso_packet_code(
    packet: IsoPacketTd,
    event_trb: u64,
    event: TransferEvent,
) -> Option<u8> {
    match packet.event {
        Some(own) => iso_reported_code(own),
        None => if packet.trb == event_trb {
            iso_reported_code(event)
        } else {
            None
        },
    }
}

/// Whether some packet has no length to report when the transfer ends.
pub open spec fn iso_has_failure(
    packets: Seq<IsoPacketTd>,
    lengths: Seq<usize>,
    event_trb: u64,
    event: TransferEvent,
) -> bool {
    exists|i: int|
        #![trigger packets[i]]
        0 <= i < packets.len() && iso_packet_final(packets[i], lengths[i], event_trb, event) is Err
}

/// The end of an isochronous transfer.
pub open spec fn iso_finished(
    transfer: TransferView,
    packets: Seq<IsoPacketTd>,
    event_trb: u64,
    event: TransferEvent,
) -> Result<TransferView, TransferError> {
    match transfer.kind {
        TransferKindView::Isochronous { packet_lengths } => {
            if packets.len() != packet_lengths.len() {
                Err(
                    TransferError::Other(
                        TransferFault::IsoPacketCount {
                            ids: packets.len() as usize,
                            packets: packet_lengths.len() as usize,
                        },
                    ),
                )
            } else if iso_has_failure(packets, packet_lengths, event_trb, event) {
                Err(iso_actual_length(0, event)->Err_0)
            } else {
                let actual_lengths = Seq::new(
                    packets.len(),
                    |i: int|
                        iso_packet_final(packets[i], packet_lengths[i], event_trb, event)->Ok_0,
                );
                Ok(
                    TransferView {
                        transfer_len: total(actual_lengths) as usize,
                        iso_packet_actual_lengths: actual_lengths,
                        iso_packet_completion_codes: Seq::new(
                            packets.len(),
                            |i: int| iso_packet_code(packets[i], event_trb, event),
                        ),
                        ..transfer
                    },
                )
            }
        },
        _ => Err(TransferError::Other(TransferFault::NotIsochronous)),
    }
}

/// The end of a transfer whose event did not fail it.
pub open spec fn td_finished(td: TdView, event_trb: u64, event: TransferEvent) -> Result<
    TransferView,
    TransferError,
> {
    match td.kind {
        TdKindView::Iso { packets } => iso_finished(td.transfer, packets, event_trb, event),
        TdKindView::Control(control_td) => Ok(
            TransferView {
                transfer_len: match control_td.actual {
                    Some(actual) => actual,
                    None => control_td.requested,
                },
                ..td.transfer
            },
        ),
        TdKindView::Normal { .. } => Ok(
            TransferView {
                transfer_len: minus_or_zero(
                    td.transfer.buffer_len() as int,
                    event.remaining() as int,
                ) as usize,
                ..td.transfer
            },
        ),
    }
}

/// The end of a request: a cancelled one ends in that, and an isochronous one is
/// judged packet by packet rather than by its last event.
pub open spec fn td_completed(td: TdView, event_trb: u64, event: TransferEvent) -> Result<
    TransferView,
    TransferError,
> {
    if td.cancelled {
        Err(TransferError::Cancelled)
    } else if !td.is_iso() && event_verdict(event) is Err {
        Err(event_verdict(event)->Err_0)
    } else {
        td_finished(td, event_trb, event)
    }
}

/// Whether the CPU has to be shown what the device wrote.
pub open spec fn needs_cpu_sync(finished: Result<TransferView, TransferError>) -> bool {
    finished matches Ok(transfer) && transfer.transfer_len > 0 && transfer.direction
        == Direction::In
}

/// Lengths within their bounds come to a total within the budget.
pub proof fn lemma_total_within_budget(actuals: Seq<usize>, lengths: Seq<usize>)
    requires
        actuals.len() == lengths.len(),
        forall|i: int|
            0 <= i < actuals.len() ==> #[trigger] actuals[i]
                <= iso_length_bound(lengths[i]),
    ensures
        total(actuals) <= iso_budget(lengths),
    decreases actuals.len(),
{
    if actuals.len() > 0 {
        lemma_total_within_budget(actuals.drop_last(), lengths.drop_last());
    }
}

/// Fewer packets cannot come to more.
pub proof fn lemma_budget_of_prefix(lengths: Seq<usize>, n: int)
    requires
        0 <= n <= lengths.len(),
    ensures
        iso_budget(lengths.take(n)) <= iso_budget(lengths),
    decreases lengths.len(),
{
    if n < lengths.len() {
        lemma_budget_of_prefix(lengths.drop_last(), n);
        assert(lengths.drop_last().take(n) =~= lengths.take(n));
    } else {
        assert(lengths.take(n) =~= lengths);
    }
}

/// The lengths and the codes of an isochronous transfer that ends with `event`.
struct IsoSummary {
    actual_lengths: Vec<usize>,
    completion_codes: Vec<Option<u8>>,
    total: usize,
}

fn iso_summary(
    packets: &Vec<IsoPacketTd>,
    lengths: &Vec<usize>,
    event_trb: u64,
    event: TransferEvent,
) -> (result: Result<IsoSummary, TransferError>)
    requires
        iso_packets_wf(packets@, lengths@),
        packets@.len() == lengths@.len(),
    ensures
        match result {
            Ok(summary) => {
                &&& !iso_has_failure(packets@, lengths@, event_trb, event)
                &&& summary.actual_lengths@ == Seq::new(
                    packets@.len(),
                    |i: int|
                        iso_packet_final(packets@[i], lengths@[i], event_trb, event)->Ok_0,
                )
                &&& summary.completion_codes@ == Seq::new(
                    packets@.len(),
                    |i: int| iso_packet_code(packets@[i], event_trb, event),
                )
                &&& summary.total == total(summary.actual_lengths@)
            },
            Err(err) => {
                &&& iso_has_failure(packets@, lengths@, event_trb, event)
                &&& err == iso_actual_length(0, event)->Err_0
            },
        },
{
    let mut actual_lengths: Vec<usize> = Vec::new();
    let mut completion_codes: Vec<Option<u8>> = Vec::new();
    let mut sum: usize = 0;
    let mut index: usize = 0;
    while index < packets.len()
        invariant
            iso_packets_wf(packets@, lengths@),
            packets@.len() == lengths@.len(),
            index <= packets@.len(),
            actual_lengths@.len() == index,
            completion_codes@.len() == index,
            forall|i: int|
                #![trigger packets@[i]]
                #![trigger actual_lengths@[i]]
                0 <= i < index ==> {
                    &&& iso_packet_final(packets@[i], lengths@[i], event_trb, event) == Ok::<
                        usize,
                        TransferError,
                    >(actual_lengths@[i])
                    &&& actual_lengths@[i] <= iso_length_bound(lengths@[i])
                },
            forall|i: int|
                #![trigger completion_codes@[i]]
                0 <= i < index ==> completion_codes@[i] == iso_packet_code(
                    packets@[i],
                    event_trb,
                    event,
                ),
            sum == total(actual_lengths@),
        decreases packets@.len() - index,
    {
        let packet = packets[index];
        let requested: usize = lengths[index];
        let actual: usize = match packet.actual {
            Some(actual) => actual,
            None => {
                if packet.trb == event_trb {
                    match iso_packet_actual_length(requested, event) {
                        Ok(actual) => actual,
                        Err(err) => {
                            assert(iso_packet_final(
                                packets@[index as int],
                                lengths@[index as int],
                                event_trb,
                                event,
                            ) is Err);
                            return Err(err);
                        },
                    }
                } else {
                    0
                }
            },
        };
        let code: Option<u8> = match packet.event {
            Some(own) => iso_packet_completion_code(own),
            None => {
                if packet.trb == event_trb {
                    iso_packet_completion_code(event)
                } else {
                    None
                }
            },
        };
        let ghost before = actual_lengths@;
        actual_lengths.push(actual);
        completion_codes.push(code);
        proof {
            assert(actual_lengths@.drop_last() =~= before);
            assert forall|i: int| 0 <= i < actual_lengths@.len() implies #[trigger] actual_lengths@[i]
                <= iso_length_bound(lengths@.take(index + 1)[i]) by {
                if i < index {
                    assert(actual_lengths@[i] == before[i]);
                }
                assert(lengths@.take(index + 1)[i] == lengths@[i]);
            }
            lemma_total_within_budget(actual_lengths@, lengths@.take(index + 1));
            lemma_budget_of_prefix(lengths@, index + 1);
        }
        sum = sum + actual;
        index += 1;
    }
    assert(actual_lengths@ =~= Seq::new(
        packets@.len(),
        |i: int| iso_packet_final(packets@[i], lengths@[i], event_trb, event)->Ok_0,
    ));
    assert(completion_codes@ =~= Seq::new(
        packets@.len(),
        |i: int| iso_packet_code(packets@[i], event_trb, event),
    ));
    Ok(IsoSummary { actual_lengths, completion_codes, total: sum })
}

/// Ends a transfer with the event that came for `event_trb`.
pub fn transfer_from_completion(
    submitted: SubmittedTd,
    event_trb: u64,
    event: TransferEvent,
) -> (result: Result<Transfer, TransferError>)
    requires
        submitted@.wf(),
    ensures
        match result {
            Ok(transfer) => Ok::<TransferView, TransferError>(transfer@) == td_finished(
                submitted@,
                event_trb,
                event,
            ),
            Err(err) => Err::<TransferView, TransferError>(err) == td_finished(
                submitted@,
                event_trb,
                event,
            ),
        },
{
    let SubmittedTd { transfer, kind, trb_count, cancelled } = submitted;
    let mut transfer = transfer;
    match kind {
        SubmittedTdKind::Iso { packets } => {
            let summary = match &transfer.kind {
                TransferKind::Isochronous { packet_lengths } => {
                    if packets.len() != packet_lengths.len() {
                        return Err(
                            TransferError::Other(
                                TransferFault::IsoPacketCount {
                                    ids: packets.len(),
                                    packets: packet_lengths.len(),
                                },
                            ),
                        );
                    }
                    iso_summary(&packets, packet_lengths, event_trb, event)
                },
                _ => {
                    return Err(TransferError::Other(TransferFault::NotIsochronous));
                },
            };
            match summary {
                Ok(summary) => {
                    transfer.transfer_len = summary.total;
                    transfer.iso_packet_actual_lengths = summary.actual_lengths;
                    transfer.iso_packet_completion_codes = summary.completion_codes;
                    Ok(transfer)
                },
                Err(err) => Err(err),
            }
        },
        SubmittedTdKind::Control(control_td) => {
            transfer.transfer_len =
            match control_td.actual {
                Some(actual) => actual,
                None => control_td.requested,
            };
            Ok(transfer)
        },
        SubmittedTdKind::Normal { completion_trb } => {
            let remaining: usize = event.trb_transfer_length() as usize;
            transfer.transfer_len = transfer.buffer_len().saturating_sub(remaining);
            Ok(transfer)
        },
    }
}

/// The total of no lengths is zero, and one more length adds itself.
pub proof fn law_total_adds_up(lengths: Seq<usize>, length: usize)
    ensures
        total(Seq::empty()) == 0,
        total(lengths.push(length)) == total(lengths) + length,
{
    assert(lengths.push(length).drop_last() =~= lengths);
}

/// The stages of a control transfer: setup first, status last, and data between them
/// where there is a data stage. Each stands with its own TRB.
pub proof fn law_control_stages_are_in_order(control_td: ControlTd)
    ensures
        ({
            let stages = control_td.stages();
            &&& stages.len() == (if control_td.data_trb is Some {
                3int
            } else {
                2
            })
            &&& stages[0].0 == control_td.setup_trb && stages[0].1 is Setup
            &&& stages.last().0 == control_td.status_trb && stages.last().1 is Status
            &&& control_td.data_trb matches Some(data_trb) ==> stages[1].0 == data_trb
                && stages[1].1 is Data
        }),
{
}

/// A submitted request means its fields, and the TRBs of a control or isochronous one
/// are those of its stages or packets, in their order.
pub proof fn law_submitted_request_means_its_fields(td: SubmittedTd, i: int)
    ensures
        td@.transfer == td.transfer@,
        td@.trb_count == td.trb_count,
        td@.cancelled == td.cancelled,
        td.kind matches SubmittedTdKind::Normal { completion_trb } ==> td@.kind.trbs()
            == seq![completion_trb],
        td.kind matches SubmittedTdKind::Control(control_td) ==> td@.kind == TdKindView::Control(
            control_td,
        ) && td@.kind.trbs().len() == control_td.stages().len() && (0 <= i
            < control_td.stages().len() ==> td@.kind.trbs()[i] == control_td.stages()[i].0),
        td.kind matches SubmittedTdKind::Iso { packets } ==> td@.kind == (TdKindView::Iso {
            packets: packets@,
        }) && td@.kind.trbs().len() == packets@.len() && (0 <= i < packets@.len()
            ==> td@.kind.trbs()[i] == packets@[i].trb),
{
}

} // verus!
