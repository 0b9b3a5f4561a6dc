//! From a transfer to the TRBs that put it to the controller.

use vstd::prelude::*;

use crate::completion::EVENT_LENGTH_MAX;
use crate::endpoint::TransferKind;
use crate::endpoint::TransferKindView;
use crate::state::EndpointConfig;
use crate::td::iso_budget;
use crate::td::lemma_budget_of_prefix;
use crate::td::total;
use crate::transfer::Transfer;
use crate::transfer::TransferView;
use crate::trb::IsoStart;
use crate::trb::IsochFields;
use crate::trb::TRB_LENGTH_MAX;
use crate::trb::data_stage_trb;
use crate::trb::data_stage_words;
use crate::trb::normal_trb;
use crate::trb::normal_words;
use crate::trb::setup_stage_trb;
use crate::trb::setup_stage_words;
use crate::trb::status_stage_trb;
use crate::trb::status_stage_words;
use crate::usb::Direction;

verus! {

/// The words of each TRB.
pub open spec fn words_of(trbs: Seq<[u32; 4]>) -> Seq<Seq<u32>> {
    Seq::new(trbs.len(), |i: int| trbs[i]@)
}

// ---------------------------------------------------------------------------
// Isochronous packets
// ---------------------------------------------------------------------------

/// How many packets on the bus `len` bytes take: at least one.
pub open spec fn bus_packets(max_packet_size: usize, len: usize) -> int {
    if max_packet_size == 0 || len == 0 {
        1
    } else {
        (len - 1) / max_packet_size as int + 1
    }
}

/// How many packets on the bus a burst has.
pub open spec fn packets_per_burst(max_burst_size: usize) -> int {
    if max_burst_size == usize::MAX {
        usize::MAX as int
    } else {
        max_burst_size + 1
    }
}

/// The smaller of two numbers.
pub open spec fn min2(a: int, b: int) -> int {
    if a <= b {
        a
    } else {
        b
    }
}

/// The fields of the TRB of one isochronous packet. Bursts are counted from zero,
/// and so are the packets of the last burst; both saturate at the width of their
/// field, while a frame takes the low bits of its own. Only the last packet of a transfer interrupts.
pub open spec fn iso_fields(
    config: EndpointConfig,
    pointer: u64,
    len: usize,
    last_packet: bool,
    frame_id: u16,
    interrupt_on_short_packet: bool,
) -> IsochFields {
    let packets = bus_packets(config.max_packet_size, len);
    let burst = packets_per_burst(config.max_burst_size);
    IsochFields {
        pointer,
        length: len as u32,
        start: if config.iso_start_asap {
            IsoStart::Asap
        } else {
            IsoStart::Frame((frame_id % 0x800) as u16)
        },
        interrupt_on_short_packet,
        burst_count: min2((packets - 1) / burst, 0x1f) as u8,
        last_burst_packet_count: min2((packets - 1) % burst, 0xf) as u8,
        block_event_interrupt: !last_packet,
    }
}

/// The frame in which packet `k` is due: frames count to 2047 and start over.
pub open spec fn frame_id_at(next_iso_frame_id: u16, interval: u8, k: int) -> u16 {
    ((next_iso_frame_id + k * interval) % 0x800) as u16
}

/// How many TRBs an isochronous transfer takes: one for each packet, and one
/// where there is no packet.
pub open spec fn iso_trb_count(lengths: Seq<usize>) -> nat {
    if lengths.len() == 0 {
        1
    } else {
        lengths.len()
    }
}

/// The fields of the TRB of packet `k` of an isochronous transfer: the packets lie
/// one behind the other from `bus_addr` on.
pub open spec fn iso_packet_fields(
    config: EndpointConfig,
    next_iso_frame_id: u16,
    bus_addr: u64,
    lengths: Seq<usize>,
    interrupt_on_short_packet: bool,
    k: int,
) -> IsochFields {
    iso_fields(
        config,
        if lengths.len() == 0 {
            bus_addr
        } else {
            (bus_addr + total(lengths.take(k))) as u64
        },
        if lengths.len() == 0 {
            0
        } else {
            lengths[k]
        },
        k == iso_trb_count(lengths) - 1,
        frame_id_at(next_iso_frame_id, config.interval, k),
        interrupt_on_short_packet,
    )
}

/// The TRBs of an isochronous transfer.
pub open spec fn iso_words(
    config: EndpointConfig,
    next_iso_frame_id: u16,
    bus_addr: u64,
    lengths: Seq<usize>,
    interrupt_on_short_packet: bool,
) -> Seq<Seq<u32>> {
    Seq::new(
        iso_trb_count(lengths),
        |k: int|
            iso_packet_fields(
                config,
                next_iso_frame_id,
                bus_addr,
                lengths,
                interrupt_on_short_packet,
                k,
            ).words(),
    )
}

/// Whether the packets' lengths fit their TRBs, and their addresses the bus.
pub open spec fn iso_fits(bus_addr: u64, lengths: Seq<usize>) -> bool {
    &&& forall|i: int|
        0 <= i < lengths.len() ==> (#[trigger] lengths[i]) as u32 <= TRB_LENGTH_MAX
    &&& lengths.len() > 0 ==> bus_addr + total(lengths.drop_last()) <= u64::MAX
    &&& total(lengths) <= u64::MAX
}

/// `a / b`, rounded up.
pub fn div_ceil(a: usize, b: usize) -> (result: usize)
    requires
        b > 0,
    ensures
        a > 0 ==> result == (a - 1) / b as int + 1,
        a == 0 ==> result == 0,
{
    let quotient: usize = a / b;
    let rest: usize = a % b;
    proof {
        lemma_div_ceil(a as int, b as int);
    }
    if rest == 0 {
        quotient
    } else {
        quotient + 1
    }
}

proof fn lemma_div_ceil(a: int, b: int)
    requires
        a >= 0,
        b > 0,
    ensures
        a > 0 ==> (a - 1) / b + 1 == (if a % b == 0 {
            a / b
        } else {
            a / b + 1
        }),
        a > 0 ==> (a - 1) % b == (if a % b == 0 {
            b - 1
        } else {
            a % b - 1
        }),
        a == 0 ==> a / b == 0 && a % b == 0,
        a % b != 0 ==> a / b + 1 <= a,
        0 <= a / b <= a,
{
    let q = a / b;
    let r = a % b;
    vstd::arithmetic::div_mod::lemma_fundamental_div_mod(a, b);
    vstd::arithmetic::div_mod::lemma_mod_bound(a, b);
    vstd::arithmetic::div_mod::lemma_div_pos_is_pos(a, b);
    assert(b * q >= q) by (nonlinear_arith)
        requires
            b > 0,
            q >= 0,
    ;
    if a > 0 {
        if r == 0 {
            assert(a - 1 == (q - 1) * b + (b - 1)) by (nonlinear_arith)
                requires
                    a == b * q + r,
                    r == 0,
            ;
            vstd::arithmetic::div_mod::lemma_fundamental_div_mod_converse(a - 1, b, q - 1, b - 1);
        } else {
            assert(a - 1 == q * b + (r - 1)) by (nonlinear_arith)
                requires
                    a == b * q + r,
            ;
            vstd::arithmetic::div_mod::lemma_fundamental_div_mod_converse(a - 1, b, q, r - 1);
        }
    } else {
        assert(q == 0) by (nonlinear_arith)
            requires
                0 == b * q + r,
                r >= 0,
                q >= 0,
                b > 0,
        ;
    }
}

/// Builds the TRB of one isochronous packet.
pub fn iso_trb(
    config: &EndpointConfig,
    bus_addr: u64,
    buff_len: usize,
    last_packet: bool,
    frame_id: u16,
    interrupt_on_short_packet: bool,
) -> (words: [u32; 4])
    requires
        buff_len as u32 <= TRB_LENGTH_MAX,
    ensures
        words@ == iso_fields(
            *config,
            bus_addr,
            buff_len,
            last_packet,
            frame_id,
            interrupt_on_short_packet,
        ).words(),
{
    let total_packets: usize = if config.max_packet_size == 0 {
        1
    } else {
        let packets: usize = div_ceil(buff_len, config.max_packet_size);
        if packets == 0 {
            1
        } else {
            packets
        }
    };
    let burst_size: usize = config.max_burst_size.saturating_add(1);
    let bursts: usize = div_ceil(total_packets, burst_size);
    let burst_count: usize = bursts.saturating_sub(1);
    let rest: usize = total_packets % burst_size;
    let last_burst_packet_count: usize = if rest == 0 {
        burst_size.saturating_sub(1)
    } else {
        rest.saturating_sub(1)
    };
    proof {
        lemma_div_ceil(total_packets as int, burst_size as int);
    }
    let burst_count: u8 = if burst_count < 0x1f {
        burst_count as u8
    } else {
        0x1f
    };
    let last_burst_packet_count: u8 = if last_burst_packet_count < 0xf {
        last_burst_packet_count as u8
    } else {
        0xf
    };
    let fields = IsochFields {
        pointer: bus_addr,
        length: buff_len as u32,
        start: if config.iso_start_asap {
            IsoStart::Asap
        } else {
            IsoStart::Frame(frame_id & 0x7ff)
        },
        interrupt_on_short_packet,
        burst_count,
        last_burst_packet_count,
        block_event_interrupt: !last_packet,
    };
    assert(frame_id & 0x7ff == frame_id % 0x800) by (bit_vector);
    assert(fields == iso_fields(
        *config,
        bus_addr,
        buff_len,
        last_packet,
        frame_id,
        interrupt_on_short_packet,
    ));
    fields.build()
}

/// Offsets grow by the lengths of the packets.
pub proof fn lemma_total_of_prefix(lengths: Seq<usize>, n: int)
    requires
        0 <= n <= lengths.len(),
    ensures
        total(lengths.take(n)) <= total(lengths),
        n < lengths.len() ==> total(lengths.take(n + 1)) == total(lengths.take(n)) + lengths[n],
        n < lengths.len() ==> total(lengths.take(n)) <= total(lengths.drop_last()),
    decreases lengths.len(),
{
    if n < lengths.len() {
        assert(lengths.take(n + 1).drop_last() =~= lengths.take(n));
        assert(lengths.drop_last().take(n) =~= lengths.take(n));
        lemma_total_of_prefix(lengths.drop_last(), n);
    } else {
        assert(lengths.take(n) =~= lengths);
    }
}

proof fn lemma_next_frame(start: u16, interval: u8, k: int, frame_id: u16)
    requires
        k >= 0,
        frame_id == frame_id_at(start, interval, k),
    ensures
        frame_id < 0x800,
        frame_id_at(start, interval, k + 1) == ((frame_id + interval) as u16) & 0x7ff,
        ((frame_id + interval) as u16) & 0x7ff < 0x800,
{
    let sum: u16 = (frame_id + interval) as u16;
    assert(sum & 0x7ff == sum % 0x800) by (bit_vector);
    let at: int = start + k * interval;
    assert(at >= 0) by (nonlinear_arith)
        requires
            at == start + k * interval,
            k >= 0,
            start >= 0,
            interval >= 0,
    ;
    assert((k + 1) * interval == k * interval + interval) by (nonlinear_arith);
    assert((at + interval) % 0x800 == (at % 0x800 + interval) % 0x800);
}

/// Builds the TRBs of an isochronous transfer, and gives the frame in which the
/// packet after the last one would be due.
pub fn iso_trbs(
    config: &EndpointConfig,
    next_iso_frame_id: u16,
    bus_addr: u64,
    packet_lengths: &Vec<usize>,
    interrupt_on_short_packet: bool,
) -> (result: (Vec<[u32; 4]>, u16))
    requires
        next_iso_frame_id < 0x800,
        config.interval >= 1,
        iso_fits(bus_addr, packet_lengths@),
    ensures
        words_of(result.0@) == iso_words(
            *config,
            next_iso_frame_id,
            bus_addr,
            packet_lengths@,
            interrupt_on_short_packet,
        ),
        result.1 == frame_id_at(
            next_iso_frame_id,
            config.interval,
            iso_trb_count(packet_lengths@) as int,
        ),
        result.1 < 0x800,
{
    let packet_count: usize = if packet_lengths.len() == 0 {
        1
    } else {
        packet_lengths.len()
    };
    let interval: u8 = config.interval;
    let mut trbs: Vec<[u32; 4]> = Vec::new();
    let mut offset: u64 = 0;
    let mut frame_id: u16 = next_iso_frame_id;
    let mut index: usize = 0;
    assert(packet_lengths@.take(0) =~= Seq::<usize>::empty());
    assert(0 * interval == 0);
    while index < packet_count
        invariant
            index <= packet_count == iso_trb_count(packet_lengths@),
            interval == config.interval,
            iso_fits(bus_addr, packet_lengths@),
            packet_lengths@.len() > 0 ==> offset == total(packet_lengths@.take(index as int)),
            packet_lengths@.len() == 0 ==> offset == 0,
            frame_id == frame_id_at(next_iso_frame_id, interval, index as int),
            frame_id < 0x800,
            trbs@.len() == index,
            forall|k: int|
                #![trigger trbs@[k]]
                0 <= k < index ==> trbs@[k]@ == iso_packet_fields(
                    *config,
                    next_iso_frame_id,
                    bus_addr,
                    packet_lengths@,
                    interrupt_on_short_packet,
                    k,
                ).words(),
        decreases packet_count - index,
    {
        let packet_length: usize = if index < packet_lengths.len() {
            packet_lengths[index]
        } else {
            0
        };
        let last_packet: bool = index + 1 == packet_count;
        proof {
            if packet_lengths@.len() > 0 {
                lemma_total_of_prefix(packet_lengths@, index as int);
                lemma_total_of_prefix(packet_lengths@, index + 1);
            }
            lemma_next_frame(next_iso_frame_id, interval, index as int, frame_id);
            assert(0usize as u32 == 0) by (bit_vector);
        }
        let trb = iso_trb(
            config,
            bus_addr + offset,
            packet_length,
            last_packet,
            frame_id,
            interrupt_on_short_packet,
        );
        trbs.push(trb);
        offset = offset + packet_length as u64;
        frame_id = frame_id.wrapping_add(interval as u16) & 0x7ff;
        index += 1;
    }
    assert(words_of(trbs@) =~= iso_words(
        *config,
        next_iso_frame_id,
        bus_addr,
        packet_lengths@,
        interrupt_on_short_packet,
    ));
    (trbs, frame_id)
}

// ---------------------------------------------------------------------------
// Transfers of all kinds
// ---------------------------------------------------------------------------

/// How many TRBs a transfer of `len` bytes takes.
pub open spec fn trbs_needed(kind: TransferKindView, len: usize) -> nat {
    match kind {
        TransferKindView::Control(_) => if len > 0 {
            3
        } else {
            2
        },
        TransferKindView::Bulk => 1,
        TransferKindView::Interrupt => 1,
        TransferKindView::Isochronous { packet_lengths } => iso_trb_count(packet_lengths),
    }
}

/// Where the data of a transfer lies: zero where there is none.
pub open spec fn data_address(transfer: TransferView) -> u64 {
    if transfer.buffer_len() > 0 {
        transfer.dma_addr()
    } else {
        0
    }
}

/// The TRBs of a transfer, in ring order.
pub open spec fn transfer_words(
    config: EndpointConfig,
    next_iso_frame_id: u16,
    transfer: TransferView,
) -> Seq<Seq<u32>> {
    let len = transfer.buffer_len();
    let addr = data_address(transfer);
    match transfer.kind {
        TransferKindView::Control(setup) => {
            let first = setup_stage_words(setup, transfer.direction, len);
            let last = status_stage_words(transfer.direction, len);
            if len > 0 {
                seq![first, data_stage_words(addr, len as u32, transfer.direction), last]
            } else {
                seq![first, last]
            }
        },
        TransferKindView::Bulk => seq![normal_words(addr, len as u32)],
        TransferKindView::Interrupt => seq![normal_words(addr, len as u32)],
        TransferKindView::Isochronous { packet_lengths } => iso_words(
            config,
            next_iso_frame_id,
            addr,
            packet_lengths,
            transfer.direction == Direction::In,
        ),
    }
}

/// The frame counter after a transfer was put to the controller.
pub open spec fn frame_after(config: EndpointConfig, next_iso_frame_id: u16, transfer: TransferView) -> u16 {
    match transfer.kind {
        TransferKindView::Isochronous { packet_lengths } => frame_id_at(
            next_iso_frame_id,
            config.interval,
            iso_trb_count(packet_lengths) as int,
        ),
        _ => next_iso_frame_id,
    }
}

/// Whether the lengths of a transfer fit its TRBs, and whatever lengths the
/// controller may report for it fit a total.
pub open spec fn transfer_fits(transfer: TransferView) -> bool {
    match transfer.kind {
        TransferKindView::Control(_) => transfer.buffer_len() > 0 ==> transfer.buffer_len() as u32
            <= TRB_LENGTH_MAX,
        TransferKindView::Bulk => transfer.buffer_len() as u32 <= TRB_LENGTH_MAX,
        TransferKindView::Interrupt => transfer.buffer_len() as u32 <= TRB_LENGTH_MAX,
        TransferKindView::Isochronous { packet_lengths } => {
            &&& iso_fits(data_address(transfer), packet_lengths)
            &&& iso_budget(packet_lengths) <= usize::MAX
        },
    }
}

/// Number of TRBs that a transfer takes.
pub fn required_trbs(transfer: &Transfer) -> (count: usize)
    ensures
        count == trbs_needed(transfer@.kind, transfer@.buffer_len()),
{
    match &transfer.kind {
        TransferKind::Control(_) => {
            if transfer.buffer_len() > 0 {
                3
            } else {
                2
            }
        },
        TransferKind::Bulk => 1,
        TransferKind::Interrupt => 1,
        TransferKind::Isochronous { packet_lengths } => {
            if packet_lengths.len() == 0 {
                1
            } else {
                packet_lengths.len()
            }
        },
    }
}

/// Whether the packets of an isochronous transfer fit.
fn iso_in_range(bus_addr: u64, lengths: &Vec<usize>) -> (fits: bool)
    ensures
        fits == (iso_fits(bus_addr, lengths@) && iso_budget(lengths@) <= usize::MAX),
{
    let mut sum: u64 = 0;
    let mut budget: usize = 0;
    let mut i: usize = 0;
    assert(lengths@.take(0) =~= Seq::<usize>::empty());
    while i < lengths.len()
        invariant
            i <= lengths@.len(),
            forall|j: int|
                0 <= j < i ==> (#[trigger] lengths@[j]) as u32 <= TRB_LENGTH_MAX,
            sum == total(lengths@.take(i as int)),
            budget == iso_budget(lengths@.take(i as int)),
            i > 0 ==> bus_addr + total(lengths@.take(i - 1)) <= u64::MAX,
        decreases lengths@.len() - i,
    {
        let length: usize = lengths[i];
        let bound: usize = if length >= EVENT_LENGTH_MAX as usize {
            length
        } else {
            EVENT_LENGTH_MAX as usize
        };
        proof {
            lemma_total_of_prefix(lengths@, i as int);
            lemma_total_of_prefix(lengths@, i + 1);
            assert(lengths@.take(i + 1).drop_last() =~= lengths@.take(i as int));
            lemma_budget_of_prefix(lengths@, i + 1);
        }
        if length as u32 > TRB_LENGTH_MAX {
            return false;
        }
        if bus_addr > u64::MAX - sum {
            return false;
        }
        if budget > usize::MAX - bound {
            return false;
        }
        if sum > u64::MAX - length as u64 {
            return false;
        }
        sum = sum + length as u64;
        budget = budget + bound;
        i += 1;
    }
    proof {
        assert(lengths@.take(i as int) =~= lengths@);
        if lengths@.len() > 0 {
            assert(lengths@.take(i - 1) =~= lengths@.drop_last());
        }
    }
    true
}

/// Whether a transfer can be put to the controller.
pub fn transfer_in_range(transfer: &Transfer) -> (fits: bool)
    ensures
        fits == transfer_fits(transfer@),
{
    let len: usize = transfer.buffer_len();
    match &transfer.kind {
        TransferKind::Control(_) => len == 0 || len as u32 <= TRB_LENGTH_MAX,
        TransferKind::Bulk => len as u32 <= TRB_LENGTH_MAX,
        TransferKind::Interrupt => len as u32 <= TRB_LENGTH_MAX,
        TransferKind::Isochronous { packet_lengths } => {
            let addr: u64 = if len > 0 {
                transfer.dma_addr()
            } else {
                0
            };
            iso_in_range(addr, packet_lengths)
        },
    }
}

/// Builds the TRBs of a transfer, and gives the frame counter after it.
pub fn transfer_trbs(config: &EndpointConfig, next_iso_frame_id: u16, transfer: &Transfer) -> (result: (
    Vec<[u32; 4]>,
    u16,
))
    requires
        next_iso_frame_id < 0x800,
        config.interval >= 1,
        transfer_fits(transfer@),
    ensures
        words_of(result.0@) == transfer_words(*config, next_iso_frame_id, transfer@),
        result.0@.len() == trbs_needed(transfer@.kind, transfer@.buffer_len()),
        result.1 == frame_after(*config, next_iso_frame_id, transfer@),
        result.1 < 0x800,
{
    let len: usize = transfer.buffer_len();
    let addr: u64 = if len > 0 {
        transfer.dma_addr()
    } else {
        0
    };
    let ghost expected = transfer_words(*config, next_iso_frame_id, transfer@);
    match &transfer.kind {
        TransferKind::Control(setup) => {
            let mut trbs: Vec<[u32; 4]> = Vec::new();
            trbs.push(setup_stage_trb(*setup, transfer.direction, len));
            if len > 0 {
                trbs.push(data_stage_trb(addr, len as u32, transfer.direction));
            }
            trbs.push(status_stage_trb(transfer.direction, len));
            assert(words_of(trbs@) =~= expected);
            (trbs, next_iso_frame_id)
        },
        TransferKind::Isochronous { packet_lengths } => {
            let result = iso_trbs(
                config,
                next_iso_frame_id,
                addr,
                packet_lengths,
                transfer.direction == Direction::In,
            );
            assert(words_of(result.0@).len() == result.0@.len());
            result
        },
        _ => {
            proof {
                assert(0usize as u32 == 0) by (bit_vector);
            }
            let mut trbs: Vec<[u32; 4]> = Vec::new();
            trbs.push(normal_trb(addr, len as u32));
            assert(words_of(trbs@) =~= expected);
            (trbs, next_iso_frame_id)
        },
    }
}

proof fn lemma_small_packets_fit(lengths: Seq<usize>)
    requires
        forall|i: int| 0 <= i < lengths.len() ==> (#[trigger] lengths[i]) <= 0x1_ffff,
    ensures
        total(lengths) <= lengths.len() * 0x1_ffff,
        iso_budget(lengths) == lengths.len() * 0xff_ffff,
    decreases lengths.len(),
{
    if lengths.len() > 0 {
        assert forall|i: int| 0 <= i < lengths.drop_last().len() implies (
        #[trigger] lengths.drop_last()[i]) <= 0x1_ffff by {
            assert(lengths[i] <= 0x1_ffff);
        }
        lemma_small_packets_fit(lengths.drop_last());
        assert(lengths.last() <= 0x1_ffff);
    }
}

/// Whatever fits the length field of a TRB can be put to the controller: a buffer, or a
/// number of packets that the machine can add up and that end before the bus does.
pub proof fn law_small_transfers_fit(transfer: TransferView)
    requires
        match transfer.kind {
            TransferKindView::Isochronous { packet_lengths } => {
                &&& forall|i: int|
                    0 <= i < packet_lengths.len() ==> (#[trigger] packet_lengths[i]) <= 0x1_ffff
                &&& packet_lengths.len() * 0xff_ffff <= usize::MAX
                &&& transfer.dma_addr() + packet_lengths.len() * 0x1_ffff <= u64::MAX
            },
            _ => transfer.buffer_len() <= 0x1_ffff,
        },
    ensures
        transfer_fits(transfer),
{
    if let TransferKindView::Isochronous { packet_lengths } = transfer.kind {
        lemma_small_packets_fit(packet_lengths);
        assert forall|i: int| 0 <= i < packet_lengths.len() implies (
        #[trigger] packet_lengths[i]) as u32 <= TRB_LENGTH_MAX by {
            assert(packet_lengths[i] <= 0x1_ffff);
        }
    }
}

} // verus!
