//! Receiving a video stream over an isochronous endpoint: how large a transfer is,
//! and which bytes of its buffer the device has written.

use vstd::prelude::*;

use crate::endpoint::IsoPacketResult;
use crate::endpoint::TransferCompletion;
use crate::endpoint::TransferKindView;
use crate::endpoint::TransferRequest;
use crate::submit::div_ceil;
use crate::usb::Direction;

verus! {

/// Most packets that one transfer has.
pub const MAX_PACKETS_PER_TRANSFER: usize = 32;

/// Bytes that an endpoint moves in one microframe, after its `wMaxPacketSize`: the
/// packet size in the low eleven bits, and the number of additional transactions in
/// the two bits above.
pub open spec fn payload_bytes(max_packet_size: u16) -> int {
    (max_packet_size % 0x800) * ((max_packet_size / 0x800) % 4 + 1)
}

pub fn iso_payload_bytes(max_packet_size: u16) -> (bytes: usize)
    ensures
        bytes == payload_bytes(max_packet_size),
        bytes <= 0x7ff * 4,
{
    let size: usize = (max_packet_size % 0x800) as usize;
    let transactions: usize = ((max_packet_size / 0x800) % 4) as usize + 1;
    assert(size * transactions <= 0x7ff * 4) by (nonlinear_arith)
        requires
            size <= 0x7ff,
            transactions <= 4,
    ;
    size * transactions
}

/// Packets that a transfer has: enough for a frame, up to the limit.
pub open spec fn packets_for_frame(frame_bytes: usize, packet_size: int) -> int {
    let packets = if frame_bytes == 0 {
        0
    } else {
        (frame_bytes - 1) / packet_size + 1
    };
    if packets <= MAX_PACKETS_PER_TRANSFER {
        packets
    } else {
        MAX_PACKETS_PER_TRANSFER as int
    }
}

/// Why a completed transfer is not a piece of video.
#[derive(Clone, Copy, Debug, PartialEq, Eq, Structural)]
pub enum VideoError {
    /// The completion has another number of packets than the transfer.
    PacketCount,
    /// A packet is reported to be longer than its part of the buffer.
    PacketOverrun,
}

/// A piece of the transfer buffer that the device has written.
#[derive(Clone, Copy, Debug, PartialEq, Eq, Structural)]
pub struct Payload {
    pub start: usize,
    pub len: usize,
}

/// What a completed transfer brought.
#[derive(Debug)]
pub struct Received {
    /// The pieces of the buffer to hand on, in order.
    pub payloads: Vec<Payload>,
    /// What is to be returned after that.
    pub result: Result<(), VideoError>,
}

/// The pieces of the buffer that the first `n` packets have filled: packet `i`
/// starts at `i * packet_size`, and empty packets have none.
pub open spec fn payloads_of(results: Seq<IsoPacketResult>, packet_size: usize, n: int) -> Seq<
    Payload,
>
    decreases n,
{
    if n <= 0 {
        Seq::empty()
    } else {
        let before = payloads_of(results, packet_size, n - 1);
        let actual = results[n - 1].actual_length;
        if actual == 0 {
            before
        } else {
            before.push(Payload { start: ((n - 1) * packet_size) as usize, len: actual })
        }
    }
}

/// The number of packets before the first one that is too long.
pub open spec fn good_packets(results: Seq<IsoPacketResult>, packet_size: usize) -> nat
    decreases results.len(),
{
    if results.len() == 0 {
        0
    } else {
        let before = good_packets(results.drop_last(), packet_size);
        if before == results.len() - 1 && results.last().actual_length <= packet_size {
            results.len()
        } else {
            before
        }
    }
}

/// A stream of video.
#[derive(Debug)]
pub struct VideoStream {
    packets_per_transfer: usize,
    packet_size: usize,
    buffer: Vec<u8>,
}

/// Model of [`VideoStream`].
pub struct VideoStreamView {
    pub packets_per_transfer: usize,
    pub packet_size: usize,
    pub buffer: Seq<u8>,
}

impl View for VideoStream {
    type V = VideoStreamView;

    closed spec fn view(&self) -> VideoStreamView {
        VideoStreamView {
            packets_per_transfer: self.packets_per_transfer,
            packet_size: self.packet_size,
            buffer: self.buffer@,
        }
    }
}

impl VideoStreamView {
    /// The invariant of a stream: the buffer has room for every packet.
    pub open spec fn wf(self) -> bool {
        &&& self.packet_size >= 1
        &&& self.buffer.len() == self.packets_per_transfer * self.packet_size
        &&& self.buffer.len() <= usize::MAX
    }

    /// The packet lengths that a transfer asks for.
    pub open spec fn packet_lengths(self) -> Seq<usize> {
        Seq::new(self.packets_per_transfer as nat, |i: int| self.packet_size)
    }

    /// The stream with an empty buffer.
    pub open spec fn cleared(self) -> VideoStreamView {
        VideoStreamView { buffer: Seq::new(self.buffer.len(), |i: int| 0u8), ..self }
    }

    /// The bytes of a piece of the buffer.
    pub open spec fn bytes_of(self, payload: Payload) -> Seq<u8> {
        self.buffer.subrange(payload.start as int, payload.start + payload.len)
    }

    /// The pieces of the buffer to hand on, given what became of the packets: those
    /// before the first packet that is too long, and nothing where the number of
    /// packets is wrong.
    pub open spec fn payloads(self, results: Seq<IsoPacketResult>) -> Seq<Payload> {
        if results.len() != self.packets_per_transfer {
            Seq::empty()
        } else {
            payloads_of(
                results,
                self.packet_size,
                good_packets(results, self.packet_size) as int,
            )
        }
    }

    /// What is returned for a transfer, given what became of its packets.
    pub open spec fn verdict(self, results: Seq<IsoPacketResult>) -> Result<(), VideoError> {
        if results.len() != self.packets_per_transfer {
            Err(VideoError::PacketCount)
        } else if good_packets(results, self.packet_size) < results.len() {
            Err(VideoError::PacketOverrun)
        } else {
            Ok(())
        }
    }
}

impl VideoStream {
    /// A stream over an endpoint with the given `wMaxPacketSize`, for frames of the
    /// given size. The endpoint has to have room for at least one byte.
    pub fn new(max_packet_size: u16, frame_bytes: usize) -> (stream: VideoStream)
        requires
            payload_bytes(max_packet_size) > 0,
        ensures
            stream@.wf(),
            stream@.packet_size == payload_bytes(max_packet_size),
            stream@.packets_per_transfer == packets_for_frame(
                frame_bytes,
                payload_bytes(max_packet_size),
            ),
            stream@.buffer == Seq::new(
                (stream@.packets_per_transfer * stream@.packet_size) as nat,
                |i: int| 0u8,
            ),
    {
        let packet_size: usize = iso_payload_bytes(max_packet_size);
        let packets: usize = div_ceil(frame_bytes, packet_size);
        let packets_per_transfer: usize = if packets <= MAX_PACKETS_PER_TRANSFER {
            packets
        } else {
            MAX_PACKETS_PER_TRANSFER
        };
        assert(packet_size * packets_per_transfer <= 0x7ff * 4 * 32) by (nonlinear_arith)
            requires
                packet_size <= 0x7ff * 4,
                packets_per_transfer <= 32,
        ;
        assert(packet_size * packets_per_transfer == packets_per_transfer * packet_size)
            by (nonlinear_arith);
        let buffer: Vec<u8> = vec![0u8; packet_size * packets_per_transfer];
        assert(buffer@ =~= Seq::new(
            (packets_per_transfer * packet_size) as nat,
            |i: int| 0u8,
        ));
        VideoStream { packets_per_transfer, packet_size, buffer }
    }

    /// Clears the buffer and asks for the next transfer into it.
    pub fn request(&mut self) -> (request: TransferRequest)
        requires
            old(self)@.wf(),
        ensures
            request@.asks(
                TransferKindView::Isochronous { packet_lengths: old(self)@.packet_lengths() },
                Direction::In,
                old(self)@.buffer.len(),
            ),
            final(self)@ == old(self)@.cleared(),
            final(self)@ == (VideoStreamView {
                buffer: Seq::new(old(self)@.buffer.len(), |i: int| 0u8),
                ..old(self)@
            }),
            final(self)@.wf(),
    {
        let mut i: usize = 0;
        while i < self.buffer.len()
            invariant
                i <= self.buffer@.len() == old(self)@.buffer.len(),
                self.packet_size == old(self)@.packet_size,
                self.packets_per_transfer == old(self)@.packets_per_transfer,
                forall|j: int| 0 <= j < i ==> self.buffer@[j] == 0,
            decreases self.buffer@.len() - i,
        {
            self.buffer.set(i, 0);
            i += 1;
        }
        assert(self.buffer@ =~= Seq::new(old(self)@.buffer.len(), |i: int| 0u8));
        let packet_lengths: Vec<usize> = vec![self.packet_size; self.packets_per_transfer];
        assert(packet_lengths@ =~= old(self)@.packet_lengths());
        TransferRequest::iso_in(self.buffer.as_mut_slice(), packet_lengths.as_slice())
    }

    /// Finds the pieces of the buffer that a completed transfer has filled.
    pub fn recv(&self, completion: &TransferCompletion) -> (received: Received)
        requires
            self@.wf(),
        ensures
            received.payloads@ == self@.payloads(completion@.iso_packets),
            received.result == self@.verdict(completion@.iso_packets),
    {
        let mut payloads: Vec<Payload> = Vec::new();
        let ghost results = completion@.iso_packets;
        if completion.iso_packets.len() != self.packets_per_transfer {
            return Received { payloads, result: Err(VideoError::PacketCount) };
        }
        let mut i: usize = 0;
        let mut start: usize = 0;
        while i < completion.iso_packets.len()
            invariant
                results == completion.iso_packets@,
                self@.wf(),
                i <= results.len() == self@.packets_per_transfer,
                start == i * self@.packet_size,
                payloads@ == payloads_of(results, self@.packet_size, i as int),
                good_packets(results.take(i as int), self@.packet_size) == i,
            decreases results.len() - i,
        {
            let actual: usize = completion.iso_packets[i].actual_length;
            proof {
                assert(results.take(i + 1).drop_last() =~= results.take(i as int));
                lemma_good_packets_of_prefix(results, self@.packet_size, i + 1);
            }
            if actual > self.packet_size {
                return Received { payloads, result: Err(VideoError::PacketOverrun) };
            }
            if actual != 0 {
                payloads.push(Payload { start, len: actual });
            }
            proof {
                let size = self@.packet_size as int;
                let count = self@.packets_per_transfer as int;
                assert((i + 1) * size == i * size + size) by (nonlinear_arith);
                assert((i + 1) * size <= count * size) by (nonlinear_arith)
                    requires
                        i + 1 <= count,
                        size >= 0,
                ;
            }
            start = start + self.packet_size;
            i += 1;
        }
        assert(results.take(i as int) =~= results);
        Received { payloads, result: Ok(()) }
    }

    /// The bytes of a piece of the buffer.
    pub fn payload(&self, payload: Payload) -> (data: &[u8])
        requires
            self@.wf(),
            payload.start + payload.len <= self@.buffer.len(),
        ensures
            data@ == self@.bytes_of(payload),
            data@ == self@.buffer.subrange(
                payload.start as int,
                payload.start + payload.len,
            ),
    {
        vstd::slice::slice_subrange(
            self.buffer.as_slice(),
            payload.start,
            payload.start + payload.len,
        )
    }
}

/// A packet that is too long stays the first one whatever follows it.
proof fn lemma_good_packets_of_prefix(results: Seq<IsoPacketResult>, packet_size: usize, n: int)
    requires
        0 <= n <= results.len(),
    ensures
        good_packets(results.take(n), packet_size) <= n,
        good_packets(results.take(n), packet_size) < n ==> good_packets(results, packet_size)
            == good_packets(results.take(n), packet_size),
    decreases results.len(),
{
    if n < results.len() {
        assert(results.drop_last().take(n) =~= results.take(n));
        lemma_good_packets_of_prefix(results.drop_last(), packet_size, n);
    } else {
        assert(results.take(n) =~= results);
        if results.len() > 0 {
            lemma_good_packets_of_prefix(results.drop_last(), packet_size, n - 1);
            assert(results.drop_last().take(n - 1) =~= results.drop_last());
        }
    }
}

/// Only what the device has written is handed on: every piece is the beginning of
/// one packet's part of the buffer, as long as that packet's actual length, and
/// never empty.
pub proof fn law_payloads_are_actual_lengths(
    stream: VideoStreamView,
    results: Seq<IsoPacketResult>,
    k: int,
)
    requires
        stream.wf(),
        0 <= k < stream.payloads(results).len(),
    ensures
        ({
            let payload = stream.payloads(results)[k];
            &&& 0 < payload.len <= stream.packet_size
            &&& payload.start + payload.len <= stream.buffer.len()
            &&& exists|i: int|
                #![trigger results[i]]
                0 <= i < results.len() && payload.start == i * stream.packet_size && payload.len
                    == results[i].actual_length
        }),
{
    lemma_good_packets_of_prefix(results, stream.packet_size, results.len() as int);
    assert(results.take(results.len() as int) =~= results);
    lemma_payloads_fit(
        stream,
        results,
        good_packets(results, stream.packet_size) as int,
        k,
    );
}

proof fn lemma_good_packets_fit(results: Seq<IsoPacketResult>, packet_size: usize, i: int)
    requires
        0 <= i < good_packets(results, packet_size),
    ensures
        good_packets(results, packet_size) <= results.len(),
        results[i].actual_length <= packet_size,
    decreases results.len(),
{
    if results.len() > 0 {
        lemma_good_packets_of_prefix(results, packet_size, results.len() - 1);
        assert(results.take(results.len() - 1) =~= results.drop_last());
        if i < results.len() - 1 {
            lemma_good_packets_fit(results.drop_last(), packet_size, i);
        }
    }
}

proof fn lemma_payloads_fit(
    stream: VideoStreamView,
    results: Seq<IsoPacketResult>,
    n: int,
    k: int,
)
    requires
        stream.wf(),
        results.len() == stream.packets_per_transfer,
        0 <= n <= good_packets(results, stream.packet_size) <= results.len(),
        0 <= k < payloads_of(results, stream.packet_size, n).len(),
    ensures
        ({
            let payload = payloads_of(results, stream.packet_size, n)[k];
            &&& 0 < payload.len <= stream.packet_size
            &&& payload.start + payload.len <= stream.buffer.len()
            &&& exists|i: int|
                #![trigger results[i]]
                0 <= i < results.len() && payload.start == i * stream.packet_size && payload.len
                    == results[i].actual_length
        }),
    decreases n,
{
    if n > 0 {
        if k < payloads_of(results, stream.packet_size, n - 1).len() {
            lemma_payloads_fit(stream, results, n - 1, k);
        } else {
            let i = n - 1;
            let size = stream.packet_size as int;
            let count = results.len() as int;
            lemma_good_packets_fit(results, stream.packet_size, i);
            assert(i * size + size <= count * size) by (nonlinear_arith)
                requires
                    i + 1 <= count,
                    size >= 0,
            ;
            assert(i * size >= 0) by (nonlinear_arith)
                requires
                    i >= 0,
                    size >= 0,
            ;
            assert(results[i].actual_length > 0);
        }
    }
}

/// The packets that count are those before the first one that is too long.
pub proof fn law_first_overrun_ends_the_transfer(results: Seq<IsoPacketResult>, packet_size: usize)
    ensures
        good_packets(results, packet_size) <= results.len(),
        forall|i: int|
            0 <= i < good_packets(results, packet_size) ==> (#[trigger] results[i]).actual_length
                <= packet_size,
        good_packets(results, packet_size) < results.len() ==> results[good_packets(
            results,
            packet_size,
        ) as int].actual_length > packet_size,
    decreases results.len(),
{
    assert forall|i: int| 0 <= i < good_packets(results, packet_size) implies (
    #[trigger] results[i]).actual_length <= packet_size by {
        lemma_good_packets_fit(results, packet_size, i);
    }
    if results.len() > 0 {
        law_first_overrun_ends_the_transfer(results.drop_last(), packet_size);
    }
}

/// Every packet that counts and is not empty is handed on.
pub proof fn law_no_payload_is_lost(
    stream: VideoStreamView,
    results: Seq<IsoPacketResult>,
    i: int,
)
    requires
        stream.wf(),
        results.len() == stream.packets_per_transfer,
        0 <= i < good_packets(results, stream.packet_size),
        results[i].actual_length > 0,
    ensures
        stream.payloads(results).contains(
            Payload { start: (i * stream.packet_size) as usize, len: results[i].actual_length },
        ),
{
    lemma_payload_is_there(
        results,
        stream.packet_size,
        good_packets(results, stream.packet_size) as int,
        i,
    );
}

proof fn lemma_payload_is_there(
    results: Seq<IsoPacketResult>,
    packet_size: usize,
    n: int,
    i: int,
)
    requires
        0 <= i < n,
        results[i].actual_length > 0,
    ensures
        payloads_of(results, packet_size, n).contains(
            Payload { start: (i * packet_size) as usize, len: results[i].actual_length },
        ),
    decreases n,
{
    let wanted = Payload { start: (i * packet_size) as usize, len: results[i].actual_length };
    let all = payloads_of(results, packet_size, n);
    if i == n - 1 {
        assert(all[all.len() - 1] == wanted);
    } else {
        lemma_payload_is_there(results, packet_size, n - 1, i);
        let before = payloads_of(results, packet_size, n - 1);
        let k = choose|k: int| 0 <= k < before.len() && before[k] == wanted;
        assert(all[k] == wanted);
    }
}

/// A packet size and a number of additional transactions give their payload, whatever
/// stands in the bits above.
pub proof fn law_payload_counts_every_transaction(
    max_packet_size: u16,
    size: int,
    additional: int,
    above: int,
)
    requires
        max_packet_size == size + additional * 0x800 + above * 0x2000,
        0 <= size < 0x800,
        0 <= additional < 4,
        above >= 0,
    ensures
        payload_bytes(max_packet_size) == size + additional * size,
{
    assert(max_packet_size as int / 0x800 == additional + above * 4);
    assert(max_packet_size as int % 0x800 == size);
    assert((additional + above * 4) % 4 == additional);
    assert(size * (additional + 1) == size + additional * size) by (nonlinear_arith);
}

/// A transfer has as many packets as a frame takes and no more, unless that is more
/// than a transfer may have, which is 32.
pub proof fn law_packets_just_cover_the_frame(frame_bytes: usize, packet_size: int)
    requires
        packet_size > 0,
    ensures
        ({
            let packets = packets_for_frame(frame_bytes, packet_size);
            &&& 0 <= packets <= 32
            &&& packets * packet_size >= frame_bytes || packets == 32
            &&& packets > 0 ==> (packets - 1) * packet_size < frame_bytes
        }),
{
    if frame_bytes > 0 {
        let rest = frame_bytes - 1;
        let quotient = rest / packet_size;
        vstd::arithmetic::div_mod::lemma_fundamental_div_mod(rest, packet_size);
        vstd::arithmetic::div_mod::lemma_mod_bound(rest, packet_size);
        vstd::arithmetic::div_mod::lemma_div_pos_is_pos(rest, packet_size);
        assert((quotient + 1) * packet_size == packet_size * quotient + packet_size)
            by (nonlinear_arith);
        assert(quotient * packet_size == packet_size * quotient) by (nonlinear_arith);
        if quotient + 1 > 32 {
            assert(31 * packet_size <= quotient * packet_size) by (nonlinear_arith)
                requires
                    31 <= quotient,
                    packet_size > 0,
            ;
        }
    } else {
        assert(0 * packet_size == 0);
    }
}

/// Every packet of a transfer asks for the packet size, and together they ask for the
/// whole buffer.
pub proof fn law_packets_share_the_buffer(stream: VideoStreamView, i: int)
    requires
        stream.wf(),
    ensures
        stream.packet_lengths().len() == stream.packets_per_transfer,
        0 <= i < stream.packet_lengths().len() ==> stream.packet_lengths()[i]
            == stream.packet_size,
        stream.packet_lengths().len() * stream.packet_size == stream.buffer.len(),
{
}

/// A transfer is refused for its packet count exactly where that is not the number of
/// packets asked for, and else for an overrun exactly where some packet is longer than
/// its part of the buffer.
pub proof fn law_verdict_names_the_fault(stream: VideoStreamView, results: Seq<IsoPacketResult>)
    ensures
        ({
            let counted: bool = results.len() == stream.packets_per_transfer;
            let overrun: bool = exists|i: int|
                0 <= i < results.len() && (#[trigger] results[i]).actual_length
                    > stream.packet_size;
            &&& !counted <==> (stream.verdict(results) matches Err(err) && err
                == VideoError::PacketCount)
            &&& counted && overrun <==> (stream.verdict(results) matches Err(err) && err
                == VideoError::PacketOverrun)
            &&& counted && !overrun <==> stream.verdict(results) is Ok
            &&& !counted ==> stream.payloads(results).len() == 0
        }),
{
    law_first_overrun_ends_the_transfer(results, stream.packet_size);
    let good = good_packets(results, stream.packet_size) as int;
    if good < results.len() {
        assert(results[good].actual_length > stream.packet_size);
    }
}

/// The pieces that are handed on come in the order of the buffer, and none twice.
pub proof fn law_payloads_come_in_order(
    stream: VideoStreamView,
    results: Seq<IsoPacketResult>,
    k: int,
    l: int,
)
    requires
        stream.wf(),
        0 <= k < l < stream.payloads(results).len(),
    ensures
        stream.payloads(results)[k].start + stream.payloads(results)[k].len
            <= stream.payloads(results)[l].start,
{
    law_first_overrun_ends_the_transfer(results, stream.packet_size);
    lemma_payloads_in_order(
        stream,
        results,
        good_packets(results, stream.packet_size) as int,
        k,
        l,
    );
}

proof fn lemma_payloads_in_order(
    stream: VideoStreamView,
    results: Seq<IsoPacketResult>,
    n: int,
    k: int,
    l: int,
)
    requires
        stream.wf(),
        results.len() == stream.packets_per_transfer,
        0 <= n <= good_packets(results, stream.packet_size) <= results.len(),
        0 <= k < l < payloads_of(results, stream.packet_size, n).len(),
    ensures
        ({
            let all = payloads_of(results, stream.packet_size, n);
            all[k].start + all[k].len <= all[l].start
        }),
    decreases n,
{
    if n > 0 {
        let before = payloads_of(results, stream.packet_size, n - 1);
        if l < before.len() {
            lemma_payloads_in_order(stream, results, n - 1, k, l);
        } else {
            let size = stream.packet_size as int;
            let count = results.len() as int;
            lemma_payloads_before(stream, results, n - 1, k);
            assert((n - 1) * size <= count * size) by (nonlinear_arith)
                requires
                    n - 1 <= count,
                    size >= 0,
            ;
            assert((n - 1) * size >= 0) by (nonlinear_arith)
                requires
                    n >= 1,
                    size >= 0,
            ;
        }
    }
}

proof fn lemma_payloads_before(
    stream: VideoStreamView,
    results: Seq<IsoPacketResult>,
    n: int,
    k: int,
)
    requires
        stream.wf(),
        results.len() == stream.packets_per_transfer,
        0 <= n <= good_packets(results, stream.packet_size) <= results.len(),
        0 <= k < payloads_of(results, stream.packet_size, n).len(),
    ensures
        ({
            let payload = payloads_of(results, stream.packet_size, n)[k];
            payload.start + payload.len <= n * stream.packet_size
        }),
    decreases n,
{
    if n > 0 {
        let size = stream.packet_size as int;
        let count = results.len() as int;
        assert(n * size == (n - 1) * size + size) by (nonlinear_arith);
        if k < payloads_of(results, stream.packet_size, n - 1).len() {
            lemma_payloads_before(stream, results, n - 1, k);
        } else {
            lemma_good_packets_fit(results, stream.packet_size, n - 1);
            assert((n - 1) * size <= count * size) by (nonlinear_arith)
                requires
                    n - 1 <= count,
                    size >= 0,
            ;
            assert((n - 1) * size >= 0) by (nonlinear_arith)
                requires
                    n >= 1,
                    size >= 0,
            ;
        }
    }
}

/// Before a transfer every byte of the buffer is zero, and nothing else of the stream
/// has changed.
pub proof fn law_transfers_start_from_an_empty_buffer(stream: VideoStreamView, i: int)
    ensures
        stream.cleared().buffer.len() == stream.buffer.len(),
        0 <= i < stream.buffer.len() ==> stream.cleared().buffer[i] == 0,
        stream.cleared().packet_size == stream.packet_size,
        stream.cleared().packets_per_transfer == stream.packets_per_transfer,
{
}

/// A piece of the buffer has the bytes that stand there, from its start on and as many
/// as it is long.
pub proof fn law_payload_bytes_are_those_of_the_buffer(
    stream: VideoStreamView,
    payload: Payload,
    i: int,
)
    requires
        payload.start + payload.len <= stream.buffer.len(),
    ensures
        stream.bytes_of(payload).len() == payload.len,
        0 <= i < payload.len ==> stream.bytes_of(payload)[i] == stream.buffer[payload.start + i],
{
}

} // verus!
