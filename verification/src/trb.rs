//! Transfer request blocks: the four words that describe one piece of work to
//! an xHCI controller.
//!
//! The field setters are those of the `xhci` crate, each behind a function that
//! takes and gives plain words. What a whole TRB holds is proved from them.

use vstd::prelude::*;

use crate::usb::BmRequestType;
use crate::usb::ControlSetup;
use crate::usb::Direction;

verus! {

/// Largest TRB Transfer Length of a transfer TRB: the field has 17 bits.
pub const TRB_LENGTH_MAX: u32 = 0x1_ffff;

/// The low half of a 64-bit pointer.
pub open spec fn low_word(pointer: u64) -> u32 {
    (pointer % 0x1_0000_0000) as u32
}

/// The high half of a 64-bit pointer.
pub open spec fn high_word(pointer: u64) -> u32 {
    (pointer / 0x1_0000_0000) as u32
}

/// `word` with the field of `span` values that starts at the bit worth `unit`
/// replaced by `value`.
#[verifier::inline]
pub open spec fn with_field(word: u32, unit: int, span: int, value: int) -> u32 {
    (word - (word as int / unit) % span * unit + value * unit) as u32
}

/// The TRB type of four words.
#[verifier::inline]
pub open spec fn trb_type(words: Seq<u32>) -> int {
    (words[3] as int / 0x400) % 0x40
}

// ---------------------------------------------------------------------------
// Isoch TRB
// ---------------------------------------------------------------------------

/// Whether four words are an Isoch TRB, which has no reserved bits.
pub open spec fn is_isoch(words: Seq<u32>) -> bool {
    words.len() == 4 && trb_type(words) == 5
}

/// `Isoch::new`, `set_data_buffer_pointer`, `set_trb_transfer_length` and
/// `set_interrupter_target` of the `xhci` crate: the pointer in words 0 and 1,
/// the length in bits 0 to 16 and the target in bits 22 to 31 of word 2, the TRB
/// type in word 3, and zero elsewhere.
#[verifier::external_body]
fn xhci_isoch(pointer: u64, length: u32, target: u16) -> (words: [u32; 4])
    requires
        length <= TRB_LENGTH_MAX,
        target <= 0x3ff,
    ensures
        words@ == seq![
            low_word(pointer),
            high_word(pointer),
            (length + target * 0x40_0000) as u32,
            0x1400u32,
        ],
{
    let mut trb = xhci::ring::trb::transfer::Isoch::new();
    trb.set_data_buffer_pointer(pointer);
    trb.set_trb_transfer_length(length);
    trb.set_interrupter_target(target);
    trb.into_raw()
}

/// `Isoch::set_start_isoch_asap` of the `xhci` crate: sets bit 31 of word 3.
#[verifier::external_body]
fn xhci_isoch_set_start_isoch_asap(words: [u32; 4]) -> (result: [u32; 4])
    requires
        is_isoch(words@),
    ensures
        result@ == words@.update(3, with_field(words@[3], 0x8000_0000, 2, 1)),
{
    let mut trb = xhci::ring::trb::transfer::Isoch::try_from(words).unwrap();
    trb.set_start_isoch_asap();
    trb.into_raw()
}

/// `Isoch::set_frame_id` of the `xhci` crate: bits 20 to 30 of word 3.
#[verifier::external_body]
fn xhci_isoch_set_frame_id(words: [u32; 4], frame_id: u16) -> (result: [u32; 4])
    requires
        is_isoch(words@),
        frame_id <= 0x7ff,
    ensures
        result@ == words@.update(3, with_field(words@[3], 0x10_0000, 0x800, frame_id as int)),
{
    let mut trb = xhci::ring::trb::transfer::Isoch::try_from(words).unwrap();
    trb.set_frame_id(frame_id);
    trb.into_raw()
}

/// `Isoch::set_interrupt_on_short_packet` of the `xhci` crate: sets bit 2 of
/// word 3.
#[verifier::external_body]
fn xhci_isoch_set_interrupt_on_short_packet(words: [u32; 4]) -> (result: [u32; 4])
    requires
        is_isoch(words@),
    ensures
        result@ == words@.update(3, with_field(words@[3], 0x4, 2, 1)),
{
    let mut trb = xhci::ring::trb::transfer::Isoch::try_from(words).unwrap();
    trb.set_interrupt_on_short_packet();
    trb.into_raw()
}

/// `Isoch::set_td_size_or_tbc` of the `xhci` crate: bits 17 to 21 of word 2.
#[verifier::external_body]
fn xhci_isoch_set_td_size_or_tbc(words: [u32; 4], count: u8) -> (result: [u32; 4])
    requires
        is_isoch(words@),
        count <= 0x1f,
    ensures
        result@ == words@.update(2, with_field(words@[2], 0x2_0000, 0x20, count as int)),
{
    let mut trb = xhci::ring::trb::transfer::Isoch::try_from(words).unwrap();
    trb.set_td_size_or_tbc(count);
    trb.into_raw()
}

/// `Isoch::set_transfer_last_burst_packet_count` of the `xhci` crate: bits 16 to
/// 19 of word 3.
#[verifier::external_body]
fn xhci_isoch_set_transfer_last_burst_packet_count(words: [u32; 4], count: u8) -> (result: [u32; 4])
    requires
        is_isoch(words@),
        count <= 0xf,
    ensures
        result@ == words@.update(3, with_field(words@[3], 0x1_0000, 0x10, count as int)),
{
    let mut trb = xhci::ring::trb::transfer::Isoch::try_from(words).unwrap();
    trb.set_transfer_last_burst_packet_count(count);
    trb.into_raw()
}

/// `Isoch::set_interrupt_on_completion` of the `xhci` crate: sets bit 5 of
/// word 3.
#[verifier::external_body]
fn xhci_isoch_set_interrupt_on_completion(words: [u32; 4]) -> (result: [u32; 4])
    requires
        is_isoch(words@),
    ensures
        result@ == words@.update(3, with_field(words@[3], 0x20, 2, 1)),
{
    let mut trb = xhci::ring::trb::transfer::Isoch::try_from(words).unwrap();
    trb.set_interrupt_on_completion();
    trb.into_raw()
}

/// `Isoch::set_block_event_interrupt` of the `xhci` crate: sets bit 9 of word 3.
#[verifier::external_body]
fn xhci_isoch_set_block_event_interrupt(words: [u32; 4]) -> (result: [u32; 4])
    requires
        is_isoch(words@),
    ensures
        result@ == words@.update(3, with_field(words@[3], 0x200, 2, 1)),
{
    let mut trb = xhci::ring::trb::transfer::Isoch::try_from(words).unwrap();
    trb.set_block_event_interrupt();
    trb.into_raw()
}

/// When the controller is to start an isochronous TD.
#[derive(Clone, Copy, Debug, PartialEq, Eq, Structural)]
pub enum IsoStart {
    /// As soon as possible.
    Asap,
    /// In the given frame.
    Frame(u16),
}

/// The fields of the last word of an Isoch TRB do not overlap.
proof fn lemma_isoch_word(short: int, last: int, start: int, completion: int, block: int)
    requires
        short == 0 || short == 0x4,
        completion == 0 || completion == 0x20,
        block == 0 || block == 0x200,
        0 <= last <= 0xf_0000,
        last % 0x1_0000 == 0,
        0 <= start <= 0x8000_0000,
        start % 0x10_0000 == 0,
    ensures
        ({
            let word = 0x1400 + short + completion + block + last + start;
            &&& 0 <= word < 0x1_0000_0000
            &&& (word / 0x400) % 0x40 == 5
            &&& (word / 0x4) % 2 == short / 0x4
            &&& (word / 0x20) % 2 == completion / 0x20
            &&& (word / 0x200) % 2 == block / 0x200
            &&& (word / 0x1_0000) % 0x10 == last / 0x1_0000
        }),
{
    let word = 0x1400 + short + completion + block + last + start;
    let s = start / 0x10_0000;
    let l = last / 0x1_0000;
    assert(word == 0x1400 + short + completion + block + l * 0x1_0000 + s * 0x10_0000);
    assert(word / 0x1_0000 == l + s * 0x10);
    assert((l + s * 0x10) % 0x10 == l);
    assert(word / 0x400 == 5 + l * 0x40 + s * 0x400);
    assert(word / 0x200 == 10 + block / 0x200 + l * 0x80 + s * 0x800);
    assert(word / 0x20 == 0xa0 + completion / 0x20 + (block / 0x200) * 0x10 + l * 0x800 + s * 0x8000);
    assert(word / 0x4 == 0x500 + short / 0x4 + (completion / 0x20) * 0x8 + (block / 0x200) * 0x80
        + l * 0x4000 + s * 0x4_0000);
}

/// What an Isoch TRB asks for.
#[derive(Clone, Copy, Debug, PartialEq, Eq, Structural)]
pub struct IsochFields {
    pub pointer: u64,
    pub length: u32,
    pub start: IsoStart,
    pub interrupt_on_short_packet: bool,
    pub burst_count: u8,
    pub last_burst_packet_count: u8,
    pub block_event_interrupt: bool,
}

/// `value` where `set`, and zero where not.
#[verifier::inline]
pub open spec fn flag(set: bool, value: int) -> int {
    if set {
        value
    } else {
        0
    }
}

impl IsochFields {
    /// Whether every field fits the bits that the TRB has for it.
    pub open spec fn fit(self) -> bool {
        &&& self.length <= TRB_LENGTH_MAX
        &&& self.burst_count <= 0x1f
        &&& self.last_burst_packet_count <= 0xf
        &&& self.start matches IsoStart::Frame(frame_id) ==> frame_id <= 0x7ff
    }

    /// The four words of the TRB. Completion always raises an event; interrupter
    /// zero receives it.
    pub open spec fn words(self) -> Seq<u32> {
        let start: int = match self.start {
            IsoStart::Asap => 0x8000_0000,
            IsoStart::Frame(frame_id) => frame_id * 0x10_0000,
        };
        seq![
            low_word(self.pointer),
            high_word(self.pointer),
            (self.length + self.burst_count * 0x2_0000) as u32,
            (0x1400 + 0x20 + flag(self.interrupt_on_short_packet, 0x4) + flag(
                self.block_event_interrupt,
                0x200,
            ) + self.last_burst_packet_count * 0x1_0000 + start) as u32,
        ]
    }

    /// Builds the TRB.
    pub fn build(self) -> (words: [u32; 4])
        requires
            self.fit(),
        ensures
            words@ == self.words(),
    {
        let ghost start: int = match self.start {
            IsoStart::Asap => 0x8000_0000,
            IsoStart::Frame(frame_id) => frame_id * 0x10_0000,
        };
        let ghost short: int = flag(self.interrupt_on_short_packet, 0x4);
        let ghost last: int = self.last_burst_packet_count * 0x1_0000;
        let ghost block: int = flag(self.block_event_interrupt, 0x200);
        let words = xhci_isoch(self.pointer, self.length, 0);
        let words = match self.start {
            IsoStart::Asap => xhci_isoch_set_start_isoch_asap(words),
            IsoStart::Frame(frame_id) => xhci_isoch_set_frame_id(words, frame_id),
        };
        proof {
            lemma_isoch_word(0, 0, start, 0, 0);
            assert(words@[3] == 0x1400 + start);
        }
        let words = if self.interrupt_on_short_packet {
            xhci_isoch_set_interrupt_on_short_packet(words)
        } else {
            words
        };
        proof {
            assert(words@[3] == 0x1400 + start + short);
            lemma_isoch_word(short, 0, start, 0, 0);
        }
        let words = xhci_isoch_set_td_size_or_tbc(words, self.burst_count);
        let words = xhci_isoch_set_transfer_last_burst_packet_count(
            words,
            self.last_burst_packet_count,
        );
        proof {
            assert(words@[3] == 0x1400 + start + short + last);
            lemma_isoch_word(short, last, start, 0, 0);
        }
        let words = xhci_isoch_set_interrupt_on_completion(words);
        proof {
            assert(words@[3] == 0x1400 + start + short + last + 0x20);
            lemma_isoch_word(short, last, start, 0x20, 0);
        }
        let words = if self.block_event_interrupt {
            xhci_isoch_set_block_event_interrupt(words)
        } else {
            words
        };
        assert(words@ =~= self.words());
        words
    }
}

// ---------------------------------------------------------------------------
// Normal TRB
// ---------------------------------------------------------------------------

/// Whether four words are a Normal TRB: its type in the last word, and zero in the
/// reserved bits 7, 8 and 16 to 31 of it.
pub open spec fn is_normal(words: Seq<u32>) -> bool {
    &&& words.len() == 4
    &&& trb_type(words) == 1
    &&& (words[3] as int / 0x80) % 0x4 == 0
    &&& words[3] < 0x1_0000
}

/// `Normal::new` and the setters of the `xhci` crate for the data buffer pointer
/// (words 0 and 1), the transfer length (bits 0 to 16 of word 2) and the interrupter
/// target (bits 22 to 31 of word 2). Beside the TRB type, nothing else is set.
#[verifier::external_body]
fn xhci_normal(pointer: u64, length: u32, target: u16) -> (words: [u32; 4])
    requires
        length <= TRB_LENGTH_MAX,
        target <= 0x3ff,
    ensures
        words@ == seq![
            low_word(pointer),
            high_word(pointer),
            (length + target * 0x40_0000) as u32,
            0x400u32,
        ],
{
    let mut trb = xhci::ring::trb::transfer::Normal::new();
    trb.set_data_buffer_pointer(pointer);
    trb.set_trb_transfer_length(length);
    trb.set_interrupter_target(target);
    trb.into_raw()
}

/// `Normal::set_interrupt_on_short_packet` of the `xhci` crate: sets bit 2 of word 3.
#[verifier::external_body]
fn xhci_normal_set_interrupt_on_short_packet(words: [u32; 4]) -> (result: [u32; 4])
    requires
        is_normal(words@),
    ensures
        result@ == words@.update(3, with_field(words@[3], 0x4, 2, 1)),
{
    let mut trb = xhci::ring::trb::transfer::Normal::try_from(words).unwrap();
    trb.set_interrupt_on_short_packet();
    trb.into_raw()
}

/// `Normal::set_interrupt_on_completion` of the `xhci` crate: sets bit 5 of word 3.
#[verifier::external_body]
fn xhci_normal_set_interrupt_on_completion(words: [u32; 4]) -> (result: [u32; 4])
    requires
        is_normal(words@),
    ensures
        result@ == words@.update(3, with_field(words@[3], 0x20, 2, 1)),
{
    let mut trb = xhci::ring::trb::transfer::Normal::try_from(words).unwrap();
    trb.set_interrupt_on_completion();
    trb.into_raw()
}

/// The Normal TRB that moves `length` bytes at `pointer` and raises an event on
/// completion and on a short packet.
pub open spec fn normal_words(pointer: u64, length: u32) -> Seq<u32> {
    seq![low_word(pointer), high_word(pointer), length, 0x424u32]
}

pub fn normal_trb(pointer: u64, length: u32) -> (words: [u32; 4])
    requires
        length <= TRB_LENGTH_MAX,
    ensures
        words@ == normal_words(pointer, length),
{
    let words = xhci_normal(pointer, length, 0);
    let words = xhci_normal_set_interrupt_on_short_packet(words);
    let words = xhci_normal_set_interrupt_on_completion(words);
    assert(words@ =~= normal_words(pointer, length));
    words
}

// ---------------------------------------------------------------------------
// Setup, Data and Status Stage TRBs
// ---------------------------------------------------------------------------

/// Transfer Type field of a Setup Stage TRB.
#[derive(Clone, Copy, Debug, PartialEq, Eq, Structural)]
pub enum SetupTransferType {
    NoData,
    OutData,
    InData,
}

impl SetupTransferType {
    pub open spec fn code(self) -> int {
        match self {
            SetupTransferType::NoData => 0,
            SetupTransferType::OutData => 2,
            SetupTransferType::InData => 3,
        }
    }
}

/// The eight bytes of a setup packet, field by field.
#[derive(Clone, Copy, Debug, PartialEq, Eq, Structural)]
pub struct SetupPacket {
    pub request_type: u8,
    pub request: u8,
    pub value: u16,
    pub index: u16,
    pub length: u16,
}

/// `SetupStage::default` and the setters of the `xhci` crate for the five fields
/// of the setup packet (words 0 and 1) and the transfer type (bits 16 and 17 of
/// word 3). `default` itself puts 8 into the length field and sets the immediate
/// data bit.
#[verifier::external_body]
fn xhci_setup_stage(packet: SetupPacket, transfer_type: SetupTransferType) -> (words: [u32; 4])
    ensures
        words@ == seq![
            (packet.request_type + packet.request * 0x100 + packet.value * 0x1_0000) as u32,
            (packet.index + packet.length * 0x1_0000) as u32,
            8u32,
            (0x840 + transfer_type.code() * 0x1_0000) as u32,
        ],
{
    let mut trb = xhci::ring::trb::transfer::SetupStage::default();
    trb.set_request_type(packet.request_type).set_request(packet.request);
    trb.set_value(packet.value).set_index(packet.index).set_length(packet.length);
    trb.set_transfer_type(match transfer_type {
        SetupTransferType::NoData => xhci::ring::trb::transfer::TransferType::No,
        SetupTransferType::OutData => xhci::ring::trb::transfer::TransferType::Out,
        SetupTransferType::InData => xhci::ring::trb::transfer::TransferType::In,
    });
    trb.into_raw()
}

/// `DataStage::default` and the setters of the `xhci` crate for the data buffer
/// pointer (words 0 and 1), the transfer length (bits 0 to 16 of word 2) and the
/// direction (bit 16 of word 3). Beside the TRB type, nothing else is set.
#[verifier::external_body]
fn xhci_data_stage(pointer: u64, length: u32, direction: Direction) -> (words: [u32; 4])
    requires
        length <= TRB_LENGTH_MAX,
    ensures
        words@ == seq![
            low_word(pointer),
            high_word(pointer),
            length,
            (0xc00 + flag(direction == Direction::In, 0x1_0000)) as u32,
        ],
{
    let mut trb = xhci::ring::trb::transfer::DataStage::default();
    trb.set_data_buffer_pointer(pointer).set_trb_transfer_length(length);
    trb.set_direction(match direction {
        Direction::Out => xhci::ring::trb::transfer::Direction::Out,
        Direction::In => xhci::ring::trb::transfer::Direction::In,
    });
    trb.into_raw()
}

/// Whether four words are a Data Stage TRB: its type in the last word, and zero
/// in the reserved bits 7 to 9 and 17 to 31 of it.
pub open spec fn is_data_stage(words: Seq<u32>) -> bool {
    &&& words.len() == 4
    &&& trb_type(words) == 3
    &&& (words[3] as int / 0x80) % 0x8 == 0
    &&& words[3] < 0x2_0000
}

/// `DataStage::set_interrupt_on_short_packet` of the `xhci` crate: sets bit 2 of
/// word 3.
#[verifier::external_body]
fn xhci_data_stage_set_interrupt_on_short_packet(words: [u32; 4]) -> (result: [u32; 4])
    requires
        is_data_stage(words@),
    ensures
        result@ == words@.update(3, with_field(words@[3], 0x4, 2, 1)),
{
    let mut trb = xhci::ring::trb::transfer::DataStage::try_from(words).unwrap();
    trb.set_interrupt_on_short_packet();
    trb.into_raw()
}

/// `StatusStage::default` of the `xhci` crate: the TRB type, and zero elsewhere.
#[verifier::external_body]
fn xhci_status_stage() -> (words: [u32; 4])
    ensures
        words@ == seq![0u32, 0u32, 0u32, 0x1000u32],
{
    xhci::ring::trb::transfer::StatusStage::default().into_raw()
}

/// Whether four words are a Status Stage TRB whose reserved bits are zero.
pub open spec fn is_status_stage(words: Seq<u32>) -> bool {
    &&& words.len() == 4
    &&& words[0] == 0
    &&& words[1] == 0
    &&& words[2] % 0x40_0000 == 0
    &&& trb_type(words) == 4
    &&& (words[3] as int / 0x4) % 0x4 == 0
    &&& (words[3] as int / 0x40) % 0x10 == 0
    &&& words[3] < 0x2_0000
}

/// `StatusStage::set_interrupt_on_completion` of the `xhci` crate: sets bit 5 of
/// word 3.
#[verifier::external_body]
fn xhci_status_stage_set_interrupt_on_completion(words: [u32; 4]) -> (result: [u32; 4])
    requires
        is_status_stage(words@),
    ensures
        result@ == words@.update(3, with_field(words@[3], 0x20, 2, 1)),
{
    let mut trb = xhci::ring::trb::transfer::StatusStage::try_from(words).unwrap();
    trb.set_interrupt_on_completion();
    trb.into_raw()
}

/// `StatusStage::set_direction` of the `xhci` crate: sets bit 16 of word 3.
#[verifier::external_body]
fn xhci_status_stage_set_direction(words: [u32; 4]) -> (result: [u32; 4])
    requires
        is_status_stage(words@),
    ensures
        result@ == words@.update(3, with_field(words@[3], 0x1_0000, 2, 1)),
{
    let mut trb = xhci::ring::trb::transfer::StatusStage::try_from(words).unwrap();
    trb.set_direction();
    trb.into_raw()
}

/// `StatusStage::clear_direction` of the `xhci` crate: clears bit 16 of word 3.
#[verifier::external_body]
fn xhci_status_stage_clear_direction(words: [u32; 4]) -> (result: [u32; 4])
    requires
        is_status_stage(words@),
    ensures
        result@ == words@.update(3, with_field(words@[3], 0x1_0000, 2, 0)),
{
    let mut trb = xhci::ring::trb::transfer::StatusStage::try_from(words).unwrap();
    trb.clear_direction();
    trb.into_raw()
}

/// The setup packet of a control transfer of `data_len` bytes.
///
/// `wLength` has 16 bits and takes the low bits of a longer length.
pub open spec fn setup_packet(
    setup: ControlSetup,
    direction: Direction,
    data_len: usize,
) -> SetupPacket {
    SetupPacket {
        request_type: (BmRequestType {
            direction,
            request_type: setup.request_type,
            recipient: setup.recipient,
        }).code(),
        request: setup.request.code(),
        value: setup.value,
        index: setup.index,
        length: data_len as u16,
    }
}

/// The Setup Stage TRB of a control transfer of `data_len` bytes.
pub open spec fn setup_stage_words(
    setup: ControlSetup,
    direction: Direction,
    data_len: usize,
) -> Seq<u32> {
    let packet = setup_packet(setup, direction, data_len);
    let transfer_type: int = if data_len == 0 {
        0
    } else if direction == Direction::In {
        3
    } else {
        2
    };
    seq![
        (packet.request_type + packet.request * 0x100 + packet.value * 0x1_0000) as u32,
        (packet.index + packet.length * 0x1_0000) as u32,
        8u32,
        (0x840 + transfer_type * 0x1_0000) as u32,
    ]
}

pub fn setup_stage_trb(setup: ControlSetup, direction: Direction, data_len: usize) -> (words: [u32;
    4])
    ensures
        words@ == setup_stage_words(setup, direction, data_len),
{
    let request_type = BmRequestType {
        direction,
        request_type: setup.request_type,
        recipient: setup.recipient,
    };
    let transfer_type = if data_len == 0 {
        SetupTransferType::NoData
    } else {
        match direction {
            Direction::In => SetupTransferType::InData,
            Direction::Out => SetupTransferType::OutData,
        }
    };
    let packet = SetupPacket {
        request_type: request_type.raw(),
        request: setup.request.raw(),
        value: setup.value,
        index: setup.index,
        length: data_len as u16,
    };
    xhci_setup_stage(packet, transfer_type)
}

/// The Data Stage TRB of a control transfer. Only a device can send less than it
/// was asked for, so only an IN stage raises an event on a short packet.
pub open spec fn data_stage_words(pointer: u64, length: u32, direction: Direction) -> Seq<u32> {
    let input: bool = direction == Direction::In;
    seq![
        low_word(pointer),
        high_word(pointer),
        length,
        (0xc00 + flag(input, 0x1_0000) + flag(input, 0x4)) as u32,
    ]
}

pub fn data_stage_trb(pointer: u64, length: u32, direction: Direction) -> (words: [u32; 4])
    requires
        length <= TRB_LENGTH_MAX,
    ensures
        words@ == data_stage_words(pointer, length, direction),
{
    let words = xhci_data_stage(pointer, length, direction);
    let words = match direction {
        Direction::In => xhci_data_stage_set_interrupt_on_short_packet(words),
        Direction::Out => words,
    };
    assert(words@ =~= data_stage_words(pointer, length, direction));
    words
}

/// The Status Stage TRB of a control transfer: it runs against the data stage,
/// and IN where there is none.
pub open spec fn status_stage_words(direction: Direction, data_len: usize) -> Seq<u32> {
    let output: bool = direction == Direction::In && data_len > 0;
    seq![0u32, 0u32, 0u32, (0x1020 + flag(!output, 0x1_0000)) as u32]
}

pub fn status_stage_trb(direction: Direction, data_len: usize) -> (words: [u32; 4])
    ensures
        words@ == status_stage_words(direction, data_len),
{
    let words = xhci_status_stage();
    let words = xhci_status_stage_set_interrupt_on_completion(words);
    let words = if direction == Direction::In && data_len > 0 {
        xhci_status_stage_clear_direction(words)
    } else {
        xhci_status_stage_set_direction(words)
    };
    assert(words@ =~= status_stage_words(direction, data_len));
    words
}

// ---------------------------------------------------------------------------
// Command TRBs
// ---------------------------------------------------------------------------

/// `StopEndpoint::default`, `set_endpoint_id` and `set_slot_id` of the `xhci`
/// crate: the TRB type, bits 16 to 20 and bits 24 to 31 of word 3.
#[verifier::external_body]
fn xhci_stop_endpoint(endpoint_id: u8, slot_id: u8) -> (words: [u32; 4])
    requires
        endpoint_id <= 31,
    ensures
        words@ == seq![
            0u32,
            0u32,
            0u32,
            (0x3c00 + endpoint_id * 0x1_0000 + slot_id * 0x100_0000) as u32,
        ],
{
    let mut trb = xhci::ring::trb::command::StopEndpoint::default();
    trb.set_endpoint_id(endpoint_id).set_slot_id(slot_id);
    trb.into_raw()
}

/// `ResetEndpoint::default`, `set_endpoint_id` and `set_slot_id` of the `xhci`
/// crate: the TRB type, bits 16 to 20 and bits 24 to 31 of word 3.
#[verifier::external_body]
fn xhci_reset_endpoint(endpoint_id: u8, slot_id: u8) -> (words: [u32; 4])
    requires
        endpoint_id <= 31,
    ensures
        words@ == seq![
            0u32,
            0u32,
            0u32,
            (0x3800 + endpoint_id * 0x1_0000 + slot_id * 0x100_0000) as u32,
        ],
{
    let mut trb = xhci::ring::trb::command::ResetEndpoint::default();
    trb.set_endpoint_id(endpoint_id).set_slot_id(slot_id);
    trb.into_raw()
}

/// `SetTrDequeuePointer::default`, `set_new_tr_dequeue_pointer`,
/// `set_endpoint_id` and `set_slot_id` of the `xhci` crate: the pointer in words
/// 0 and 1, the TRB type, bits 16 to 20 and bits 24 to 31 of word 3. The crate
/// insists on a pointer aligned to 16 bytes.
#[verifier::external_body]
fn xhci_set_tr_dequeue_pointer(pointer: u64, endpoint_id: u8, slot_id: u8) -> (words: [u32; 4])
    requires
        pointer % 16 == 0,
        endpoint_id <= 31,
    ensures
        words@ == seq![
            low_word(pointer),
            high_word(pointer),
            0u32,
            (0x4000 + endpoint_id * 0x1_0000 + slot_id * 0x100_0000) as u32,
        ],
{
    let mut trb = xhci::ring::trb::command::SetTrDequeuePointer::default();
    trb.set_new_tr_dequeue_pointer(pointer);
    trb.set_endpoint_id(endpoint_id).set_slot_id(slot_id);
    trb.into_raw()
}

/// Whether four words are a Set TR Dequeue Pointer Command TRB whose reserved
/// bits are zero.
pub open spec fn is_set_tr_dequeue_pointer(words: Seq<u32>) -> bool {
    &&& words.len() == 4
    &&& words[2] % 0x1_0000 == 0
    &&& trb_type(words) == 16
    &&& (words[3] as int / 0x2) % 0x200 == 0
    &&& (words[3] as int / 0x20_0000) % 0x8 == 0
}

/// `SetTrDequeuePointer::set_dequeue_cycle_state` of the `xhci` crate: sets bit 0
/// of word 0.
#[verifier::external_body]
fn xhci_set_dequeue_cycle_state(words: [u32; 4]) -> (result: [u32; 4])
    requires
        is_set_tr_dequeue_pointer(words@),
    ensures
        result@ == words@.update(0, with_field(words@[0], 1, 2, 1)),
{
    let mut trb = xhci::ring::trb::command::SetTrDequeuePointer::try_from(words).unwrap();
    trb.set_dequeue_cycle_state();
    trb.into_raw()
}

/// `SetTrDequeuePointer::clear_dequeue_cycle_state` of the `xhci` crate: clears
/// bit 0 of word 0.
#[verifier::external_body]
fn xhci_clear_dequeue_cycle_state(words: [u32; 4]) -> (result: [u32; 4])
    requires
        is_set_tr_dequeue_pointer(words@),
    ensures
        result@ == words@.update(0, with_field(words@[0], 1, 2, 0)),
{
    let mut trb = xhci::ring::trb::command::SetTrDequeuePointer::try_from(words).unwrap();
    trb.clear_dequeue_cycle_state();
    trb.into_raw()
}

/// Type, endpoint and slot of a command TRB, as its last word holds them.
pub open spec fn command_word(trb_type: int, endpoint_id: u8, slot_id: u8) -> u32 {
    (trb_type * 0x400 + endpoint_id * 0x1_0000 + slot_id * 0x100_0000) as u32
}

/// The Stop Endpoint Command TRB.
pub open spec fn stop_endpoint_words(endpoint_id: u8, slot_id: u8) -> Seq<u32> {
    seq![0u32, 0u32, 0u32, command_word(15, endpoint_id, slot_id)]
}

pub fn stop_endpoint_trb(endpoint_id: u8, slot_id: u8) -> (words: [u32; 4])
    requires
        endpoint_id <= 31,
    ensures
        words@ == stop_endpoint_words(endpoint_id, slot_id),
{
    xhci_stop_endpoint(endpoint_id, slot_id)
}

/// The Reset Endpoint Command TRB.
pub open spec fn reset_endpoint_words(endpoint_id: u8, slot_id: u8) -> Seq<u32> {
    seq![0u32, 0u32, 0u32, command_word(14, endpoint_id, slot_id)]
}

pub fn reset_endpoint_trb(endpoint_id: u8, slot_id: u8) -> (words: [u32; 4])
    requires
        endpoint_id <= 31,
    ensures
        words@ == reset_endpoint_words(endpoint_id, slot_id),
{
    xhci_reset_endpoint(endpoint_id, slot_id)
}

/// Where a controller is to resume reading a ring.
#[derive(Clone, Copy, Debug, PartialEq, Eq, Structural)]
pub struct EnqueuePointer {
    pub address: u64,
    pub cycle_state: bool,
}

/// The Set TR Dequeue Pointer Command TRB: the cycle state takes bit 0 of the
/// pointer, which alignment leaves free.
pub open spec fn set_tr_dequeue_pointer_words(
    pointer: EnqueuePointer,
    endpoint_id: u8,
    slot_id: u8,
) -> Seq<u32> {
    seq![
        (low_word(pointer.address) + flag(pointer.cycle_state, 1)) as u32,
        high_word(pointer.address),
        0u32,
        command_word(16, endpoint_id, slot_id),
    ]
}

pub fn set_tr_dequeue_pointer_trb(
    pointer: EnqueuePointer,
    endpoint_id: u8,
    slot_id: u8,
) -> (words: [u32; 4])
    requires
        pointer.address % 16 == 0,
        endpoint_id <= 31,
    ensures
        words@ == set_tr_dequeue_pointer_words(pointer, endpoint_id, slot_id),
{
    let words = xhci_set_tr_dequeue_pointer(pointer.address, endpoint_id, slot_id);
    let words = if pointer.cycle_state {
        xhci_set_dequeue_cycle_state(words)
    } else {
        xhci_clear_dequeue_cycle_state(words)
    };
    assert(words@ =~= set_tr_dequeue_pointer_words(pointer, endpoint_id, slot_id));
    words
}

// ---------------------------------------------------------------------------
// Reading TRBs
// ---------------------------------------------------------------------------

/// The 64-bit pointer in the first two words of a TRB.
pub open spec fn pointer_in(words: Seq<u32>) -> int {
    words[0] + words[1] * 0x1_0000_0000
}

/// The bits of a word from the one worth `unit` on that tell `span` values apart.
pub open spec fn bits_of(word: u32, unit: int, span: int) -> int {
    (word as int / unit) % span
}

/// The two halves of a pointer make up the pointer.
pub proof fn law_pointer_halves_make_up_the_pointer(pointer: u64)
    ensures
        low_word(pointer) + high_word(pointer) * 0x1_0000_0000 == pointer,
{
    assert(pointer / 0x1_0000_0000 <= 0xffff_ffff);
}

proof fn lemma_isoch_bits(short: int, block: int, last: int, start: int)
    requires
        0 <= short <= 1,
        0 <= block <= 1,
        0 <= last <= 0xf,
        0 <= start <= 0x800,
    ensures
        ({
            let word = 0x1420 + short * 0x4 + block * 0x200 + last * 0x1_0000 + start * 0x10_0000;
            &&& 0 <= word < 0x1_0000_0000
            &&& (word / 0x400) % 0x40 == 5
            &&& (word / 0x1) % 4 == 0
            &&& (word / 0x4) % 2 == short
            &&& (word / 0x8) % 4 == 0
            &&& (word / 0x20) % 2 == 1
            &&& (word / 0x40) % 8 == 0
            &&& (word / 0x200) % 2 == block
            &&& (word / 0x1_0000) % 0x10 == last
            &&& (word / 0x8000_0000) % 2 == start / 0x800
            &&& (word / 0x10_0000) % 0x800 == start % 0x800
        }),
{
    let word = 0x1420 + short * 0x4 + block * 0x200 + last * 0x1_0000 + start * 0x10_0000;
    assert(word / 0x400 == 5 + last * 0x40 + start * 0x400);
    assert(word / 0x4 == 0x508 + short + block * 0x80 + last * 0x4000 + start * 0x4_0000);
    assert(word / 0x8 == 0x284 + block * 0x40 + last * 0x2000 + start * 0x2_0000);
    assert(word / 0x20 == 0xa1 + block * 0x10 + last * 0x800 + start * 0x8000);
    assert(word / 0x40 == 0x50 + block * 0x8 + last * 0x400 + start * 0x4000);
    assert(word / 0x200 == 0xa + block + last * 0x80 + start * 0x800);
    assert(word / 0x1_0000 == last + start * 0x10);
    assert(word / 0x10_0000 == start);
}

proof fn lemma_length_bits(length: int, bursts: int)
    requires
        0 <= length <= 0x1_ffff,
        0 <= bursts <= 0x1f,
    ensures
        ({
            let word = length + bursts * 0x2_0000;
            &&& 0 <= word < 0x40_0000
            &&& (word / 1) % 0x2_0000 == length
            &&& (word / 0x2_0000) % 0x20 == bursts
            &&& (word / 0x40_0000) % 0x400 == 0
        }),
{
}

/// The controller reads from an Isoch TRB what it was built of: pointer, length,
/// bursts, start and interrupts. It always tells of completion, to the first
/// interrupter.
pub proof fn law_isoch_trb_can_be_read_back(fields: IsochFields)
    requires
        fields.fit(),
    ensures
        ({
            let words = fields.words();
            &&& words.len() == 4
            &&& pointer_in(words) == fields.pointer
            &&& bits_of(words[2], 1, 0x2_0000) == fields.length
            &&& bits_of(words[2], 0x2_0000, 0x20) == fields.burst_count
            &&& bits_of(words[2], 0x40_0000, 0x400) == 0
            &&& bits_of(words[3], 0x400, 0x40) == 5
            &&& bits_of(words[3], 0x1, 4) == 0
            &&& bits_of(words[3], 0x4, 2) == 1 <==> fields.interrupt_on_short_packet
            &&& bits_of(words[3], 0x8, 4) == 0
            &&& bits_of(words[3], 0x20, 2) == 1
            &&& bits_of(words[3], 0x40, 8) == 0
            &&& bits_of(words[3], 0x200, 2) == 1 <==> fields.block_event_interrupt
            &&& bits_of(words[3], 0x1_0000, 0x10) == fields.last_burst_packet_count
            &&& bits_of(words[3], 0x8000_0000, 2) == 1 <==> fields.start is Asap
            &&& bits_of(words[3], 0x10_0000, 0x800) == (match fields.start {
                IsoStart::Asap => 0,
                IsoStart::Frame(frame_id) => frame_id as int,
            })
        }),
{
    let words = fields.words();
    let start: int = match fields.start {
        IsoStart::Asap => 0x800,
        IsoStart::Frame(frame_id) => frame_id as int,
    };
    let short: int = flag(fields.interrupt_on_short_packet, 1);
    let last: int = fields.last_burst_packet_count as int;
    let block: int = flag(fields.block_event_interrupt, 1);
    law_pointer_halves_make_up_the_pointer(fields.pointer);
    lemma_isoch_bits(short, block, last, start);
    assert(words[3] == 0x1420 + short * 0x4 + block * 0x200 + last * 0x1_0000 + start * 0x10_0000);
    lemma_length_bits(fields.length as int, fields.burst_count as int);
    assert(words[2] == fields.length + fields.burst_count * 0x2_0000);
}

/// The controller reads pointer and length from a Normal TRB, and tells of completion
/// and of a short packet.
pub proof fn law_normal_trb_can_be_read_back(pointer: u64, length: u32)
    requires
        length <= TRB_LENGTH_MAX,
    ensures
        ({
            let words = normal_words(pointer, length);
            &&& words.len() == 4
            &&& pointer_in(words) == pointer
            &&& words[2] == length
            &&& words[3] == 1 * 0x400 + 0x20 + 0x4
        }),
{
    law_pointer_halves_make_up_the_pointer(pointer);
}

/// The device reads from a Setup Stage TRB the eight bytes of its setup packet, and
/// the controller whether data follows, and in which direction.
pub proof fn law_setup_stage_can_be_read_back(
    setup: ControlSetup,
    direction: Direction,
    data_len: usize,
)
    ensures
        ({
            let words = setup_stage_words(setup, direction, data_len);
            &&& words.len() == 4
            &&& bits_of(words[0], 0x80, 2) == 1 <==> direction is In
            &&& bits_of(words[0], 0x20, 4) == setup.request_type.code()
            &&& bits_of(words[0], 0x1, 0x20) == setup.recipient.code()
            &&& bits_of(words[0], 0x100, 0x100) == setup.request.code()
            &&& bits_of(words[0], 0x1_0000, 0x1_0000) == setup.value
            &&& bits_of(words[1], 0x1, 0x1_0000) == setup.index
            &&& bits_of(words[1], 0x1_0000, 0x1_0000) == data_len as u16
            &&& words[2] == 8
            &&& bits_of(words[3], 0x1, 0x1_0000) == 2 * 0x400 + 0x40
            &&& bits_of(words[3], 0x1_0000, 0x1_0000) == (if data_len == 0 {
                0
            } else if direction is In {
                3
            } else {
                2int
            })
        }),
{
    let request_type = BmRequestType {
        direction,
        request_type: setup.request_type,
        recipient: setup.recipient,
    };
    crate::usb::law_request_type_can_be_read_back(request_type);
    let words = setup_stage_words(setup, direction, data_len);
    let a: int = request_type.code() as int;
    let b: int = setup.request.code() as int;
    let c: int = setup.value as int;
    assert(words[0] == a + b * 0x100 + c * 0x1_0000);
    assert(words[0] as int / 0x80 == a / 0x80 + b * 2 + c * 0x200);
    assert(words[0] as int / 0x20 == a / 0x20 + b * 8 + c * 0x800);
    assert(words[0] as int / 0x100 == b + c * 0x100);
    assert((b + c * 0x100) % 0x100 == b);
    assert(words[0] as int % 0x20 == a % 0x20);
    let i: int = setup.index as int;
    let n: int = (data_len as u16) as int;
    assert(words[1] == i + n * 0x1_0000);
}

/// The controller reads pointer and length from a Data Stage TRB. Its direction bit is
/// set exactly where the data runs towards the host, and so is the interrupt on a
/// short packet.
pub proof fn law_data_stage_can_be_read_back(pointer: u64, length: u32, direction: Direction)
    requires
        length <= TRB_LENGTH_MAX,
    ensures
        ({
            let words = data_stage_words(pointer, length, direction);
            &&& words.len() == 4
            &&& pointer_in(words) == pointer
            &&& words[2] == length
            &&& bits_of(words[3], 0x400, 0x40) == 3
            &&& bits_of(words[3], 0x1_0000, 0x1_0000) == 1 <==> direction is In
            &&& bits_of(words[3], 0x1_0000, 0x1_0000) == 0 <==> direction is Out
            &&& bits_of(words[3], 0x1, 0x400) == 0x4 <==> direction is In
            &&& bits_of(words[3], 0x1, 0x400) == 0 <==> direction is Out
        }),
{
    law_pointer_halves_make_up_the_pointer(pointer);
}

/// A Status Stage TRB holds nothing but its direction, which is that of the data turned
/// round and towards the host where there is no data, and always tells of completion.
pub proof fn law_status_stage_can_be_read_back(direction: Direction, data_len: usize)
    ensures
        ({
            let words = status_stage_words(direction, data_len);
            &&& words.len() == 4
            &&& words[0] == 0 && words[1] == 0 && words[2] == 0
            &&& bits_of(words[3], 0x1, 0x1_0000) == 4 * 0x400 + 0x20
            &&& bits_of(words[3], 0x1_0000, 0x1_0000) == 0 <==> direction is In && data_len > 0
            &&& bits_of(words[3], 0x1_0000, 0x1_0000) == 1 <==> direction is Out || data_len == 0
        }),
{
}

/// Every command names its endpoint and its slot. The one that moves the dequeue
/// pointer holds the pointer, and the cycle state in the bit that alignment leaves
/// free.
pub proof fn law_commands_can_be_read_back(
    pointer: EnqueuePointer,
    endpoint_id: u8,
    slot_id: u8,
)
    requires
        endpoint_id <= 31,
        pointer.address % 16 == 0,
    ensures
        ({
            let stop = stop_endpoint_words(endpoint_id, slot_id);
            let reset = reset_endpoint_words(endpoint_id, slot_id);
            let set = set_tr_dequeue_pointer_words(pointer, endpoint_id, slot_id);
            &&& stop.len() == 4 && reset.len() == 4 && set.len() == 4
            &&& stop[0] == 0 && stop[1] == 0 && stop[2] == 0
            &&& reset[0] == 0 && reset[1] == 0 && reset[2] == 0
            &&& set[2] == 0
            &&& pointer_in(set) - set[0] as int % 2 == pointer.address
            &&& set[0] as int % 2 == 1 <==> pointer.cycle_state
            &&& bits_of(stop[3], 0x1, 0x1_0000) == 15 * 0x400
            &&& bits_of(reset[3], 0x1, 0x1_0000) == 14 * 0x400
            &&& bits_of(set[3], 0x1, 0x1_0000) == 16 * 0x400
            &&& bits_of(stop[3], 0x1_0000, 0x100) == endpoint_id
            &&& bits_of(reset[3], 0x1_0000, 0x100) == endpoint_id
            &&& bits_of(set[3], 0x1_0000, 0x100) == endpoint_id
            &&& bits_of(stop[3], 0x100_0000, 0x100) == slot_id
            &&& bits_of(reset[3], 0x100_0000, 0x100) == slot_id
            &&& bits_of(set[3], 0x100_0000, 0x100) == slot_id
        }),
{
    law_pointer_halves_make_up_the_pointer(pointer.address);
    let low = low_word(pointer.address);
    assert(low as int % 2 == 0);
    assert(low < 0xffff_ffff);
}

} // verus!
