//! Completion codes and transfer events of an xHCI controller.

use vstd::prelude::*;

use crate::error::TransferError;
use crate::error::TransferFault;

verus! {

/// TRB completion codes that the controller may report.
#[derive(Clone, Copy, Debug, PartialEq, Eq, Structural)]
pub enum CompletionCode {
    Invalid,
    Success,
    DataBufferError,
    BabbleDetectedError,
    UsbTransactionError,
    TrbError,
    StallError,
    ResourceError,
    BandwidthError,
    NoSlotsAvailableError,
    InvalidStreamTypeError,
    SlotNotEnabledError,
    EndpointNotEnabledError,
    ShortPacket,
    RingUnderrun,
    RingOverrun,
    VfEventRingFullError,
    ParameterError,
    BandwidthOverrunError,
    ContextStateError,
    NoPingResponseError,
    EventRingFullError,
    IncompatibleDeviceError,
    MissedServiceError,
    CommandRingStopped,
    CommandAborted,
    Stopped,
    StoppedLengthInvalid,
    StoppedShortPacket,
    MaxExitLatencyTooLargeError,
    IsochBufferOverrun,
    EventLostError,
    UndefinedError,
    InvalidStreamIdError,
    SecondaryBandwidthError,
    SplitTransactionError,
}

/// Whether `code` is a completion code with a meaning; the others are reserved
/// or left to vendors.
pub open spec fn is_defined_code(code: u8) -> bool {
    code <= 29 || 31 <= code <= 36
}

impl CompletionCode {
    /// The code as the controller writes it.
    pub open spec fn code(self) -> u8 {
        match self {
            CompletionCode::Invalid => 0,
            CompletionCode::Success => 1,
            CompletionCode::DataBufferError => 2,
            CompletionCode::BabbleDetectedError => 3,
            CompletionCode::UsbTransactionError => 4,
            CompletionCode::TrbError => 5,
            CompletionCode::StallError => 6,
            CompletionCode::ResourceError => 7,
            CompletionCode::BandwidthError => 8,
            CompletionCode::NoSlotsAvailableError => 9,
            CompletionCode::InvalidStreamTypeError => 10,
            CompletionCode::SlotNotEnabledError => 11,
            CompletionCode::EndpointNotEnabledError => 12,
            CompletionCode::ShortPacket => 13,
            CompletionCode::RingUnderrun => 14,
            CompletionCode::RingOverrun => 15,
            CompletionCode::VfEventRingFullError => 16,
            CompletionCode::ParameterError => 17,
            CompletionCode::BandwidthOverrunError => 18,
            CompletionCode::ContextStateError => 19,
            CompletionCode::NoPingResponseError => 20,
            CompletionCode::EventRingFullError => 21,
            CompletionCode::IncompatibleDeviceError => 22,
            CompletionCode::MissedServiceError => 23,
            CompletionCode::CommandRingStopped => 24,
            CompletionCode::CommandAborted => 25,
            CompletionCode::Stopped => 26,
            CompletionCode::StoppedLengthInvalid => 27,
            CompletionCode::StoppedShortPacket => 28,
            CompletionCode::MaxExitLatencyTooLargeError => 29,
            CompletionCode::IsochBufferOverrun => 31,
            CompletionCode::EventLostError => 32,
            CompletionCode::UndefinedError => 33,
            CompletionCode::InvalidStreamIdError => 34,
            CompletionCode::SecondaryBandwidthError => 35,
            CompletionCode::SplitTransactionError => 36,
        }
    }

    pub fn raw(self) -> (code: u8)
        ensures
            code == self.code(),
    {
        match self {
            CompletionCode::Invalid => 0,
            CompletionCode::Success => 1,
            CompletionCode::DataBufferError => 2,
            CompletionCode::BabbleDetectedError => 3,
            CompletionCode::UsbTransactionError => 4,
            CompletionCode::TrbError => 5,
            CompletionCode::StallError => 6,
            CompletionCode::ResourceError => 7,
            CompletionCode::BandwidthError => 8,
            CompletionCode::NoSlotsAvailableError => 9,
            CompletionCode::InvalidStreamTypeError => 10,
            CompletionCode::SlotNotEnabledError => 11,
            CompletionCode::EndpointNotEnabledError => 12,
            CompletionCode::ShortPacket => 13,
            CompletionCode::RingUnderrun => 14,
            CompletionCode::RingOverrun => 15,
            CompletionCode::VfEventRingFullError => 16,
            CompletionCode::ParameterError => 17,
            CompletionCode::BandwidthOverrunError => 18,
            CompletionCode::ContextStateError => 19,
            CompletionCode::NoPingResponseError => 20,
            CompletionCode::EventRingFullError => 21,
            CompletionCode::IncompatibleDeviceError => 22,
            CompletionCode::MissedServiceError => 23,
            CompletionCode::CommandRingStopped => 24,
            CompletionCode::CommandAborted => 25,
            CompletionCode::Stopped => 26,
            CompletionCode::StoppedLengthInvalid => 27,
            CompletionCode::StoppedShortPacket => 28,
            CompletionCode::MaxExitLatencyTooLargeError => 29,
            CompletionCode::IsochBufferOverrun => 31,
            CompletionCode::EventLostError => 32,
            CompletionCode::UndefinedError => 33,
            CompletionCode::InvalidStreamIdError => 34,
            CompletionCode::SecondaryBandwidthError => 35,
            CompletionCode::SplitTransactionError => 36,
        }
    }

    /// The completion code that the byte `code` stands for.
    pub fn from_raw(code: u8) -> (result: Option<CompletionCode>)
        ensures
            match result {
                Some(c) => is_defined_code(code) && c.code() == code,
                None => !is_defined_code(code),
            },
    {
        match code {
            0 => Some(CompletionCode::Invalid),
            1 => Some(CompletionCode::Success),
            2 => Some(CompletionCode::DataBufferError),
            3 => Some(CompletionCode::BabbleDetectedError),
            4 => Some(CompletionCode::UsbTransactionError),
            5 => Some(CompletionCode::TrbError),
            6 => Some(CompletionCode::StallError),
            7 => Some(CompletionCode::ResourceError),
            8 => Some(CompletionCode::BandwidthError),
            9 => Some(CompletionCode::NoSlotsAvailableError),
            10 => Some(CompletionCode::InvalidStreamTypeError),
            11 => Some(CompletionCode::SlotNotEnabledError),
            12 => Some(CompletionCode::EndpointNotEnabledError),
            13 => Some(CompletionCode::ShortPacket),
            14 => Some(CompletionCode::RingUnderrun),
            15 => Some(CompletionCode::RingOverrun),
            16 => Some(CompletionCode::VfEventRingFullError),
            17 => Some(CompletionCode::ParameterError),
            18 => Some(CompletionCode::BandwidthOverrunError),
            19 => Some(CompletionCode::ContextStateError),
            20 => Some(CompletionCode::NoPingResponseError),
            21 => Some(CompletionCode::EventRingFullError),
            22 => Some(CompletionCode::IncompatibleDeviceError),
            23 => Some(CompletionCode::MissedServiceError),
            24 => Some(CompletionCode::CommandRingStopped),
            25 => Some(CompletionCode::CommandAborted),
            26 => Some(CompletionCode::Stopped),
            27 => Some(CompletionCode::StoppedLengthInvalid),
            28 => Some(CompletionCode::StoppedShortPacket),
            29 => Some(CompletionCode::MaxExitLatencyTooLargeError),
            31 => Some(CompletionCode::IsochBufferOverrun),
            32 => Some(CompletionCode::EventLostError),
            33 => Some(CompletionCode::UndefinedError),
            34 => Some(CompletionCode::InvalidStreamIdError),
            35 => Some(CompletionCode::SecondaryBandwidthError),
            36 => Some(CompletionCode::SplitTransactionError),
            _ => None,
        }
    }

    /// What a transfer that ended with this code comes to.
    ///
    /// A short packet is a success: the transfer moved fewer bytes than it had
    /// room for. A stall has an error of its own, since it halts the endpoint.
    pub open spec fn verdict(self) -> Result<(), TransferError> {
        match self {
            CompletionCode::Success | CompletionCode::ShortPacket => Ok(()),
            CompletionCode::StallError => Err(TransferError::Stall),
            code => Err(TransferError::Other(TransferFault::CompletionCode(code))),
        }
    }

    pub fn to_result(self) -> (result: Result<(), TransferError>)
        ensures
            result == self.verdict(),
    {
        match self {
            CompletionCode::Success => Ok(()),
            CompletionCode::ShortPacket => Ok(()),
            CompletionCode::StallError => Err(TransferError::Stall),
            code => Err(TransferError::Other(TransferFault::CompletionCode(code))),
        }
    }
}

/// Whether four words are a Transfer Event TRB: type 32 in bits 10 to 15 of the
/// last word, and zero in the reserved bits 1, 3 to 9 and 21 to 23 of it.
pub open spec fn is_transfer_event(words: Seq<u32>) -> bool {
    &&& words.len() == 4
    &&& (words[3] / 0x2) % 0x2 == 0
    &&& (words[3] / 0x8) % 0x80 == 0
    &&& (words[3] / 0x400) % 0x40 == 32
    &&& (words[3] / 0x20_0000) % 0x8 == 0
}

/// The completion code field of a Transfer Event TRB.
pub open spec fn event_code_field(words: Seq<u32>) -> u8 {
    (words[2] / 0x100_0000) as u8
}

/// The TRB Transfer Length field of a Transfer Event TRB.
pub open spec fn event_length_field(words: Seq<u32>) -> u32 {
    (words[2] % 0x100_0000) as u32
}

/// `TransferEvent::try_from` of the `xhci` crate: it accepts four words exactly
/// when the TRB type is that of a transfer event and the reserved bits are zero.
#[verifier::external_body]
fn xhci_accepts_transfer_event(words: [u32; 4]) -> (accepted: bool)
    ensures
        accepted == is_transfer_event(words@),
{
    xhci::ring::trb::event::TransferEvent::try_from(words).is_ok()
}

/// `TransferEvent::completion_code` of the `xhci` crate: bits 24 to 31 of the
/// third word, as `Ok` where the crate has a completion code of that number and
/// as `Err` where it has none.
#[verifier::external_body]
fn xhci_completion_code(words: [u32; 4]) -> (code: Result<u8, u8>)
    requires
        is_transfer_event(words@),
    ensures
        code == (if is_defined_code(event_code_field(words@)) {
            Ok::<u8, u8>(event_code_field(words@))
        } else {
            Err::<u8, u8>(event_code_field(words@))
        }),
{
    let event = xhci::ring::trb::event::TransferEvent::try_from(words).unwrap();
    event.completion_code().map(|code| code as u8)
}

/// `TransferEvent::trb_transfer_length` of the `xhci` crate: bits 0 to 23 of the
/// third word.
#[verifier::external_body]
fn xhci_trb_transfer_length(words: [u32; 4]) -> (length: u32)
    requires
        is_transfer_event(words@),
    ensures
        length == event_length_field(words@),
{
    let event = xhci::ring::trb::event::TransferEvent::try_from(words).unwrap();
    event.trb_transfer_length()
}

/// Largest value that the TRB Transfer Length field of an event can hold.
pub const EVENT_LENGTH_MAX: u32 = 0xff_ffff;

/// What a Transfer Event TRB says about the TRB that it belongs to.
#[derive(Clone, Copy, Debug, PartialEq, Eq)]
pub struct TransferEvent {
    code: Result<CompletionCode, u8>,
    remaining: u32,
}

impl TransferEvent {
    /// The completion code, or the byte that is none.
    pub closed spec fn code(self) -> Result<CompletionCode, u8> {
        self.code
    }

    /// The length field: for most codes, how many bytes were not transferred.
    pub closed spec fn remaining(self) -> u32 {
        self.remaining
    }

    #[verifier::type_invariant]
    spec fn length_fits(self) -> bool {
        self.remaining <= EVENT_LENGTH_MAX
    }

    /// Decodes the four words of a Transfer Event TRB.
    pub fn from_words(words: [u32; 4]) -> (result: Option<TransferEvent>)
        ensures
            match result {
                Some(event) => {
                    &&& is_transfer_event(words@)
                    &&& event.remaining() == event_length_field(words@)
                    &&& match event.code() {
                        Ok(code) => code.code() == event_code_field(words@),
                        Err(raw) => raw == event_code_field(words@) && !is_defined_code(raw),
                    }
                },
                None => !is_transfer_event(words@),
            },
    {
        if !xhci_accepts_transfer_event(words) {
            return None;
        }
        let remaining: u32 = xhci_trb_transfer_length(words);
        let code = match xhci_completion_code(words) {
            Ok(raw) => match CompletionCode::from_raw(raw) {
                Some(code) => Ok(code),
                None => Err(raw),
            },
            Err(raw) => Err(raw),
        };
        Some(TransferEvent { code, remaining })
    }

    pub fn completion_code(&self) -> (code: Result<CompletionCode, u8>)
        ensures
            code == self.code(),
    {
        self.code
    }

    pub fn trb_transfer_length(&self) -> (length: u32)
        ensures
            length == self.remaining(),
            length <= EVENT_LENGTH_MAX,
    {
        proof {
            use_type_invariant(self);
        }
        self.remaining
    }
}

/// `a - b`, or zero where that would be negative.
pub open spec fn minus_or_zero(a: int, b: int) -> int {
    if a >= b {
        a - b
    } else {
        0
    }
}

/// How many bytes of a packet of `requested` bytes an event accounts for.
///
/// The codes that end a packet early without ending the stream count what was
/// moved before they struck. A stop after a short packet reports the count
/// itself, and a stop with an invalid length reports nothing.
pub open spec fn iso_actual_length(requested: usize, event: TransferEvent) -> Result<
    usize,
    TransferError,
> {
    let moved = minus_or_zero(requested as int, event.remaining() as int) as usize;
    match event.code() {
        Ok(code) => match code {
            CompletionCode::Success
            | CompletionCode::ShortPacket
            | CompletionCode::BabbleDetectedError
            | CompletionCode::IsochBufferOverrun
            | CompletionCode::MissedServiceError
            | CompletionCode::UsbTransactionError
            | CompletionCode::Stopped => Ok(moved),
            CompletionCode::StoppedShortPacket => Ok(event.remaining() as usize),
            CompletionCode::StoppedLengthInvalid => Ok(0),
            other => match other.verdict() {
                Ok(()) => Ok(moved),
                Err(err) => Err(err),
            },
        },
        Err(raw) => Err(TransferError::Other(TransferFault::UnknownIsoCompletionCode(raw))),
    }
}

pub fn iso_packet_actual_length(requested: usize, event: TransferEvent) -> (result: Result<
    usize,
    TransferError,
>)
    ensures
        result == iso_actual_length(requested, event),
        result matches Ok(actual) ==> actual <= iso_length_bound(requested),
{
    let remaining: usize = event.trb_transfer_length() as usize;
    match event.completion_code() {
        Ok(code) => match code {
            CompletionCode::Success => {
                if remaining == 0 {
                    Ok(requested)
                } else {
                    Ok(requested.saturating_sub(remaining))
                }
            },
            CompletionCode::ShortPacket
            | CompletionCode::BabbleDetectedError
            | CompletionCode::IsochBufferOverrun
            | CompletionCode::MissedServiceError
            | CompletionCode::UsbTransactionError
            | CompletionCode::Stopped => Ok(requested.saturating_sub(remaining)),
            CompletionCode::StoppedShortPacket => Ok(remaining),
            CompletionCode::StoppedLengthInvalid => Ok(0),
            code => match code.to_result() {
                Ok(()) => Ok(requested.saturating_sub(remaining)),
                Err(err) => Err(err),
            },
        },
        Err(raw) => Err(TransferError::Other(TransferFault::UnknownIsoCompletionCode(raw))),
    }
}

/// An upper bound on what any event can make of a packet of `requested` bytes.
pub open spec fn iso_length_bound(requested: usize) -> int {
    if requested >= EVENT_LENGTH_MAX {
        requested as int
    } else {
        EVENT_LENGTH_MAX as int
    }
}

/// The raw code to report for a packet: absent where the byte has no meaning.
pub open spec fn iso_reported_code(event: TransferEvent) -> Option<u8> {
    match event.code() {
        Ok(code) => Some(code.code()),
        Err(_) => None,
    }
}

pub fn iso_packet_completion_code(event: TransferEvent) -> (code: Option<u8>)
    ensures
        code == iso_reported_code(event),
{
    match event.completion_code() {
        Ok(code) => Some(code.raw()),
        Err(_) => None,
    }
}

/// Whether an event ends the whole isochronous transfer rather than one packet.
pub open spec fn iso_is_fatal(event: TransferEvent) -> bool {
    match event.code() {
        Ok(
            CompletionCode::Success
            | CompletionCode::ShortPacket
            | CompletionCode::BabbleDetectedError
            | CompletionCode::IsochBufferOverrun
            | CompletionCode::MissedServiceError
            | CompletionCode::UsbTransactionError
            | CompletionCode::Stopped
            | CompletionCode::StoppedShortPacket
            | CompletionCode::StoppedLengthInvalid,
        ) => false,
        _ => true,
    }
}

pub fn iso_packet_is_fatal(event: TransferEvent) -> (fatal: bool)
    ensures
        fatal == iso_is_fatal(event),
{
    match event.completion_code() {
        Ok(
            CompletionCode::Success
            | CompletionCode::ShortPacket
            | CompletionCode::BabbleDetectedError
            | CompletionCode::IsochBufferOverrun
            | CompletionCode::MissedServiceError
            | CompletionCode::UsbTransactionError
            | CompletionCode::Stopped
            | CompletionCode::StoppedShortPacket
            | CompletionCode::StoppedLengthInvalid,
        ) => false,
        Ok(_) => true,
        Err(_) => true,
    }
}

/// Every byte is either one defined completion code or none, and the code and
/// the byte determine each other.
pub proof fn law_codes_are_distinct(a: CompletionCode, b: CompletionCode)
    requires
        a.code() == b.code(),
    ensures
        a == b,
        is_defined_code(a.code()),
{
}

/// No event makes a packet longer than it was asked to be, but for the stop
/// after a short packet, whose length field is the count itself.
pub proof fn law_iso_length_within_request(requested: usize, event: TransferEvent)
    requires
        event.code() != Ok::<CompletionCode, u8>(CompletionCode::StoppedShortPacket),
    ensures
        iso_actual_length(requested, event) matches Ok(actual) ==> actual <= requested,
{
}

/// An event that has no length to report ends the whole transfer.
pub proof fn law_iso_error_is_fatal(requested: usize, event: TransferEvent)
    ensures
        iso_actual_length(requested, event) is Err ==> iso_is_fatal(event),
{
}

/// The numbers that the codes have on the wire.
pub proof fn law_codes_have_their_numbers(code: CompletionCode)
    ensures
        code.code() == 0 <==> code is Invalid,
        code.code() == 1 <==> code is Success,
        code.code() == 2 <==> code is DataBufferError,
        code.code() == 3 <==> code is BabbleDetectedError,
        code.code() == 4 <==> code is UsbTransactionError,
        code.code() == 5 <==> code is TrbError,
        code.code() == 6 <==> code is StallError,
        code.code() == 7 <==> code is ResourceError,
        code.code() == 8 <==> code is BandwidthError,
        code.code() == 9 <==> code is NoSlotsAvailableError,
        code.code() == 10 <==> code is InvalidStreamTypeError,
        code.code() == 11 <==> code is SlotNotEnabledError,
        code.code() == 12 <==> code is EndpointNotEnabledError,
        code.code() == 13 <==> code is ShortPacket,
        code.code() == 14 <==> code is RingUnderrun,
        code.code() == 15 <==> code is RingOverrun,
        code.code() == 16 <==> code is VfEventRingFullError,
        code.code() == 17 <==> code is ParameterError,
        code.code() == 18 <==> code is BandwidthOverrunError,
        code.code() == 19 <==> code is ContextStateError,
        code.code() == 20 <==> code is NoPingResponseError,
        code.code() == 21 <==> code is EventRingFullError,
        code.code() == 22 <==> code is IncompatibleDeviceError,
        code.code() == 23 <==> code is MissedServiceError,
        code.code() == 24 <==> code is CommandRingStopped,
        code.code() == 25 <==> code is CommandAborted,
        code.code() == 26 <==> code is Stopped,
        code.code() == 27 <==> code is StoppedLengthInvalid,
        code.code() == 28 <==> code is StoppedShortPacket,
        code.code() == 29 <==> code is MaxExitLatencyTooLargeError,
        code.code() == 31 <==> code is IsochBufferOverrun,
        code.code() == 32 <==> code is EventLostError,
        code.code() == 33 <==> code is UndefinedError,
        code.code() == 34 <==> code is InvalidStreamIdError,
        code.code() == 35 <==> code is SecondaryBandwidthError,
        code.code() == 36 <==> code is SplitTransactionError,
        code.code() != 30 && code.code() <= 36,
{
}

/// Only a success and a short packet let a transfer succeed. Every other code fails
/// it with an error of its own: the stall with the one that has its name, and no two
/// others with the same.
pub proof fn law_failing_codes_keep_their_identity(a: CompletionCode, b: CompletionCode)
    ensures
        a.verdict() is Ok <==> a.code() == 1 || a.code() == 13,
        a.verdict() matches Err(err) ==> (err == TransferError::Stall <==> a.code() == 6),
        a.verdict() matches Err(err) ==> a.code() != 6 ==> err == TransferError::Other(
            TransferFault::CompletionCode(a),
        ),
        a.verdict() is Err && a.verdict() == b.verdict() ==> a == b,
{
}

/// The completion code and the length of an event make up the word that it was read
/// from, and neither takes anything from the other's bits.
pub proof fn law_event_fields_make_up_the_word(words: Seq<u32>)
    ensures
        event_code_field(words) * 0x100_0000 + event_length_field(words) == words[2],
        event_length_field(words) < 0x100_0000,
{
    let word = words[2];
    assert(word / 0x100_0000 <= 255);
}

/// Where an event ends only its packet and counts what was left over, the bytes that
/// are reported and the bytes that are left over make up the packet. A packet of
/// which more is left over than it has is empty.
pub proof fn law_iso_length_and_rest_make_up_the_packet(requested: usize, event: TransferEvent)
    requires
        event.code() matches Ok(code) && (code is Success || code is ShortPacket
            || code is BabbleDetectedError || code is IsochBufferOverrun
            || code is MissedServiceError || code is UsbTransactionError || code is Stopped),
    ensures
        iso_actual_length(requested, event) matches Ok(actual) && if event.remaining()
            <= requested {
            actual + event.remaining() == requested
        } else {
            actual == 0
        },
{
}

/// A stop after a short packet gives the count itself, and a stop with an invalid
/// length none. No other event gives a length, but for those that count what was
/// left over: each fails with the error of its code, or with the byte that is none.
pub proof fn law_iso_length_of_the_other_events(requested: usize, event: TransferEvent)
    ensures
        match event.code() {
            Ok(code) => {
                let result = iso_actual_length(requested, event);
                &&& code.code() == 28 ==> (result matches Ok(actual) && actual
                    == event.remaining())
                &&& code.code() == 27 ==> (result matches Ok(actual) && actual == 0)
                &&& code.code() == 6 ==> (result matches Err(err) && err == TransferError::Stall)
                &&& code.code() != 1 && code.code() != 3 && code.code() != 4 && code.code() != 6
                    && code.code() != 13 && code.code() != 23 && code.code() != 26 && code.code()
                    != 27 && code.code() != 28 && code.code() != 31 ==> (result matches Err(err)
                    && err == TransferError::Other(TransferFault::CompletionCode(code)))
            },
            Err(raw) => iso_actual_length(requested, event) matches Err(err) && err
                == TransferError::Other(TransferFault::UnknownIsoCompletionCode(raw)),
        },
{
}

/// The more of a packet is left over, the less of it is reported, and a longer packet
/// never reports less. This holds of events with one and the same code, other than
/// the stop after a short packet.
pub proof fn law_iso_length_is_monotone(
    requested: usize,
    longer: usize,
    event: TransferEvent,
    other: TransferEvent,
)
    requires
        event.code() == other.code(),
        event.code() matches Ok(code) ==> !(code is StoppedShortPacket),
        event.remaining() <= other.remaining(),
        requested <= longer,
    ensures
        iso_actual_length(requested, other) matches Ok(less) ==> (iso_actual_length(
            longer,
            event,
        ) matches Ok(more) && less <= more),
{
}

/// An event ends the whole transfer exactly where it has no length to report, which
/// does not depend on the length of the packet.
pub proof fn law_iso_fatal_means_no_length(requested: usize, event: TransferEvent)
    ensures
        iso_is_fatal(event) <==> iso_actual_length(requested, event) is Err,
        iso_is_fatal(event) <==> !(event.code() matches Ok(code) && (code.code() == 1
            || code.code() == 3 || code.code() == 4 || code.code() == 13 || code.code() == 23
            || code.code() == 26 || code.code() == 27 || code.code() == 28 || code.code() == 31)),
{
}

/// The code that is reported for a packet is the byte that the controller wrote, and
/// is absent exactly where that byte is no code.
pub proof fn law_reported_code_is_the_byte(event: TransferEvent, words: Seq<u32>)
    requires
        match event.code() {
            Ok(code) => code.code() == event_code_field(words),
            Err(raw) => raw == event_code_field(words),
        },
    ensures
        iso_reported_code(event) is Some <==> event.code() is Ok,
        iso_reported_code(event) matches Some(byte) ==> byte == words[2] / 0x100_0000,
{
    assert(words[2] / 0x100_0000 <= 255);
}

} // verus!
