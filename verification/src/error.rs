//! Errors of transfers and endpoints.

use vstd::prelude::*;

use crate::completion::CompletionCode;

verus! {

/// Why a transfer, or a request to transfer, failed.
#[derive(Clone, Copy, Debug, PartialEq, Eq, Structural)]
pub enum TransferError {
    /// The ring has no room for the request, or the endpoint is being reset.
    QueueFull,
    /// No such request, or a request of the wrong type for the endpoint.
    InvalidEndpoint,
    /// The request was cancelled, or retired when its endpoint was stopped.
    Cancelled,
    /// The handle was revoked by a reconfiguration.
    EndpointRevoked,
    /// The device is gone.
    Disconnected,
    /// The backend does not offer the operation.
    NotSupported,
    /// The device answered with a stall.
    Stall,
    /// Anything else.
    Other(TransferFault),
}

/// Detail of [`TransferError::Other`].
#[derive(Clone, Copy, Debug, PartialEq, Eq, Structural)]
pub enum TransferFault {
    /// The buffer could not be mapped for DMA.
    DmaMappingFailed,
    /// The mapped buffer `[start, end)` lies outside the controller's DMA mask.
    DmaMaskExceeded { start: u64, end: u64, mask: u64 },
    /// The controller reported a completion code that stands for a failure.
    CompletionCode(CompletionCode),
    /// The controller reported a completion code that has no meaning.
    TransferFailed,
    /// The same, for one packet of an isochronous transfer.
    UnknownIsoCompletionCode(u8),
    /// An isochronous TD was recorded for a transfer of another kind.
    NotIsochronous,
    /// An isochronous TD has another number of packets than its transfer.
    IsoPacketCount { ids: usize, packets: usize },
}

} // verus!
