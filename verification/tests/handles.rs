use usb_transfer::endpoint::EndpointAddress;
use usb_transfer::endpoint::EndpointInfo;
use usb_transfer::endpoint::RequestId;
use usb_transfer::endpoint::TransferCompletion;
use usb_transfer::endpoint::TransferRequest;
use usb_transfer::endpoint::TransferStatus;
use usb_transfer::error::TransferError;
use usb_transfer::handle::EndpointHandle;
use usb_transfer::handle::PollRound;
use usb_transfer::handle::PollStep;
use usb_transfer::usb::Direction;
use usb_transfer::usb::EndpointType;

struct PendingEndpoint {
    cancelled: bool,
}

impl PendingEndpoint {
    fn submit_request(&mut self, _request: TransferRequest) -> Result<RequestId, TransferError> {
        Ok(RequestId::new(7))
    }

    fn reclaim_request(
        &mut self,
        _id: RequestId,
    ) -> Option<Result<TransferCompletion, TransferError>> {
        None
    }

    fn cancel_request(&mut self, id: RequestId) -> Result<(), TransferError> {
        assert_eq!(id, RequestId::new(7));
        self.cancelled = true;
        Ok(())
    }
}

fn info() -> EndpointInfo {
    EndpointInfo {
        address: EndpointAddress::new(1),
        transfer_type: EndpointType::Bulk,
        direction: Direction::Out,
        max_packet_size: 64,
        packets_per_microframe: 1,
        interval: 0,
    }
}

fn completion() -> TransferCompletion {
    TransferCompletion {
        request_id: RequestId::new(7),
        status: TransferStatus::Completed,
        actual_length: 3,
        iso_packets: vec![],
    }
}

/// Polls as a task does: reclaim, register the waker, reclaim again.
fn poll(handle: &EndpointHandle, raw: &mut PendingEndpoint, id: RequestId) -> PollStep {
    match handle.poll_request(PollRound::First, raw.reclaim_request(id)) {
        PollStep::Register => handle.poll_request(PollRound::Registered, raw.reclaim_request(id)),
        step => step,
    }
}

#[test]
fn dropping_pending_wait_cancels_the_inflight_request() {
    let mut raw = PendingEndpoint { cancelled: false };
    let endpoint = EndpointHandle::new(info());
    let request = TransferRequest::bulk_out(&[1, 2, 3]);
    endpoint.submit(&request).unwrap();
    let mut future = endpoint.wait(raw.submit_request(request)).unwrap();

    let step = poll(&endpoint, &mut raw, future.request_id());
    assert!(matches!(step, PollStep::Pending));
    future.poll(&step);
    if let Some(id) = future.cancel_on_drop() {
        raw.cancel_request(id).unwrap();
    }

    assert!(raw.cancelled);
}

#[test]
fn completed_wait_cancels_nothing() {
    let endpoint = EndpointHandle::new(info());
    let mut future = endpoint.wait(Ok(RequestId::new(7))).unwrap();
    let step = endpoint.poll_request(PollRound::First, Some(Ok(completion())));
    assert!(matches!(&step, PollStep::Ready(Ok(done)) if done.actual_length == 3));
    future.poll(&step);
    assert_eq!(future.cancel_on_drop(), None);
    // A failure is an end, too.
    let mut future = endpoint.wait(Ok(RequestId::new(8))).unwrap();
    let step = endpoint.poll_request(PollRound::Registered, Some(Err(TransferError::Stall)));
    future.poll(&step);
    future.poll(&PollStep::Pending);
    assert_eq!(future.cancel_on_drop(), None);
}

#[test]
fn refused_request_has_no_wait() {
    let endpoint = EndpointHandle::new(info());
    assert_eq!(
        endpoint.wait(Err(TransferError::QueueFull)).unwrap_err(),
        TransferError::QueueFull
    );
}

#[test]
fn handle_takes_requests_of_its_type_while_active() {
    let mut endpoint = EndpointHandle::new(info());
    let bulk = TransferRequest::bulk_out(&[1]);
    let interrupt = TransferRequest::interrupt_out(&[1]);
    assert_eq!(endpoint.info(), info());
    assert_eq!(endpoint.submit(&bulk), Ok(()));
    assert_eq!(endpoint.submit(&interrupt), Err(TransferError::InvalidEndpoint));
    endpoint.revoke();
    assert_eq!(endpoint.submit(&bulk), Err(TransferError::EndpointRevoked));
    assert_eq!(endpoint.submit(&interrupt), Err(TransferError::InvalidEndpoint));
    endpoint.disconnect();
    assert_eq!(endpoint.submit(&bulk), Err(TransferError::Disconnected));
    endpoint.reactivate();
    assert_eq!(endpoint.submit(&bulk), Ok(()));
}

#[test]
fn reclaim_turns_results_around() {
    let endpoint = EndpointHandle::new(info());
    assert!(matches!(endpoint.reclaim(None), Ok(None)));
    assert!(matches!(endpoint.reclaim(Some(Err(TransferError::Stall))), Err(TransferError::Stall)));
    assert!(matches!(
        endpoint.reclaim(Some(Ok(completion()))),
        Ok(Some(done)) if done.request_id == RequestId::new(7)
    ));
}
