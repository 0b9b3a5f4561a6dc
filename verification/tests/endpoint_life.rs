use usb_transfer::completion::CompletionCode;
use usb_transfer::completion::TransferEvent;
use usb_transfer::endpoint::RequestId;
use usb_transfer::endpoint::TransferRequest;
use usb_transfer::endpoint::TransferStatus;
use usb_transfer::error::TransferError;
use usb_transfer::error::TransferFault;
use usb_transfer::reclaim::FinishedEvents;
use usb_transfer::recovery::ResetProgress;
use usb_transfer::recovery::ResetStage;
use usb_transfer::state::SendRing;
use usb_transfer::submit::required_trbs;
use usb_transfer::submit::transfer_in_range;
use usb_transfer::transfer::DmaMapping;
use usb_transfer::transfer::Transfer;
use usb_transfer::trb::EnqueuePointer;
use usb_transfer::usb::ControlSetup;
use usb_transfer::usb::Direction;
use usb_transfer::usb::Recipient;
use usb_transfer::usb::Request;
use usb_transfer::usb::RequestType;
use usb_transfer::xhci_endpoint::ENDPOINT_RING_PAGES;
use usb_transfer::xhci_endpoint::Endpoint;
use usb_transfer::xhci_endpoint::Reclaimed;
use usb_transfer::xhci_endpoint::WakerPlan;

const RING: u64 = 0x1000;

/// An endpoint with a mapper and a ring that hand out addresses one after another.
struct Bench {
    endpoint: Endpoint,
    finished: FinishedEvents,
    next_trb: u64,
    next_dma: u64,
    active_mappings: usize,
    rung: Vec<u8>,
}

fn bench_with(usable_capacity: usize, dma_mask: u64) -> Bench {
    Bench {
        endpoint: Endpoint::new(1, 2, SendRing { bus_addr: RING, usable_capacity }, dma_mask),
        finished: FinishedEvents::new(),
        next_trb: RING,
        next_dma: 0x10_0000,
        active_mappings: 0,
        rung: Vec::new(),
    }
}

fn bench() -> Bench {
    bench_with(ENDPOINT_RING_PAGES * 256 - 1, u64::MAX)
}

impl Bench {
    fn submit(&mut self, request: TransferRequest) -> Result<RequestId, TransferError> {
        self.endpoint.admit_request(&request)?;
        let mapped = Transfer::mapping_request(request.direction(), request.buffer()).map(|wanted| {
            let dma_addr = (self.next_dma + wanted.align as u64 - 1) & !(wanted.align as u64 - 1);
            self.next_dma = dma_addr + wanted.buffer.len as u64;
            self.active_mappings += 1;
            DmaMapping { dma_addr, len: wanted.buffer.len }
        });
        let submission = match self.endpoint.submit_request(request, mapped) {
            Ok(submission) => submission,
            Err(err) => {
                if mapped.is_some() {
                    self.active_mappings -= 1;
                }
                return Err(err);
            }
        };
        let mut addresses = Vec::new();
        for _ in &submission.trbs {
            addresses.push(self.next_trb);
            self.next_trb += 16;
        }
        let committed = self.endpoint.commit_submission(submission, &addresses);
        self.rung.push(committed.doorbell_target);
        Ok(committed.id)
    }

    fn event(&mut self, trb: u64, code: u32, remaining: u32) {
        let event = TransferEvent::from_words([trb as u32, 0, (code << 24) | remaining, 32 << 10]);
        self.finished.set_finished(trb, event.unwrap());
    }

    fn reclaim(&mut self, id: RequestId) -> Option<Reclaimed> {
        let reclaimed = self.endpoint.reclaim_request(&self.finished, id);
        if let Some(reclaimed) = &reclaimed {
            if reclaimed.released.is_some() {
                self.active_mappings -= 1;
            }
        }
        reclaimed
    }

    fn retire(&mut self) -> Vec<u64> {
        let retired = self.endpoint.retire_all_after_stop();
        self.active_mappings -= retired.iter().filter(|r| r.released.is_some()).count();
        retired.iter().map(|r| r.request_id).collect()
    }
}

fn setup() -> ControlSetup {
    ControlSetup {
        request_type: RequestType::Standard,
        recipient: Recipient::Device,
        request: Request::GetDescriptor,
        value: 0x0100,
        index: 0,
    }
}

fn stalled(bench: &mut Bench) {
    let id = bench.submit(TransferRequest::bulk_out(&[1, 2, 3])).unwrap();
    let trb = bench.next_trb - 16;
    bench.event(trb, 6, 3);
    assert_eq!(bench.reclaim(id).unwrap().outcome.unwrap_err(), TransferError::Stall);
}

#[test]
fn stopped_iso_request_publishes_cancelled_exactly_once() {
    let mut bench = bench();
    let payload = [0u8; 128];
    let request_id = bench.submit(TransferRequest::iso_out(&payload, &[64, 64])).unwrap();

    assert_eq!(bench.endpoint.inflight.len(), 1);
    assert_eq!(bench.endpoint.trb_to_request.len(), 2);
    assert_eq!(bench.endpoint.outstanding_trbs, 2);
    assert_eq!(bench.active_mappings, 1);

    bench.endpoint.cancel_request(request_id).unwrap();
    bench.retire();

    assert!(bench.endpoint.inflight.is_empty());
    assert!(bench.endpoint.trb_to_request.is_empty());
    assert_eq!(bench.endpoint.outstanding_trbs, 0);
    assert_eq!(bench.active_mappings, 0);
    assert!(matches!(
        bench.reclaim(request_id),
        Some(Reclaimed { outcome: Err(TransferError::Cancelled), .. })
    ));
    assert!(bench.reclaim(request_id).is_none());
}

#[test]
fn new_endpoint_is_idle() {
    let endpoint = bench().endpoint;
    assert_eq!(endpoint.bus_addr(), RING);
    assert_eq!(endpoint.ring().usable_capacity, 4095);
    assert_eq!(endpoint.doorbell_target(), 2);
    assert_eq!(endpoint.config.interval, 1);
    assert!(endpoint.config.iso_start_asap);
    assert!(!endpoint.halted);
    assert_eq!(endpoint.next_request_id, 1);
}

#[test]
fn periodic_interval_is_at_least_one() {
    let mut endpoint = bench().endpoint;
    endpoint.configure_periodic(1024, 2, 0);
    assert_eq!(endpoint.config.max_packet_size, 1024);
    assert_eq!(endpoint.config.max_burst_size, 2);
    assert_eq!(endpoint.config.interval, 1);
    endpoint.configure_periodic(1024, 2, 7);
    assert_eq!(endpoint.config.interval, 7);
}

#[test]
fn bulk_request_completes_with_what_was_moved() {
    let mut bench = bench();
    let mut space = [0u8; 64];
    let id = bench.submit(TransferRequest::bulk_in(&mut space)).unwrap();
    assert!(bench.reclaim(id).is_none());
    assert_eq!(bench.endpoint.outstanding_trbs, 1);
    bench.event(RING, 13, 10);
    let reclaimed = bench.reclaim(id).unwrap();
    assert!(reclaimed.sync_for_cpu);
    assert_eq!(reclaimed.released, Some(DmaMapping { dma_addr: 0x10_0000, len: 64 }));
    let completion = reclaimed.outcome.unwrap();
    assert_eq!(completion.request_id, id);
    assert_eq!(completion.status, TransferStatus::Completed);
    assert_eq!(completion.actual_length, 54);
    assert!(completion.iso_packets.is_empty());
    assert_eq!(bench.active_mappings, 0);
    assert_eq!(bench.endpoint.outstanding_trbs, 0);
    assert!(bench.reclaim(id).is_none());
}

#[test]
fn output_needs_no_sync() {
    let mut bench = bench();
    let id = bench.submit(TransferRequest::interrupt_out(&[1, 2, 3])).unwrap();
    bench.event(RING, 1, 0);
    let reclaimed = bench.reclaim(id).unwrap();
    assert!(!reclaimed.sync_for_cpu);
    assert_eq!(reclaimed.outcome.unwrap().actual_length, 3);
}

#[test]
fn error_codes_fail_the_request() {
    let mut bench = bench();
    let id = bench.submit(TransferRequest::bulk_out(&[1, 2, 3])).unwrap();
    bench.event(RING, 5, 3);
    assert_eq!(
        bench.reclaim(id).unwrap().outcome.unwrap_err(),
        TransferError::Other(TransferFault::CompletionCode(CompletionCode::TrbError))
    );
    assert!(!bench.endpoint.halted);
    let id = bench.submit(TransferRequest::bulk_out(&[1, 2, 3])).unwrap();
    bench.event(RING + 16, 200, 3);
    assert_eq!(
        bench.reclaim(id).unwrap().outcome.unwrap_err(),
        TransferError::Other(TransferFault::TransferFailed)
    );
}

#[test]
fn control_transfer_without_data_takes_two_trbs() {
    let mut bench = bench();
    let id = bench.submit(TransferRequest::control_out(setup(), &[])).unwrap();
    assert_eq!(bench.endpoint.outstanding_trbs, 2);
    assert_eq!(bench.active_mappings, 0);
    bench.event(RING + 16, 1, 0);
    let reclaimed = bench.reclaim(id).unwrap();
    assert_eq!(reclaimed.outcome.unwrap().actual_length, 0);
    assert!(!reclaimed.sync_for_cpu);
}

#[test]
fn control_transfer_reports_its_data_stage() {
    let mut bench = bench();
    let mut space = [0u8; 18];
    let id = bench.submit(TransferRequest::control_in(setup(), &mut space)).unwrap();
    assert_eq!(bench.endpoint.outstanding_trbs, 3);
    bench.event(RING + 16, 13, 10);
    assert!(bench.reclaim(id).is_none());
    bench.event(RING + 32, 1, 0);
    let reclaimed = bench.reclaim(id).unwrap();
    assert!(reclaimed.sync_for_cpu);
    assert_eq!(reclaimed.outcome.unwrap().actual_length, 8);
}

#[test]
fn silent_data_stage_moved_everything() {
    let mut bench = bench();
    let mut space = [0u8; 18];
    let id = bench.submit(TransferRequest::control_in(setup(), &mut space)).unwrap();
    bench.event(RING + 32, 1, 0);
    assert_eq!(bench.reclaim(id).unwrap().outcome.unwrap().actual_length, 18);
}

#[test]
fn failing_stage_ends_a_control_transfer() {
    let mut bench = bench();
    let mut space = [0u8; 18];
    let id = bench.submit(TransferRequest::control_in(setup(), &mut space)).unwrap();
    bench.event(RING, 6, 8);
    assert_eq!(bench.reclaim(id).unwrap().outcome.unwrap_err(), TransferError::Stall);
    assert!(bench.endpoint.halted);
    assert!(bench.endpoint.inflight.is_empty());
    assert!(bench.endpoint.trb_to_request.is_empty());
}

#[test]
fn iso_transfer_reports_every_packet() {
    let mut bench = bench();
    let mut space = [0u8; 300];
    let id = bench.submit(TransferRequest::iso_in(&mut space, &[100, 100, 100])).unwrap();
    bench.event(RING, 13, 40);
    assert!(bench.reclaim(id).is_none());
    bench.event(RING + 16, 23, 100);
    assert!(bench.reclaim(id).is_none());
    bench.event(RING + 32, 1, 0);
    let completion = bench.reclaim(id).unwrap().outcome.unwrap();
    assert_eq!(completion.actual_length, 160);
    let lengths: Vec<usize> = completion.iso_packets.iter().map(|p| p.actual_length).collect();
    assert_eq!(lengths, vec![60, 0, 100]);
    let codes: Vec<Option<u8>> = completion.iso_packets.iter().map(|p| p.completion_code).collect();
    assert_eq!(codes, vec![Some(13), Some(23), Some(1)]);
    assert!(completion.iso_packets.iter().all(|p| p.requested_length == 100));
    assert!(completion.iso_packets.iter().all(|p| p.status == TransferStatus::Completed));
}

#[test]
fn last_packet_closes_silent_ones() {
    let mut bench = bench();
    let mut space = [0u8; 300];
    let id = bench.submit(TransferRequest::iso_in(&mut space, &[100, 100, 100])).unwrap();
    bench.event(RING + 32, 1, 0);
    let completion = bench.reclaim(id).unwrap().outcome.unwrap();
    assert_eq!(completion.actual_length, 100);
    assert_eq!(completion.iso_packets[0].actual_length, 0);
    assert_eq!(completion.iso_packets[0].completion_code, None);
    assert_eq!(completion.iso_packets[2].completion_code, Some(1));
}

#[test]
fn fatal_packet_fails_the_iso_transfer() {
    let mut bench = bench();
    let mut space = [0u8; 300];
    let id = bench.submit(TransferRequest::iso_in(&mut space, &[100, 100, 100])).unwrap();
    bench.event(RING + 16, 250, 0);
    assert_eq!(
        bench.reclaim(id).unwrap().outcome.unwrap_err(),
        TransferError::Other(TransferFault::UnknownIsoCompletionCode(250))
    );
    assert_eq!(bench.active_mappings, 0);
    let id = bench.submit(TransferRequest::iso_in(&mut space, &[100, 100, 100])).unwrap();
    let trb = bench.next_trb - 48;
    bench.event(trb, 6, 0);
    assert_eq!(bench.reclaim(id).unwrap().outcome.unwrap_err(), TransferError::Stall);
    assert!(bench.endpoint.halted);
}

#[test]
fn iso_transfer_without_packets_fails_on_completion() {
    let mut bench = bench();
    let id = bench.submit(TransferRequest::iso_out(&[], &[])).unwrap();
    assert_eq!(bench.endpoint.outstanding_trbs, 1);
    bench.event(RING, 1, 0);
    assert_eq!(
        bench.reclaim(id).unwrap().outcome.unwrap_err(),
        TransferError::Other(TransferFault::IsoPacketCount { ids: 1, packets: 0 })
    );
}

#[test]
fn cancelled_request_never_succeeds() {
    let mut bench = bench();
    let id = bench.submit(TransferRequest::bulk_out(&[1, 2, 3])).unwrap();
    assert_eq!(bench.endpoint.cancel_request(id), Ok(()));
    assert!(bench.reclaim(id).is_none());
    bench.event(RING, 6, 0);
    assert_eq!(bench.reclaim(id).unwrap().outcome.unwrap_err(), TransferError::Cancelled);
    assert!(!bench.endpoint.halted);
    assert_eq!(bench.endpoint.cancel_request(id), Err(TransferError::InvalidEndpoint));
}

#[test]
fn full_ring_refuses_requests() {
    let mut bench = bench_with(4, u64::MAX);
    let mut space = [0u8; 8];
    let first = bench.submit(TransferRequest::control_in(setup(), &mut space)).unwrap();
    assert_eq!(
        bench.submit(TransferRequest::bulk_out(&[1])).unwrap_err(),
        TransferError::QueueFull
    );
    assert_eq!(bench.active_mappings, 1);
    bench.event(RING + 32, 1, 0);
    assert!(bench.reclaim(first).unwrap().outcome.is_ok());
    assert!(bench.submit(TransferRequest::bulk_out(&[1])).is_ok());
    assert_eq!(
        bench_with(0, u64::MAX).submit(TransferRequest::bulk_out(&[1])).unwrap_err(),
        TransferError::QueueFull
    );
}

#[test]
fn buffers_beyond_the_mask_are_refused() {
    let mut bench = bench_with(64, 0x10_0010);
    assert!(bench.submit(TransferRequest::bulk_out(&[0; 16])).is_ok());
    assert_eq!(
        bench.submit(TransferRequest::bulk_out(&[0; 16])).unwrap_err(),
        TransferError::Other(TransferFault::DmaMaskExceeded {
            start: 0x10_0040,
            end: 0x10_0050,
            mask: 0x10_0010,
        })
    );
    assert_eq!(bench.endpoint.inflight.len(), 1);
    assert_eq!(bench.endpoint.next_request_id, 2);
    assert_eq!(bench.active_mappings, 1);
}

#[test]
fn failed_mapping_is_reported() {
    let mut endpoint = bench().endpoint;
    let request = TransferRequest::bulk_out(&[0; 16]);
    assert_eq!(
        endpoint.submit_request(request, None).unwrap_err(),
        TransferError::Other(TransferFault::DmaMappingFailed)
    );
    assert_eq!(endpoint.next_request_id, 1);
}

#[test]
fn submission_holds_the_trbs() {
    let mut endpoint = bench().endpoint;
    let mapping = DmaMapping { dma_addr: 0x4_0000_0000, len: 16 };
    let submission = endpoint
        .submit_request(TransferRequest::bulk_out(&[0; 16]), Some(mapping))
        .unwrap();
    assert_eq!(submission.request_id, 1);
    assert_eq!(submission.trbs, vec![[0, 4, 16, 0x424]]);
    let mut space = [0u8; 18];
    let mapping = DmaMapping { dma_addr: 0x80, len: 18 };
    let submission = endpoint
        .submit_request(TransferRequest::control_in(setup(), &mut space), Some(mapping))
        .unwrap();
    assert_eq!(submission.request_id, 2);
    assert_eq!(
        submission.trbs,
        vec![
            [0x0100_0680, 0x0012_0000, 8, 0x3_0840],
            [0x80, 0, 18, 0x1_0c04],
            [0, 0, 0, 0x1020],
        ]
    );
    assert_eq!(required_trbs(&submission.transfer), 3);
}

#[test]
fn iso_frames_continue_over_requests() {
    let mut bench = bench();
    bench.endpoint.configure_periodic(100, 0, 8);
    bench.endpoint.config.iso_start_asap = false;
    let space = [0u8; 200];
    bench.submit(TransferRequest::iso_out(&space, &[100, 100])).unwrap();
    assert_eq!(bench.endpoint.next_iso_frame_id, 16);
    bench.endpoint.next_iso_frame_id = 0x7fc;
    bench.submit(TransferRequest::iso_out(&space, &[100])).unwrap();
    assert_eq!(bench.endpoint.next_iso_frame_id, 4);
}

#[test]
fn request_ids_skip_zero_and_those_in_use() {
    let mut bench = bench();
    let first = bench.submit(TransferRequest::bulk_out(&[1])).unwrap();
    assert_eq!(first.raw(), 1);
    bench.endpoint.next_request_id = u64::MAX;
    assert_eq!(bench.submit(TransferRequest::bulk_out(&[1])).unwrap().raw(), u64::MAX);
    assert_eq!(bench.submit(TransferRequest::bulk_out(&[1])).unwrap().raw(), 2);
}

#[test]
fn stop_retires_everything_in_order() {
    let mut bench = bench();
    for _ in 0..3 {
        bench.submit(TransferRequest::bulk_out(&[1])).unwrap();
    }
    bench.submit(TransferRequest::control_out(setup(), &[])).unwrap();
    assert_eq!(bench.active_mappings, 3);
    assert_eq!(bench.retire(), vec![1, 2, 3, 4]);
    assert_eq!(bench.active_mappings, 0);
    assert!(bench.retire().is_empty());
    for id in 1..=4 {
        assert!(matches!(bench.endpoint.register_waker(RequestId::new(id)), WakerPlan::WakeNow));
        assert!(bench.reclaim(RequestId::new(id)).is_some());
        assert!(bench.reclaim(RequestId::new(id)).is_none());
        assert!(matches!(bench.endpoint.register_waker(RequestId::new(id)), WakerPlan::Ignore));
    }
}

#[test]
fn waker_waits_for_every_trb() {
    let mut bench = bench();
    let mut space = [0u8; 18];
    let control = bench.submit(TransferRequest::control_in(setup(), &mut space)).unwrap();
    let iso = bench.submit(TransferRequest::iso_out(&[0; 8], &[4, 4])).unwrap();
    let bulk = bench.submit(TransferRequest::bulk_out(&[0; 8])).unwrap();
    let trbs = |id| match bench.endpoint.register_waker(id) {
        WakerPlan::Register { trbs } => trbs,
        _ => vec![],
    };
    assert_eq!(trbs(control), vec![RING, RING + 16, RING + 32]);
    assert_eq!(trbs(iso), vec![RING + 48, RING + 64]);
    assert_eq!(trbs(bulk), vec![RING + 80]);
}

#[test]
fn reset_runs_both_commands() {
    let mut bench = bench();
    stalled(&mut bench);
    assert!(bench.endpoint.halted);
    let pointer = EnqueuePointer { address: 0x1040, cycle_state: true };
    let ResetProgress::Continue(first) = bench.endpoint.reset(pointer) else {
        panic!("a halted endpoint has to be reset");
    };
    assert_eq!(first.stage, ResetStage::ResetEndpoint);
    assert_eq!(first.command(), [0, 0, 0, (1 << 24) | (2 << 16) | (14 << 10)]);
    // Nothing else happens meanwhile.
    assert_eq!(
        bench.submit(TransferRequest::bulk_out(&[1])).unwrap_err(),
        TransferError::QueueFull
    );
    assert_eq!(
        bench.endpoint.reset(pointer),
        ResetProgress::Finished(Err(TransferError::QueueFull))
    );
    let ResetProgress::Continue(second) = first.advance(Ok(())) else {
        panic!("the dequeue pointer has to be set");
    };
    assert_eq!(second.command(), [0x1041, 0, 0, (1 << 24) | (2 << 16) | (16 << 10)]);
    assert_eq!(second.advance(Ok(())), ResetProgress::Finished(Ok(())));
    bench.endpoint.finish_reset(Ok(()));
    assert!(!bench.endpoint.halted);
    assert!(bench.submit(TransferRequest::bulk_out(&[1])).is_ok());
}

#[test]
fn failed_reset_can_be_repeated() {
    let mut bench = bench();
    stalled(&mut bench);
    let pointer = EnqueuePointer { address: 0x1040, cycle_state: false };
    let ResetProgress::Continue(first) = bench.endpoint.reset(pointer) else {
        panic!("a halted endpoint has to be reset");
    };
    let failed = Err(TransferError::Other(TransferFault::TransferFailed));
    assert_eq!(first.advance(failed), ResetProgress::Finished(failed));
    bench.endpoint.finish_reset(failed);
    assert!(bench.endpoint.halted);
    assert!(matches!(bench.endpoint.reset(pointer), ResetProgress::Continue(_)));
}

#[test]
fn reset_waits_for_requests_and_needs_a_halt() {
    let mut bench = bench();
    let pointer = EnqueuePointer { address: 0x1000, cycle_state: true };
    assert_eq!(bench.endpoint.reset(pointer), ResetProgress::Finished(Ok(())));
    bench.submit(TransferRequest::bulk_out(&[1])).unwrap();
    assert_eq!(
        bench.endpoint.reset(pointer),
        ResetProgress::Finished(Err(TransferError::QueueFull))
    );
}

#[test]
fn stop_and_resume_name_the_endpoint() {
    let endpoint = bench().endpoint;
    assert_eq!(endpoint.stop_command(), [0, 0, 0, (1 << 24) | (2 << 16) | (15 << 10)]);
    let pointer = EnqueuePointer { address: 0x2_0000_0010, cycle_state: true };
    assert_eq!(
        endpoint.resume_command(pointer),
        [0x11, 2, 0, (1 << 24) | (2 << 16) | (16 << 10)]
    );
    assert_eq!(endpoint.resume_doorbell(Ok(())), Ok(2));
    assert_eq!(
        endpoint.resume_doorbell(Err(TransferError::Disconnected)),
        Err(TransferError::Disconnected)
    );
}

#[test]
fn range_check_matches_the_trb_fields() {
    let bulk = |len| {
        let request = TransferRequest::Bulk {
            direction: Direction::In,
            buffer: Some(usb_transfer::endpoint::TransferBuffer { address: 0x1000, len }),
        };
        Transfer::from_request(request, Some(DmaMapping { dma_addr: 0, len })).unwrap()
    };
    assert!(transfer_in_range(&bulk(0x1_ffff)));
    assert!(!transfer_in_range(&bulk(0x2_0000)));
    let iso = |lengths: &[usize]| {
        let request = TransferRequest::iso_out(&[0; 1], lengths);
        let mapping = DmaMapping { dma_addr: u64::MAX - 16, len: 1 };
        Transfer::from_request(request, Some(mapping)).unwrap()
    };
    assert!(transfer_in_range(&iso(&[16, 16])));
    assert!(!transfer_in_range(&iso(&[17, 16])));
    assert!(transfer_in_range(&iso(&[])));
    assert!(!transfer_in_range(&iso(&[0x2_0000])));
}

#[test]
fn required_trbs_of_requests() {
    let count = Endpoint::required_trbs_for_request;
    let mut space = [0u8; 4];
    assert_eq!(count(&TransferRequest::control_in(setup(), &mut space)), 3);
    assert_eq!(count(&TransferRequest::control_in(setup(), &mut [])), 2);
    assert_eq!(count(&TransferRequest::bulk_out(&[1])), 1);
    assert_eq!(count(&TransferRequest::interrupt_in(&mut space)), 1);
    assert_eq!(count(&TransferRequest::iso_out(&[1], &[1, 0, 0])), 3);
    assert_eq!(count(&TransferRequest::iso_out(&[], &[])), 1);
}

#[test]
fn reclaiming_one_request_leaves_others_alone() {
    let mut bench = bench();
    let first = bench.submit(TransferRequest::bulk_out(&[1; 4])).unwrap();
    let second = bench.submit(TransferRequest::iso_out(&[1; 4], &[2, 2])).unwrap();
    bench.event(RING, 1, 0);
    bench.event(RING + 16, 1, 0);
    assert!(bench.reclaim(first).unwrap().outcome.is_ok());
    assert_eq!(bench.endpoint.inflight.len(), 1);
    assert_eq!(bench.endpoint.outstanding_trbs, 2);
    assert!(bench.reclaim(second).is_none());
    bench.event(RING + 32, 1, 0);
    assert_eq!(bench.reclaim(second).unwrap().outcome.unwrap().actual_length, 4);
    assert!(bench.reclaim(RequestId::new(99)).is_none());
}

#[test]
fn routes_lead_to_their_requests() {
    let mut bench = bench();
    let mut space = [0u8; 8];
    let control = bench.submit(TransferRequest::control_in(setup(), &mut space)).unwrap();
    let bulk = bench.submit(TransferRequest::bulk_out(&[1; 4])).unwrap();
    for (trb, id) in [(RING, control), (RING + 16, control), (RING + 32, control), (RING + 48, bulk)] {
        assert_eq!(bench.endpoint.trb_to_request.get(&trb), Some(&id.raw()));
    }
    bench.event(RING + 32, 1, 0);
    assert!(bench.reclaim(control).is_some());
    assert_eq!(bench.endpoint.trb_to_request.len(), 1);
    assert_eq!(bench.endpoint.trb_to_request.get(&(RING + 48)), Some(&bulk.raw()));
}

#[test]
fn iso_events_may_come_in_any_order() {
    let mut bench = bench();
    let mut space = [0u8; 300];
    let id = bench.submit(TransferRequest::iso_in(&mut space, &[100, 100, 100])).unwrap();
    bench.event(RING + 16, 13, 99);
    assert!(bench.reclaim(id).is_none());
    assert!(bench.reclaim(id).is_none());
    bench.event(RING, 1, 0);
    bench.event(RING + 32, 28, 7);
    let completion = bench.reclaim(id).unwrap().outcome.unwrap();
    let lengths: Vec<usize> = completion.iso_packets.iter().map(|p| p.actual_length).collect();
    assert_eq!(lengths, vec![100, 1, 7]);
    assert_eq!(completion.actual_length, 108);
}

#[test]
fn control_transfer_remembers_its_data_stage() {
    let mut bench = bench();
    let mut space = [0u8; 18];
    let id = bench.submit(TransferRequest::control_in(setup(), &mut space)).unwrap();
    bench.event(RING + 16, 13, 10);
    assert!(bench.reclaim(id).is_none());
    // The event of the data stage is gone when that of the status stage comes in.
    bench.finished = FinishedEvents::new();
    assert!(bench.reclaim(id).is_none());
    bench.event(RING + 32, 1, 0);
    let completion = bench.reclaim(id).unwrap().outcome.unwrap();
    assert_eq!(completion.request_id, id);
    assert_eq!(completion.actual_length, 8);
}

#[test]
fn as_many_routes_as_outstanding_trbs() {
    let mut bench = bench();
    let mut space = [0u8; 18];
    let mut counts = Vec::new();
    let control = bench.submit(TransferRequest::control_in(setup(), &mut space)).unwrap();
    counts.push((bench.endpoint.trb_to_request.len(), bench.endpoint.outstanding_trbs));
    bench.submit(TransferRequest::iso_out(&[0; 8], &[4, 4])).unwrap();
    counts.push((bench.endpoint.trb_to_request.len(), bench.endpoint.outstanding_trbs));
    bench.event(RING + 32, 1, 0);
    assert!(bench.reclaim(control).is_some());
    counts.push((bench.endpoint.trb_to_request.len(), bench.endpoint.outstanding_trbs));
    bench.retire();
    counts.push((bench.endpoint.trb_to_request.len(), bench.endpoint.outstanding_trbs));
    assert_eq!(counts, vec![(3, 3), (5, 5), (2, 2), (0, 0)]);
    // Each submission rings the endpoint's doorbell once.
    assert_eq!(bench.rung, vec![2, 2]);
}

#[test]
fn iso_transfer_ends_with_its_last_packet() {
    let mut bench = bench();
    let mut space = [0u8; 300];
    let id = bench.submit(TransferRequest::iso_in(&mut space, &[100, 100, 100])).unwrap();
    for (trb, code) in [(RING, 1), (RING + 16, 3)] {
        bench.event(trb, code, 0);
        assert!(bench.reclaim(id).is_none());
    }
    bench.event(RING + 32, 31, 100);
    assert_eq!(bench.reclaim(id).unwrap().outcome.unwrap().actual_length, 200);
}
