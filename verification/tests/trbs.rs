use usb_transfer::state::EndpointConfig;
use usb_transfer::state::SendRing;
use usb_transfer::submit::div_ceil;
use usb_transfer::submit::iso_trb;
use usb_transfer::submit::iso_trbs;
use usb_transfer::trb::EnqueuePointer;
use usb_transfer::trb::IsoStart;
use usb_transfer::trb::IsochFields;
use usb_transfer::trb::data_stage_trb;
use usb_transfer::trb::normal_trb;
use usb_transfer::trb::reset_endpoint_trb;
use usb_transfer::trb::set_tr_dequeue_pointer_trb;
use usb_transfer::trb::setup_stage_trb;
use usb_transfer::trb::status_stage_trb;
use usb_transfer::trb::stop_endpoint_trb;
use usb_transfer::usb::ControlSetup;
use usb_transfer::usb::Direction;
use usb_transfer::usb::Recipient;
use usb_transfer::usb::Request;
use usb_transfer::usb::RequestType;

fn config(max_packet_size: usize, max_burst_size: usize, asap: bool) -> EndpointConfig {
    EndpointConfig {
        slot_id: 1,
        dci: 2,
        ring: SendRing { bus_addr: 0x1000, usable_capacity: 64 },
        dma_mask: u64::MAX,
        max_packet_size,
        max_burst_size,
        interval: 8,
        iso_start_asap: asap,
    }
}

#[test]
fn normal_trb_interrupts_on_completion_and_short_packet() {
    assert_eq!(
        normal_trb(0x1_2345_6789, 0x1_0000),
        [0x2345_6789, 1, 0x1_0000, (1 << 10) | (1 << 5) | (1 << 2)]
    );
}

#[test]
fn control_trbs_hold_the_setup_packet() {
    let setup = ControlSetup {
        request_type: RequestType::Class,
        recipient: Recipient::Interface,
        request: Request::Other(0x01),
        value: 0x0203,
        index: 0x0405,
    };
    assert_eq!(
        setup_stage_trb(setup, Direction::In, 0x1a),
        [0x0203_01a1, 0x001a_0405, 8, (3 << 16) | (2 << 10) | (1 << 6)]
    );
    assert_eq!(
        setup_stage_trb(setup, Direction::Out, 0x1a),
        [0x0203_0121, 0x001a_0405, 8, (2 << 16) | (2 << 10) | (1 << 6)]
    );
    assert_eq!(
        setup_stage_trb(setup, Direction::Out, 0),
        [0x0203_0121, 0x0000_0405, 8, (2 << 10) | (1 << 6)]
    );
}

#[test]
fn data_stage_follows_its_direction() {
    assert_eq!(
        data_stage_trb(0x7_0000_0040, 18, Direction::In),
        [0x40, 7, 18, (1 << 16) | (3 << 10) | (1 << 2)]
    );
    assert_eq!(data_stage_trb(0x40, 18, Direction::Out), [0x40, 0, 18, 3 << 10]);
}

#[test]
fn status_stage_runs_against_the_data() {
    let out = [0, 0, 0, (4 << 10) | (1 << 5)];
    let input = [0, 0, 0, (1 << 16) | (4 << 10) | (1 << 5)];
    assert_eq!(status_stage_trb(Direction::In, 1), out);
    assert_eq!(status_stage_trb(Direction::In, 0), input);
    assert_eq!(status_stage_trb(Direction::Out, 1), input);
    assert_eq!(status_stage_trb(Direction::Out, 0), input);
}

#[test]
fn isoch_trb_holds_every_field() {
    let fields = IsochFields {
        pointer: 0x2_0000_1000,
        length: 3000,
        start: IsoStart::Asap,
        interrupt_on_short_packet: true,
        burst_count: 5,
        last_burst_packet_count: 9,
        block_event_interrupt: true,
    };
    assert_eq!(
        fields.build(),
        [
            0x1000,
            2,
            3000 | (5 << 17),
            (1 << 31) | (9 << 16) | (5 << 10) | (1 << 9) | (1 << 5) | (1 << 2),
        ]
    );
    let fields = IsochFields {
        start: IsoStart::Frame(0x7ff),
        interrupt_on_short_packet: false,
        block_event_interrupt: false,
        ..fields
    };
    assert_eq!(
        fields.build()[3],
        (0x7ff << 20) | (9 << 16) | (5 << 10) | (1 << 5)
    );
}

#[test]
fn frames_take_the_low_bits() {
    let words = iso_trb(&config(100, 0, false), 0, 100, true, 0xffff, false);
    assert_eq!(words[3] >> 20, 0x7ff);
    let words = iso_trb(&config(100, 0, false), 0, 100, true, 0x1803, false);
    assert_eq!(words[3] >> 20, 3);
}

#[test]
fn division_rounds_up() {
    assert_eq!(div_ceil(0, 3), 0);
    assert_eq!(div_ceil(1, 3), 1);
    assert_eq!(div_ceil(3, 3), 1);
    assert_eq!(div_ceil(4, 3), 2);
    assert_eq!(div_ceil(usize::MAX, 1), usize::MAX);
}

#[test]
fn bursts_are_counted_from_zero() {
    // Seven packets in bursts of three: three bursts, one packet in the last.
    let words = iso_trb(&config(100, 2, true), 0, 650, true, 0, false);
    assert_eq!(words[2], 650 | (2 << 17));
    assert_eq!((words[3] >> 16) & 0xf, 0);
    // Six packets fill two bursts.
    let words = iso_trb(&config(100, 2, true), 0, 600, true, 0, false);
    assert_eq!(words[2], 600 | (1 << 17));
    assert_eq!((words[3] >> 16) & 0xf, 2);
    // An empty packet is still one packet.
    let words = iso_trb(&config(100, 0, true), 0, 0, true, 0, false);
    assert_eq!(words[2], 0);
    assert_eq!((words[3] >> 16) & 0xf, 0);
    // Without a packet size everything counts as one packet.
    let words = iso_trb(&config(0, 0, true), 0, 5000, true, 0, false);
    assert_eq!(words[2], 5000);
    // Both counts saturate.
    let words = iso_trb(&config(1, 0, true), 0, 1000, true, 0, false);
    assert_eq!(words[2], 1000 | (0x1f << 17));
    let words = iso_trb(&config(1, usize::MAX, true), 0, 1000, true, 0, false);
    assert_eq!(words[2], 1000);
    assert_eq!((words[3] >> 16) & 0xf, 0xf);
}

#[test]
fn iso_packets_follow_each_other() {
    let (trbs, next) = iso_trbs(&config(64, 0, false), 0x7f8, 0x1_0000_0000, &vec![64, 32, 16], true);
    assert_eq!(trbs.len(), 3);
    assert_eq!(trbs[0][0], 0);
    assert_eq!(trbs[1][0], 64);
    assert_eq!(trbs[2][0], 96);
    for trb in &trbs {
        assert_eq!(trb[1], 1);
        assert_eq!(trb[3] & (1 << 2), 1 << 2);
    }
    // Frames advance by the interval and wrap at 2048.
    assert_eq!((trbs[0][3] >> 20) & 0x7ff, 0x7f8);
    assert_eq!((trbs[1][3] >> 20) & 0x7ff, 0);
    assert_eq!((trbs[2][3] >> 20) & 0x7ff, 8);
    assert_eq!(next, 16);
    // Only the last packet interrupts.
    assert_eq!(trbs[0][3] & (1 << 9), 1 << 9);
    assert_eq!(trbs[1][3] & (1 << 9), 1 << 9);
    assert_eq!(trbs[2][3] & (1 << 9), 0);
}

#[test]
fn empty_iso_transfer_takes_one_trb() {
    let (trbs, next) = iso_trbs(&config(64, 0, true), 3, 0, &vec![], false);
    assert_eq!(trbs, vec![[0, 0, 0, (1 << 31) | (5 << 10) | (1 << 5)]]);
    assert_eq!(next, 11);
}

#[test]
fn command_trbs_name_slot_and_endpoint() {
    assert_eq!(stop_endpoint_trb(3, 7), [0, 0, 0, (7 << 24) | (3 << 16) | (15 << 10)]);
    assert_eq!(reset_endpoint_trb(31, 255), [0, 0, 0, (255 << 24) | (31 << 16) | (14 << 10)]);
    let pointer = EnqueuePointer { address: 0x5_0000_0040, cycle_state: true };
    assert_eq!(
        set_tr_dequeue_pointer_trb(pointer, 3, 7),
        [0x41, 5, 0, (7 << 24) | (3 << 16) | (16 << 10)]
    );
    let pointer = EnqueuePointer { cycle_state: false, ..pointer };
    assert_eq!(set_tr_dequeue_pointer_trb(pointer, 3, 7)[0], 0x40);
}
