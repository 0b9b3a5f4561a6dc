//! Feetech actuator wire frames.
//!
//! The functions here own neither a serial port nor a device handle: they build
//! checked frames, and a platform serial driver keeps transport, retry and
//! timeout to itself.

use vstd::prelude::*;

verus! {

/// STS/SMS protocol instruction code for writing a register.
pub const WRITE_INSTRUCTION: u8 = 0x03;

/// Number of bytes that follow the length byte of a 16-bit register write:
/// instruction, address, two value bytes and the checksum.
pub const WRITE_U16_LENGTH: u8 = 5;

/// The sum of all bytes of `s`, without reduction.
pub open spec fn byte_sum(s: Seq<u8>) -> nat
    decreases s.len(),
{
    if s.len() == 0 {
        0
    } else {
        byte_sum(s.drop_last()) + s.last() as nat
    }
}

/// The bytes that a frame's checksum covers: everything between the two header
/// bytes and the checksum itself.
pub open spec fn write_u16_body(id: u8, address: u8, value: u16) -> Seq<u8> {
    seq![
        id,
        WRITE_U16_LENGTH,
        WRITE_INSTRUCTION,
        address,
        (value % 256) as u8,
        (value / 256) as u8,
    ]
}

/// The frame that writes `value` to the register at `address` of actuator `id`.
///
/// The checksum is the one's complement of the low byte of the body's sum.
pub open spec fn write_u16_frame_spec(id: u8, address: u8, value: u16) -> Seq<u8> {
    let body = write_u16_body(id, address, value);
    seq![0xffu8, 0xffu8] + body + seq![(255 - byte_sum(body) % 256) as u8]
}

/// The low byte of the sum over a frame's body.
fn checksum_sum(id: u8, address: u8, lo: u8, hi: u8) -> (sum: u8)
    ensures
        sum == (id + WRITE_U16_LENGTH + WRITE_INSTRUCTION + address + lo + hi) % 256,
{
    id.wrapping_add(WRITE_U16_LENGTH).wrapping_add(WRITE_INSTRUCTION).wrapping_add(
        address,
    ).wrapping_add(lo).wrapping_add(hi)
}

/// Builds a protocol-1 write frame for one 16-bit register value.
///
/// The returned frame is `[FF, FF, id, length, instruction, address, lo, hi,
/// checksum]`. The caller supplies the transport and is responsible for retry,
/// timeout and bus ownership.
pub fn write_u16_frame(id: u8, address: u8, value: u16) -> (frame: [u8; 9])
    ensures
        frame@ == write_u16_frame_spec(id, address, value),
{
    let lo: u8 = (value % 256) as u8;
    let hi: u8 = (value / 256) as u8;
    let sum: u8 = checksum_sum(id, address, lo, hi);
    let checksum: u8 = !sum;
    let frame = [
        0xff,
        0xff,
        id,
        WRITE_U16_LENGTH,
        WRITE_INSTRUCTION,
        address,
        lo,
        hi,
        checksum,
    ];
    proof {
        let body = write_u16_body(id, address, value);
        lemma_byte_sum_of_six(body);
        assert(!sum == 255u8 - sum) by (bit_vector);
        let spec = write_u16_frame_spec(id, address, value);
        assert(spec.len() == 9);
        assert forall|i: int| 0 <= i < 9 implies frame@[i] == spec[i] by {
            assert(2 <= i < 8 ==> spec[i] == body[i - 2]);
        }
        assert(frame@ =~= spec);
    }
    frame
}

proof fn lemma_byte_sum_of_six(s: Seq<u8>)
    requires
        s.len() == 6,
    ensures
        byte_sum(s) == s[0] + s[1] + s[2] + s[3] + s[4] + s[5],
{
    reveal_with_fuel(byte_sum, 7);
}

/// A receiver that adds up every byte after the header, checksum included,
/// always ends on `0xff` in the low byte.
pub proof fn law_checksum_closes_the_frame(id: u8, address: u8, value: u16)
    ensures
        byte_sum(write_u16_frame_spec(id, address, value).skip(2)) % 256 == 255,
{
    let frame = write_u16_frame_spec(id, address, value);
    let body = write_u16_body(id, address, value);
    let tail = frame.skip(2);
    assert(tail.drop_last() =~= body);
    assert(tail.last() == (255 - byte_sum(body) % 256) as u8);
}

/// A frame determines the command: two commands with the same frame are equal.
pub proof fn law_frame_determines_command(
    id1: u8,
    address1: u8,
    value1: u16,
    id2: u8,
    address2: u8,
    value2: u16,
)
    requires
        write_u16_frame_spec(id1, address1, value1) == write_u16_frame_spec(id2, address2, value2),
    ensures
        id1 == id2,
        address1 == address2,
        value1 == value2,
{
    let f1 = write_u16_frame_spec(id1, address1, value1);
    let f2 = write_u16_frame_spec(id2, address2, value2);
    assert(f1[2] == id1 && f2[2] == id2);
    assert(f1[5] == address1 && f2[5] == address2);
    assert(f1[6] == (value1 % 256) as u8 && f2[6] == (value2 % 256) as u8);
    assert(f1[7] == (value1 / 256) as u8 && f2[7] == (value2 / 256) as u8);
}

/// Where each part of a command stands in its frame: after the header of two `0xff`
/// the actuator, the number of bytes to follow, the write instruction, the register,
/// the value with its low byte first, and a byte that fills the sum of all bytes
/// after the header up to `0xff`.
pub proof fn law_frame_holds_the_command(id: u8, address: u8, value: u16)
    ensures
        ({
            let frame = write_u16_frame_spec(id, address, value);
            &&& frame.len() == 9
            &&& frame[0] == 0xff && frame[1] == 0xff
            &&& frame[2] == id
            &&& frame[3] == frame.len() - 4
            &&& frame[4] == 3
            &&& frame[5] == address
            &&& frame[6] + frame[7] * 256 == value
            &&& (frame[2] + frame[3] + frame[4] + frame[5] + frame[6] + frame[7] + frame[8]) % 256
                == 255
        }),
{
    let frame = write_u16_frame_spec(id, address, value);
    let body = write_u16_body(id, address, value);
    lemma_byte_sum_of_six(body);
    assert(forall|i: int| 2 <= i < 8 ==> #[trigger] frame[i] == body[i - 2]);
    assert(frame[8] == (255 - byte_sum(body) % 256) as u8);
    assert(value / 256 <= 255);
}

} // verus!
