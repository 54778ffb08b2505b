//! Encoder: packages a caller-supplied payload into the module's outbound
//! command frame — header, extended length field, addressing and option
//! bytes, the payload, and a trailing XOR checksum over the payload alone.

use vstd::prelude::*;

use crate::frame::EncodeError;
use crate::frame::FRAME_KIND_EXTENDED;
use crate::frame::HEADER_FIRST;
use crate::frame::HEADER_SECOND;
use crate::frame::MAX_COMMAND_PAYLOAD;
use crate::frame::xor_fold;
use crate::frame::xor_range;
use crate::frame::lemma_xor_range_is_fold;

verus! {

/// Acknowledgment-request option byte of a command frame.
pub const OPTION_MAC_ACK: u8 = 0x01;

/// Reserved second option byte of a command frame.
pub const OPTION_RESERVED: u8 = 0xFF;

/// The exact byte sequence of a command frame for a given payload: header,
/// length field with the extended marker bit forced set, destination,
/// frame-kind marker, response tag, the two option bytes, the payload, and
/// the XOR checksum of the payload.
pub open spec fn command_frame_spec(payload: Seq<u8>, destination_id: u8, response_id: u8) -> Seq<u8>
    recommends
        1 <= payload.len() <= MAX_COMMAND_PAYLOAD,
{
    let len16 = payload.len() as u16;
    seq![
        HEADER_FIRST,
        HEADER_SECOND,
        (((len16 >> 8) as u8) | 0x80),
        (len16 as u8),
        destination_id,
        FRAME_KIND_EXTENDED,
        response_id,
        OPTION_MAC_ACK,
        OPTION_RESERVED,
    ] + payload + seq![xor_fold(payload)]
}

/// XOR of every byte of `data`, the checksum the wire format carries.
///
/// The span must be non-empty: the protocol rejects an empty checksum span
/// instead of folding it to zero.
pub fn calc_checksum(data: &Vec<u8>) -> (r: u8)
    requires
        data@.len() >= 1,
    ensures
        r == xor_fold(data@),
{
    let mut num: u8 = data[0];
    let mut i: usize = 1;
    proof {
        let b = data@[0];
        assert(0u8 ^ b == b) by (bit_vector);
        assert(xor_range(data@, 0, 1) == xor_range(data@, 0, 0) ^ b);
    }
    while i < data.len()
        invariant
            1 <= i <= data@.len(),
            num == xor_range(data@, 0, i as int),
        decreases data@.len() - i,
    {
        num = num ^ data[i];
        i = i + 1;
    }
    proof {
        lemma_xor_range_is_fold(data@, 0, data@.len() as int);
        assert(data@.subrange(0, data@.len() as int) =~= data@);
    }
    num
}

/// Builds one outbound command frame around `payload`.
///
/// Succeeds exactly on payloads of 1 to `MAX_COMMAND_PAYLOAD` bytes and then
/// returns precisely the bytes of `command_frame_spec`; an empty payload is
/// rejected with `EmptyPayload` and an oversized one with `PayloadTooLarge`.
pub fn build_command_frame(payload: &Vec<u8>, destination_id: u8, response_id: u8) -> (r: Result<
    Vec<u8>,
    EncodeError,
>)
    ensures
        r is Ok <==> 1 <= payload@.len() <= MAX_COMMAND_PAYLOAD,
        payload@.len() == 0 ==> r == Err::<Vec<u8>, EncodeError>(EncodeError::EmptyPayload),
        payload@.len() > MAX_COMMAND_PAYLOAD ==> r == Err::<Vec<u8>, EncodeError>(
            EncodeError::PayloadTooLarge,
        ),
        r matches Ok(frame) ==> frame@ == command_frame_spec(
            payload@,
            destination_id,
            response_id,
        ),
{
    if payload.len() == 0 {
        return Err(EncodeError::EmptyPayload);
    }
    if payload.len() > MAX_COMMAND_PAYLOAD {
        return Err(EncodeError::PayloadTooLarge);
    }

    let len16 = payload.len() as u16;
    let mut frame: Vec<u8> = Vec::new();
    frame.push(HEADER_FIRST);
    frame.push(HEADER_SECOND);
    frame.push(((len16 >> 8) as u8) | 0x80);
    frame.push(len16 as u8);
    frame.push(destination_id);
    frame.push(FRAME_KIND_EXTENDED);
    frame.push(response_id);
    frame.push(OPTION_MAC_ACK);
    frame.push(OPTION_RESERVED);

    let ghost prefix = frame@;
    let mut i: usize = 0;
    while i < payload.len()
        invariant
            0 <= i <= payload@.len(),
            frame@ == prefix + payload@.subrange(0, i as int),
        decreases payload@.len() - i,
    {
        frame.push(payload[i]);
        proof {
            assert(prefix + payload@.subrange(0, i + 1) =~= (prefix + payload@.subrange(
                0,
                i as int,
            )).push(payload@[i as int]));
        }
        i = i + 1;
    }
    let checksum = calc_checksum(payload);
    frame.push(checksum);
    proof {
        assert(payload@.subrange(0, payload@.len() as int) =~= payload@);
        assert(frame@ =~= command_frame_spec(payload@, destination_id, response_id));
    }
    Ok(frame)
}

} // verus!
