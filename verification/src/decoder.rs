//! Decoder: resynchronizes on the two-byte header anywhere in a receive
//! buffer, validates the frame field by field — length fields, fixed
//! markers, XOR checksum, footer — and extracts the addressing, link-quality
//! and payload fields, or reports the first violated check.

use vstd::prelude::*;

use crate::frame::DecodeError;
use crate::frame::FOOTER;
use crate::frame::FRAME_KIND_EXTENDED;
use crate::frame::HEADER_FIRST;
use crate::frame::HEADER_SECOND;
use crate::frame::ResponseFrame;
use crate::frame::ResponseModel;
use crate::frame::be_u16;
use crate::frame::be_u32;
use crate::frame::declared_len;
use crate::frame::xor_range;

verus! {

/// Whether the two-byte header marker stands at position `i` of `s`.
pub open spec fn header_at(s: Seq<u8>, i: int) -> bool
    recommends
        0 <= i,
        i + 2 <= s.len(),
{
    s[i] == HEADER_FIRST && s[i + 1] == HEADER_SECOND
}

/// Position of the first header marker at or after `i` that leaves room for
/// the length field behind it, or -1 if there is none.
pub open spec fn find_header(s: Seq<u8>, i: int) -> int
    recommends
        0 <= i,
    decreases s.len() - i,
{
    if i + 4 > s.len() {
        -1
    } else if header_at(s, i) {
        i
    } else {
        find_header(s, i + 1)
    }
}

/// The decode result for the suffix `t` of the buffer that starts at the
/// located header: field-by-field validation in the order the bytes arrive.
///
/// The declared data section (outer length field) must fit in the buffer
/// together with the trailing checksum and footer before anything behind
/// the length field is read, and the frame-kind byte — in bounds once that
/// holds — must be the extended marker.  A buffer that then still ends
/// inside the fixed fields, before the payload-length field, is also
/// reported as exceeding the buffer; the payload walk itself is driven by
/// the inner payload-length field.
pub open spec fn parse_body(t: Seq<u8>) -> Result<ResponseModel, DecodeError>
    recommends
        t.len() >= 4,
        header_at(t, 0),
{
    if t[2] & 0x80 == 0 {
        Err(DecodeError::MalformedLengthField)
    } else {
        let dl = declared_len(t[2], t[3]) as int;
        if t.len() < 6 + dl {
            Err(DecodeError::LengthExceedsBuffer)
        } else if t[5] != FRAME_KIND_EXTENDED {
            Err(DecodeError::FrameKindMismatch)
        } else if t.len() < 18 {
            Err(DecodeError::LengthExceedsBuffer)
        } else {
            let pl = be_u16(t[16], t[17]) as int;
            if t.len() < 20 + pl {
                Err(DecodeError::PayloadLengthExceedsBuffer)
            } else if t[18 + pl] != xor_range(t, 4, 18 + pl) {
                Err(DecodeError::ChecksumMismatch)
            } else if t[19 + pl] != FOOTER {
                Err(DecodeError::FooterMissing)
            } else {
                Ok(
                    ResponseModel {
                        sender_id: t[4],
                        response_id: t[6],
                        source_extended_address: be_u32(t[7], t[8], t[9], t[10]),
                        destination_extended_address: be_u32(t[11], t[12], t[13], t[14]),
                        link_quality: t[15],
                        declared_length: declared_len(t[2], t[3]),
                        payload: t.subrange(18, 18 + pl),
                    },
                )
            }
        }
    }
}

/// What decoding a raw receive buffer yields: the frame starting at the
/// first header marker, or `HeaderNotFound` if no marker has room behind it.
pub open spec fn parse_response_spec(s: Seq<u8>) -> Result<ResponseModel, DecodeError> {
    let h = find_header(s, 0);
    if h < 0 {
        Err(DecodeError::HeaderNotFound)
    } else {
        parse_body(s.subrange(h, s.len() as int))
    }
}

/// The result `r` is exactly what `parse_response_spec` prescribes for `s`.
pub open spec fn parse_matches(s: Seq<u8>, r: Result<ResponseFrame, DecodeError>) -> bool {
    match r {
        Ok(f) => parse_response_spec(s) == Ok::<ResponseModel, DecodeError>(f@),
        Err(e) => parse_response_spec(s) == Err::<ResponseModel, DecodeError>(e),
    }
}

/// Scans `buf` left to right for the first header marker with room for the
/// length field behind it.
fn scan_header(buf: &Vec<u8>) -> (r: Option<usize>)
    ensures
        match r {
            Some(h) => find_header(buf@, 0) == h as int && h + 4 <= buf@.len(),
            None => find_header(buf@, 0) == -1,
        },
{
    let n = buf.len();
    if n < 4 {
        return None;
    }
    let mut h: usize = 0;
    while h <= n - 4
        invariant
            n == buf@.len(),
            4 <= n,
            0 <= h <= n - 3,
            find_header(buf@, 0) == find_header(buf@, h as int),
        decreases n - h,
    {
        if buf[h] == HEADER_FIRST && buf[h + 1] == HEADER_SECOND {
            return Some(h);
        }
        h = h + 1;
    }
    None
}

/// Decodes one response frame out of a raw receive buffer.
///
/// Scans for the header past any leading noise, then validates and extracts
/// every field; the result or error is exactly `parse_response_spec` of the
/// buffer's bytes, so decoding is a pure function of the input and never
/// panics on malformed input.
pub fn parse_response(buf: &Vec<u8>) -> (r: Result<ResponseFrame, DecodeError>)
    ensures
        parse_matches(buf@, r),
{
    let ghost s = buf@;
    let n = buf.len();

    let h = match scan_header(buf) {
        Some(h) => h,
        None => {
            return Err(DecodeError::HeaderNotFound);
        },
    };
    let ghost t = s.subrange(h as int, n as int);
    assert(forall|k: int| 0 <= k < t.len() ==> t[k] == s[h + k]);

    // Length field: the extended-length marker bit must be set.
    let b2 = buf[h + 2];
    let b3 = buf[h + 3];
    if b2 & 0x80 == 0 {
        return Err(DecodeError::MalformedLengthField);
    }
    assert((b2 & 0x7F) < 128) by (bit_vector);
    let dl: usize = ((b2 & 0x7F) as usize) * 256 + (b3 as usize);
    assert(dl == declared_len(t[2], t[3]) as int);

    // The declared data section plus checksum and footer must lie within
    // the buffer before anything behind the length field is read.
    let rem = n - h;
    if rem < 6 + dl {
        return Err(DecodeError::LengthExceedsBuffer);
    }

    // Fixed fields, each folded into the running checksum as it is read.
    let sender_id = buf[h + 4];
    let mut checksum: u8 = sender_id;
    proof {
        let b = t[4];
        assert(0u8 ^ b == b) by (bit_vector);
        assert(xor_range(t, 4, 5) == xor_range(t, 4, 4) ^ b);
    }
    let frame_kind = buf[h + 5];
    if frame_kind != FRAME_KIND_EXTENDED {
        return Err(DecodeError::FrameKindMismatch);
    }
    // A buffer that still ends inside the fixed fields, before the
    // payload-length field, cannot hold a frame either.
    if rem < 18 {
        return Err(DecodeError::LengthExceedsBuffer);
    }
    checksum = checksum ^ frame_kind;
    assert(checksum == xor_range(t, 4, 6));
    let response_id = buf[h + 6];
    checksum = checksum ^ response_id;
    assert(checksum == xor_range(t, 4, 7));

    let a0 = buf[h + 7];
    let a1 = buf[h + 8];
    let a2 = buf[h + 9];
    let a3 = buf[h + 10];
    checksum = checksum ^ a0;
    assert(checksum == xor_range(t, 4, 8));
    checksum = checksum ^ a1;
    assert(checksum == xor_range(t, 4, 9));
    checksum = checksum ^ a2;
    assert(checksum == xor_range(t, 4, 10));
    checksum = checksum ^ a3;
    assert(checksum == xor_range(t, 4, 11));
    let source_extended_address = (a0 as u32) * 0x100_0000 + (a1 as u32) * 0x1_0000 + (a2 as u32)
        * 256 + (a3 as u32);

    let d0 = buf[h + 11];
    let d1 = buf[h + 12];
    let d2 = buf[h + 13];
    let d3 = buf[h + 14];
    checksum = checksum ^ d0;
    assert(checksum == xor_range(t, 4, 12));
    checksum = checksum ^ d1;
    assert(checksum == xor_range(t, 4, 13));
    checksum = checksum ^ d2;
    assert(checksum == xor_range(t, 4, 14));
    checksum = checksum ^ d3;
    assert(checksum == xor_range(t, 4, 15));
    let destination_extended_address = (d0 as u32) * 0x100_0000 + (d1 as u32) * 0x1_0000 + (d2
        as u32) * 256 + (d3 as u32);

    let link_quality = buf[h + 15];
    checksum = checksum ^ link_quality;
    assert(checksum == xor_range(t, 4, 16));

    // Inner payload-length field, still part of the checksum span.
    let p0 = buf[h + 16];
    let p1 = buf[h + 17];
    checksum = checksum ^ p0;
    assert(checksum == xor_range(t, 4, 17));
    checksum = checksum ^ p1;
    let pl: usize = (p0 as usize) * 256 + (p1 as usize);
    assert(pl == be_u16(t[16], t[17]) as int);
    assert(checksum == xor_range(t, 4, 18));

    // The payload, its checksum byte and the footer must still fit.
    if rem - 18 < pl + 2 {
        return Err(DecodeError::PayloadLengthExceedsBuffer);
    }

    let mut payload: Vec<u8> = Vec::new();
    let mut j: usize = 0;
    while j < pl
        invariant
            0 <= j <= pl,
            n == buf@.len(),
            t == buf@.subrange(h as int, n as int),
            h + 20 + pl <= n,
            t.len() == n - h,
            payload@ == t.subrange(18, 18 + j as int),
            checksum == xor_range(t, 4, 18 + j as int),
        decreases pl - j,
    {
        let b = buf[h + 18 + j];
        assert(b == t[18 + j]);
        checksum = checksum ^ b;
        payload.push(b);
        proof {
            assert(t.subrange(18, 18 + (j + 1)) =~= t.subrange(18, 18 + j as int).push(
                t[18 + j],
            ));
        }
        j = j + 1;
    }

    // Checksum over the whole span from sender_id through the payload.
    let checksum_byte = buf[h + 18 + pl];
    if checksum_byte != checksum {
        return Err(DecodeError::ChecksumMismatch);
    }

    // Fixed terminator.
    let footer = buf[h + 19 + pl];
    if footer != FOOTER {
        return Err(DecodeError::FooterMissing);
    }

    assert((b2 & 0x7F) < 128) by (bit_vector);
    let declared_length: u16 = ((b2 & 0x7F) as u16) * 256 + (b3 as u16);
    let frame = ResponseFrame {
        sender_id,
        response_id,
        source_extended_address,
        destination_extended_address,
        link_quality,
        declared_length,
        payload,
    };
    proof {
        let m = parse_body(t)->Ok_0;
        assert(frame@ =~= m);
    }
    Ok(frame)
}

} // verus!
