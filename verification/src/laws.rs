//! Properties of the codec, stated over the wire format itself: a
//! spec-level model of a well-formed response frame, and proofs that the
//! decoder recovers every field from it, resynchronizes past leading noise,
//! detects single-bit corruption through the checksum, and rejects
//! truncated frames.

use vstd::prelude::*;

use crate::decoder::find_header;
use crate::decoder::header_at;
use crate::decoder::parse_body;
use crate::decoder::parse_response_spec;
use crate::frame::DecodeError;
use crate::frame::FOOTER;
use crate::frame::FRAME_KIND_EXTENDED;
use crate::frame::HEADER_FIRST;
use crate::frame::HEADER_SECOND;
use crate::frame::MAX_COMMAND_PAYLOAD;
use crate::frame::ResponseModel;
use crate::frame::be_u16;
use crate::frame::be_u32;
use crate::frame::declared_len;
use crate::frame::lemma_xor_range_is_fold;
use crate::frame::lemma_xor_range_update;
use crate::frame::xor_fold;
use crate::frame::xor_range;

verus! {

/// The data section of a well-formed response frame: every byte from
/// `sender_id` through the payload, the exact span the checksum covers.
pub open spec fn response_body_spec(
    sender_id: u8,
    response_id: u8,
    source: u32,
    destination: u32,
    link_quality: u8,
    payload: Seq<u8>,
) -> Seq<u8> {
    let pl16 = payload.len() as u16;
    seq![
        sender_id,
        FRAME_KIND_EXTENDED,
        response_id,
        ((source >> 24) as u8),
        ((source >> 16) as u8),
        ((source >> 8) as u8),
        (source as u8),
        ((destination >> 24) as u8),
        ((destination >> 16) as u8),
        ((destination >> 8) as u8),
        (destination as u8),
        link_quality,
        ((pl16 >> 8) as u8),
        (pl16 as u8),
    ] + payload
}

/// A complete well-formed response frame: header, outer length field with
/// the extended marker bit, the data section, its XOR checksum, and the
/// footer.
pub open spec fn response_frame_spec(
    sender_id: u8,
    response_id: u8,
    source: u32,
    destination: u32,
    link_quality: u8,
    payload: Seq<u8>,
) -> Seq<u8> {
    let body = response_body_spec(sender_id, response_id, source, destination, link_quality, payload);
    let dl16 = body.len() as u16;
    seq![HEADER_FIRST, HEADER_SECOND, (((dl16 >> 8) as u8) | 0x80), (dl16 as u8)] + body + seq![
        xor_fold(body),
        FOOTER,
    ]
}

/// The model the decoder is owed for a well-formed response frame.
pub open spec fn response_model(
    sender_id: u8,
    response_id: u8,
    source: u32,
    destination: u32,
    link_quality: u8,
    payload: Seq<u8>,
) -> ResponseModel {
    ResponseModel {
        sender_id,
        response_id,
        source_extended_address: source,
        destination_extended_address: destination,
        link_quality,
        declared_length: ((14 + payload.len()) as u16),
        payload,
    }
}

/// Shape of a well-formed response frame: where each field lies, that the
/// two length fields decode to the data-section and payload lengths, that
/// the checksum byte is the XOR of exactly the data section, and that the
/// whole frame parses to the model built from its fields.
pub proof fn lemma_frame_shape(
    sender_id: u8,
    response_id: u8,
    source: u32,
    destination: u32,
    link_quality: u8,
    payload: Seq<u8>,
)
    requires
        1 <= payload.len() <= MAX_COMMAND_PAYLOAD,
    ensures
        ({
            let frame = response_frame_spec(
                sender_id,
                response_id,
                source,
                destination,
                link_quality,
                payload,
            );
            let pl = payload.len() as int;
            frame.len() == 20 + pl && header_at(frame, 0) && frame[2] & 0x80 != 0
                && declared_len(frame[2], frame[3]) == 14 + pl && frame[5] == FRAME_KIND_EXTENDED
                && be_u16(frame[16], frame[17]) == pl && frame[18 + pl] == xor_range(
                frame,
                4,
                18 + pl,
            ) && frame[19 + pl] == FOOTER && parse_body(frame) == Ok::<ResponseModel, DecodeError>(
                response_model(sender_id, response_id, source, destination, link_quality, payload),
            )
        }),
{
    let body = response_body_spec(sender_id, response_id, source, destination, link_quality, payload);
    let frame = response_frame_spec(sender_id, response_id, source, destination, link_quality, payload);
    let pl = payload.len() as int;
    let pl16 = payload.len() as u16;
    let dl16 = body.len() as u16;

    assert(body.len() == 14 + pl);
    assert(frame.len() == 20 + pl);

    // Header marker.
    assert(frame[0] == HEADER_FIRST && frame[1] == HEADER_SECOND);

    // Outer length field: marker bit set, 15-bit value is the body length.
    let hb = (dl16 >> 8) as u8;
    let lb = dl16 as u8;
    assert(frame[2] == (hb | 0x80) && frame[3] == lb);
    assert((hb | 0x80) & 0x80 != 0) by (bit_vector);
    assert(((((dl16 >> 8) as u8) | 0x80) & 0x7F) * 256 + ((dl16 as u8) as u16) == dl16)
        by (bit_vector)
        requires
            dl16 < 0x8000,
    ;
    assert(declared_len(frame[2], frame[3]) == 14 + pl);

    // Fixed fields and the inner payload-length field.
    assert(frame[4] == sender_id && frame[5] == FRAME_KIND_EXTENDED && frame[6] == response_id);
    assert(frame[15] == link_quality);
    assert(frame[16] == ((pl16 >> 8) as u8) && frame[17] == (pl16 as u8));
    assert((((pl16 >> 8) as u8) as u16) * 256 + ((pl16 as u8) as u16) == pl16) by (bit_vector);
    assert(be_u16(frame[16], frame[17]) == pl);

    // The two big-endian extended addresses reassemble to the originals.
    assert(((source >> 24) as u8) * 0x100_0000 + ((source >> 16) as u8) * 0x1_0000 + ((source
        >> 8) as u8) * 256 + (source as u8) == source) by (bit_vector);
    assert(be_u32(frame[7], frame[8], frame[9], frame[10]) == source);
    assert(((destination >> 24) as u8) * 0x100_0000 + ((destination >> 16) as u8) * 0x1_0000 + ((
    destination >> 8) as u8) * 256 + (destination as u8) == destination) by (bit_vector);
    assert(be_u32(frame[11], frame[12], frame[13], frame[14]) == destination);

    // The checksum byte covers exactly the data section.
    assert(frame.subrange(4, 18 + pl) =~= body);
    lemma_xor_range_is_fold(frame, 4, 18 + pl);
    assert(frame[18 + pl] == xor_fold(body));

    assert(frame[19 + pl] == FOOTER);

    // Every check of the field walk passes, and each extracted field is the
    // one the frame was built from.
    assert(frame.subrange(18, 18 + pl) =~= payload);
    let m = response_model(sender_id, response_id, source, destination, link_quality, payload);
    assert(parse_body(frame) is Ok);
    assert(parse_body(frame)->Ok_0 =~= m);
}

/// Round trip: a well-formed response frame assembled from any payload of
/// 1 to 620 bytes decodes to exactly the sender, response tag, both
/// extended addresses, link quality and payload it was built from.
pub proof fn lemma_round_trip(
    sender_id: u8,
    response_id: u8,
    source: u32,
    destination: u32,
    link_quality: u8,
    payload: Seq<u8>,
)
    requires
        1 <= payload.len() <= MAX_COMMAND_PAYLOAD,
    ensures
        parse_response_spec(
            response_frame_spec(sender_id, response_id, source, destination, link_quality, payload),
        ) == Ok::<ResponseModel, DecodeError>(
            response_model(sender_id, response_id, source, destination, link_quality, payload),
        ),
{
    let frame = response_frame_spec(sender_id, response_id, source, destination, link_quality, payload);
    lemma_frame_shape(sender_id, response_id, source, destination, link_quality, payload);
    assert(find_header(frame, 0) == 0);
    assert(frame.subrange(0, frame.len() as int) =~= frame);
}

/// `find_header` skips every position before `i` at which no header marker
/// with room for the length field stands.
proof fn lemma_find_header_skip(s: Seq<u8>, i: int)
    requires
        0 <= i <= s.len(),
        forall|j: int| 0 <= j < i ==> !(j + 4 <= s.len() && header_at(s, j)),
    ensures
        find_header(s, 0) == find_header(s, i),
    decreases i,
{
    if i > 0 {
        lemma_find_header_skip(s, i - 1);
        if i - 1 + 4 > s.len() {
            assert(find_header(s, i - 1) == -1);
            assert(find_header(s, i) == -1);
        }
    }
}

/// Resync: a well-formed response frame preceded by any noise bytes that do
/// not contain the exact two-byte header sequence still decodes to the model
/// it was built from.
pub proof fn lemma_resync(
    noise: Seq<u8>,
    sender_id: u8,
    response_id: u8,
    source: u32,
    destination: u32,
    link_quality: u8,
    payload: Seq<u8>,
)
    requires
        1 <= payload.len() <= MAX_COMMAND_PAYLOAD,
        forall|j: int|
            0 <= j && j + 1 < noise.len() ==> !(#[trigger] noise[j] == HEADER_FIRST && noise[j + 1]
                == HEADER_SECOND),
    ensures
        parse_response_spec(
            noise + response_frame_spec(
                sender_id,
                response_id,
                source,
                destination,
                link_quality,
                payload,
            ),
        ) == Ok::<ResponseModel, DecodeError>(
            response_model(sender_id, response_id, source, destination, link_quality, payload),
        ),
{
    let frame = response_frame_spec(sender_id, response_id, source, destination, link_quality, payload);
    lemma_frame_shape(sender_id, response_id, source, destination, link_quality, payload);
    let s = noise + frame;
    let m = noise.len() as int;

    assert forall|j: int| 0 <= j < m implies !(j + 4 <= s.len() && header_at(s, j)) by {
        if j + 1 < m {
            assert(s[j] == noise[j] && s[j + 1] == noise[j + 1]);
        } else if j + 1 == m {
            assert(s[j + 1] == frame[0]);
        }
    }
    lemma_find_header_skip(s, m);
    assert(header_at(s, m));
    assert(find_header(s, m) == m);
    assert(s.subrange(m, s.len() as int) =~= frame);
}

/// Checksum sensitivity: flipping any single bit of the data section of a
/// well-formed frame — outside the frame-kind byte, whose own check fires
/// first, and outside the payload-length field, which redirects the field
/// walk — is caught as a checksum mismatch.
pub proof fn lemma_checksum_bit_flip(
    sender_id: u8,
    response_id: u8,
    source: u32,
    destination: u32,
    link_quality: u8,
    payload: Seq<u8>,
    p: int,
    k: u8,
)
    requires
        1 <= payload.len() <= MAX_COMMAND_PAYLOAD,
        4 <= p < 18 + payload.len(),
        p != 5,
        !(16 <= p < 18),
        k < 8,
    ensures
        ({
            let frame = response_frame_spec(
                sender_id,
                response_id,
                source,
                destination,
                link_quality,
                payload,
            );
            parse_response_spec(frame.update(p, frame[p] ^ (1u8 << k))) == Err::<
                ResponseModel,
                DecodeError,
            >(DecodeError::ChecksumMismatch)
        }),
{
    let frame = response_frame_spec(sender_id, response_id, source, destination, link_quality, payload);
    lemma_frame_shape(sender_id, response_id, source, destination, link_quality, payload);
    let pl = payload.len() as int;
    let mask = 1u8 << k;
    let b = frame[p];
    let c = frame.update(p, b ^ mask);

    assert(c.len() == frame.len());
    assert(header_at(c, 0));
    assert(find_header(c, 0) == 0);
    assert(c.subrange(0, c.len() as int) =~= c);

    // Every check before the checksum still passes: the header, both length
    // fields and the frame-kind byte are outside the flipped position.
    assert(c[2] == frame[2] && c[3] == frame[3] && c[5] == frame[5]);
    assert(c[16] == frame[16] && c[17] == frame[17]);
    assert(c[18 + pl] == frame[18 + pl]);

    // The accumulated XOR changes by exactly the flipped bit.
    lemma_xor_range_update(frame, p, (b ^ mask), 4, 18 + pl);
    let cs = xor_range(frame, 4, 18 + pl);
    assert(xor_range(c, 4, 18 + pl) == (cs ^ b) ^ (b ^ mask));
    assert(mask != 0) by (bit_vector)
        requires
            k < 8,
            mask == 1u8 << k,
    ;
    assert(((cs ^ b) ^ (b ^ mask)) != cs) by (bit_vector)
        requires
            mask != 0,
    ;
    assert(parse_body(c) == Err::<ResponseModel, DecodeError>(DecodeError::ChecksumMismatch));
}

/// A single-bit flip in the two trailing bytes behind the data section is
/// never silently accepted either: one in the checksum byte is a checksum
/// mismatch, one in the footer fails the footer check.
pub proof fn lemma_trailing_bit_flip(
    sender_id: u8,
    response_id: u8,
    source: u32,
    destination: u32,
    link_quality: u8,
    payload: Seq<u8>,
    p: int,
    k: u8,
)
    requires
        1 <= payload.len() <= MAX_COMMAND_PAYLOAD,
        p == 18 + payload.len() || p == 19 + payload.len(),
        k < 8,
    ensures
        ({
            let frame = response_frame_spec(
                sender_id,
                response_id,
                source,
                destination,
                link_quality,
                payload,
            );
            let r = parse_response_spec(frame.update(p, frame[p] ^ (1u8 << k)));
            (p == 18 + payload.len() ==> r == Err::<ResponseModel, DecodeError>(
                DecodeError::ChecksumMismatch,
            )) && (p == 19 + payload.len() ==> r == Err::<ResponseModel, DecodeError>(
                DecodeError::FooterMissing,
            ))
        }),
{
    let frame = response_frame_spec(sender_id, response_id, source, destination, link_quality, payload);
    lemma_frame_shape(sender_id, response_id, source, destination, link_quality, payload);
    let pl = payload.len() as int;
    let mask = 1u8 << k;
    let b = frame[p];
    let c = frame.update(p, b ^ mask);

    assert(mask != 0) by (bit_vector)
        requires
            k < 8,
            mask == 1u8 << k,
    ;
    assert(c.len() == frame.len());
    assert(header_at(c, 0));
    assert(find_header(c, 0) == 0);
    assert(c.subrange(0, c.len() as int) =~= c);
    assert(c[2] == frame[2] && c[3] == frame[3] && c[5] == frame[5]);
    assert(c[16] == frame[16] && c[17] == frame[17]);

    // The flip lies outside the checksum span, so the accumulated XOR is
    // unchanged.
    lemma_xor_range_update(frame, p, (b ^ mask), 4, 18 + pl);
    let cs = xor_range(frame, 4, 18 + pl);
    assert(xor_range(c, 4, 18 + pl) == cs);

    if p == 18 + pl {
        assert(c[18 + pl] == cs ^ mask);
        assert(cs ^ mask != cs) by (bit_vector)
            requires
                mask != 0,
        ;
        assert(parse_body(c) == Err::<ResponseModel, DecodeError>(DecodeError::ChecksumMismatch));
    } else {
        assert(c[18 + pl] == frame[18 + pl]);
        assert(c[19 + pl] == FOOTER ^ mask);
        assert(FOOTER ^ mask != FOOTER) by (bit_vector)
            requires
                mask != 0,
        ;
        assert(parse_body(c) == Err::<ResponseModel, DecodeError>(DecodeError::FooterMissing));
    }
}

/// Truncation: a well-formed frame with its last byte removed, or its last
/// two bytes removed, no longer has room for the declared data section plus
/// checksum and footer, and is rejected by the outer length bound.
pub proof fn lemma_truncated_frame_rejected(
    sender_id: u8,
    response_id: u8,
    source: u32,
    destination: u32,
    link_quality: u8,
    payload: Seq<u8>,
    cut: int,
)
    requires
        1 <= payload.len() <= MAX_COMMAND_PAYLOAD,
        1 <= cut <= 2,
    ensures
        ({
            let frame = response_frame_spec(
                sender_id,
                response_id,
                source,
                destination,
                link_quality,
                payload,
            );
            parse_response_spec(frame.subrange(0, frame.len() - cut)) == Err::<
                ResponseModel,
                DecodeError,
            >(DecodeError::LengthExceedsBuffer)
        }),
{
    let frame = response_frame_spec(sender_id, response_id, source, destination, link_quality, payload);
    lemma_frame_shape(sender_id, response_id, source, destination, link_quality, payload);
    let pl = payload.len() as int;
    let c = frame.subrange(0, frame.len() - cut);

    assert(c.len() == 20 + pl - cut);
    assert(header_at(c, 0));
    assert(find_header(c, 0) == 0);
    assert(c.subrange(0, c.len() as int) =~= c);
    assert(c[2] == frame[2] && c[3] == frame[3]);
    assert(c.len() < 6 + declared_len(c[2], c[3]));
    assert(parse_body(c) == Err::<ResponseModel, DecodeError>(DecodeError::LengthExceedsBuffer));
}

} // verus!
