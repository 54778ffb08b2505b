//! Shared wire-format definitions: fixed markers, error taxonomies, the
//! decoded response frame, and the spec-level helpers (XOR folds and
//! big-endian field assembly) that both codec directions are specified with.

use vstd::prelude::*;

verus! {

/// First byte of the two-byte frame header marker.
pub const HEADER_FIRST: u8 = 0xA5;

/// Second byte of the two-byte frame header marker.
pub const HEADER_SECOND: u8 = 0x5A;

/// Frame-kind marker selecting the extended command/response format.
pub const FRAME_KIND_EXTENDED: u8 = 0xA0;

/// Fixed terminator byte of a response frame.
pub const FOOTER: u8 = 0x04;

/// Largest payload a command frame can carry: the module's 640-byte limit
/// minus the fixed framing overhead.
pub const MAX_COMMAND_PAYLOAD: usize = 620;

/// Broadcast destination identifier understood by every module.
pub const BROADCAST_ID: u8 = 0x78;

/// Why a payload could not be encoded into a command frame.
#[derive(Debug, Clone, Copy, PartialEq, Eq, Structural)]
pub enum EncodeError {
    /// The payload was empty; the checksum span would be empty too.
    EmptyPayload,
    /// The payload exceeded `MAX_COMMAND_PAYLOAD` bytes.
    PayloadTooLarge,
}

/// Why a receive buffer could not be decoded into a response frame.
#[derive(Debug, Clone, Copy, PartialEq, Eq, Structural)]
pub enum DecodeError {
    /// The two-byte header marker never appears with room for the length field.
    HeaderNotFound,
    /// The extended-length marker bit of the length field is absent.
    MalformedLengthField,
    /// The declared data section, with its checksum and footer, does not
    /// fit in the buffer; or the buffer ends inside the fixed fields.
    LengthExceedsBuffer,
    /// The frame-kind byte is not the extended marker.
    FrameKindMismatch,
    /// The payload, checksum and footer do not fit in the buffer.
    PayloadLengthExceedsBuffer,
    /// The checksum byte differs from the XOR of the data section.
    ChecksumMismatch,
    /// The terminator byte is absent.
    FooterMissing,
}

/// A decoded response frame: the routing, link-quality and payload fields a
/// module reports back, with the fixed markers already validated and removed.
#[derive(Debug, Clone, PartialEq, Eq)]
pub struct ResponseFrame {
    /// Short protocol-level identifier of the sending module.
    pub sender_id: u8,
    /// Correlation tag echoed back from the command frame.
    pub response_id: u8,
    /// 32-bit hardware address of the transmitting node.
    pub source_extended_address: u32,
    /// 32-bit hardware address of the intended receiver (all-ones if unset).
    pub destination_extended_address: u32,
    /// Received signal quality indicator.
    pub link_quality: u8,
    /// Declared length of the data section, from the outer length field.
    pub declared_length: u16,
    /// The embedded payload bytes.
    pub payload: Vec<u8>,
}

/// Mathematical model of a decoded response frame.
#[verifier::ext_equal]
pub ghost struct ResponseModel {
    /// Short protocol-level identifier of the sending module.
    pub sender_id: u8,
    /// Correlation tag echoed back from the command frame.
    pub response_id: u8,
    /// 32-bit hardware address of the transmitting node.
    pub source_extended_address: u32,
    /// 32-bit hardware address of the intended receiver.
    pub destination_extended_address: u32,
    /// Received signal quality indicator.
    pub link_quality: u8,
    /// Declared length of the data section.
    pub declared_length: u16,
    /// The embedded payload bytes.
    pub payload: Seq<u8>,
}

impl View for ResponseFrame {
    type V = ResponseModel;

    open spec fn view(&self) -> ResponseModel {
        ResponseModel {
            sender_id: self.sender_id,
            response_id: self.response_id,
            source_extended_address: self.source_extended_address,
            destination_extended_address: self.destination_extended_address,
            link_quality: self.link_quality,
            declared_length: self.declared_length,
            payload: self.payload@,
        }
    }
}

/// XOR of all bytes of a sequence, folded from the left; 0 for the empty span.
pub open spec fn xor_fold(s: Seq<u8>) -> u8
    decreases s.len(),
{
    if s.len() == 0 {
        0
    } else {
        xor_fold(s.drop_last()) ^ s.last()
    }
}

/// XOR of the bytes `s[i..j]`, written so that growing the span by one byte
/// unfolds definitionally.
pub open spec fn xor_range(s: Seq<u8>, i: int, j: int) -> u8
    decreases j - i,
{
    if j <= i {
        0
    } else {
        xor_range(s, i, j - 1) ^ s[j - 1]
    }
}

/// `xor_range` over a span is the fold of the corresponding subrange.
pub proof fn lemma_xor_range_is_fold(s: Seq<u8>, i: int, j: int)
    requires
        0 <= i <= j <= s.len(),
    ensures
        xor_range(s, i, j) == xor_fold(s.subrange(i, j)),
    decreases j - i,
{
    if i < j {
        lemma_xor_range_is_fold(s, i, j - 1);
        assert(s.subrange(i, j).drop_last() =~= s.subrange(i, j - 1));
    }
}

/// Updating one byte of `s` leaves `xor_range` over a span untouched when the
/// byte lies outside the span, and folds the old and new byte in otherwise.
pub proof fn lemma_xor_range_update(s: Seq<u8>, p: int, v: u8, i: int, j: int)
    requires
        0 <= i <= j <= s.len(),
        0 <= p < s.len(),
    ensures
        i <= p < j ==> xor_range(s.update(p, v), i, j) == xor_range(s, i, j) ^ s[p] ^ v,
        !(i <= p < j) ==> xor_range(s.update(p, v), i, j) == xor_range(s, i, j),
    decreases j - i,
{
    if i < j {
        lemma_xor_range_update(s, p, v, i, j - 1);
        let t = s.update(p, v);
        let c = xor_range(s, i, j - 1);
        let b = s[p];
        if p == j - 1 {
            assert(xor_range(t, i, j) == xor_range(t, i, j - 1) ^ v);
            assert(((c ^ b) ^ b) ^ v == c ^ v) by (bit_vector);
        } else if i <= p < j {
            let d = s[j - 1];
            assert(((c ^ b) ^ v) ^ d == ((c ^ d) ^ b) ^ v) by (bit_vector);
        }
    }
}

/// The big-endian 16-bit value carried by two bytes.
pub open spec fn be_u16(hi: u8, lo: u8) -> u16 {
    (((hi as int) * 256 + (lo as int)) as u16)
}

/// The big-endian 32-bit value carried by four bytes.
pub open spec fn be_u32(b0: u8, b1: u8, b2: u8, b3: u8) -> u32 {
    (((b0 as int) * 0x100_0000 + (b1 as int) * 0x1_0000 + (b2 as int) * 256 + (b3 as int))
        as u32)
}

/// The 15-bit length carried by an extended length field, ignoring the
/// marker bit.
pub open spec fn declared_len(hi: u8, lo: u8) -> u16 {
    ((((hi & 0x7F) as int) * 256 + (lo as int)) as u16)
}

} // verus!
