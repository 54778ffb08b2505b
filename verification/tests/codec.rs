use twelite::DecodeError;
use twelite::config::FlowControl;
use twelite::config::Parity;
use twelite::config::PortSettings;
use twelite::EncodeError;
use twelite::build_command_frame;
use twelite::calc_checksum;
use twelite::parse_response;

/// Assembles a well-formed response frame around `payload`, as the module's
/// firmware would: header, outer length field with the extended marker bit,
/// the data section, its XOR checksum, and the footer.
fn make_response_frame(
    sender_id: u8,
    response_id: u8,
    source: u32,
    destination: u32,
    link_quality: u8,
    payload: &[u8],
) -> Vec<u8> {
    let mut body: Vec<u8> = vec![sender_id, 0xA0, response_id];
    body.extend_from_slice(&source.to_be_bytes());
    body.extend_from_slice(&destination.to_be_bytes());
    body.push(link_quality);
    let plen = payload.len() as u16;
    body.push((plen >> 8) as u8);
    body.push(plen as u8);
    body.extend_from_slice(payload);

    let dl = body.len() as u16;
    let mut frame: Vec<u8> = vec![0xA5, 0x5A, ((dl >> 8) as u8) | 0x80, dl as u8];
    let checksum = calc_checksum(&body);
    frame.append(&mut body);
    frame.push(checksum);
    frame.push(0x04);
    frame
}

#[test]
fn test_parser() {
    let mut data: Vec<u8> = vec![
        0x00, 0xA0, 0x13, 0x1A, 0x1B, 0x1C, 0x1D, 0x2A, 0x2B, 0x2C, 0x2D, 0xFF, 0x00, 0x03, 0x12,
        0x34, 0x56,
    ];
    let checksum = calc_checksum(&data);
    let mut rx_buf = vec![0xA5, 0x5A, 0x80, 0x11];
    rx_buf.append(&mut data);
    rx_buf.push(checksum);
    rx_buf.push(0x04);

    let vals = parse_response(&rx_buf).unwrap();
    assert_eq!(vals.sender_id, 0x00);
    assert_eq!(vals.response_id, 0x13);
    assert_eq!(vals.source_extended_address, 0x1A1B1C1D);
    assert_eq!(vals.destination_extended_address, 0x2A2B2C2D);
    assert_eq!(vals.link_quality, 0xFF);
    assert_eq!(vals.payload, vec![0x12, 0x34, 0x56]);
}

#[test]
fn round_trip_recovers_every_field() {
    let payload = [0xDE, 0xAD, 0xBE, 0xEF, 0x01];
    let frame = make_response_frame(0x42, 0x99, 0x01020304, 0xFFFFFFFF, 0x7B, &payload);
    let decoded = parse_response(&frame).unwrap();
    assert_eq!(decoded.sender_id, 0x42);
    assert_eq!(decoded.response_id, 0x99);
    assert_eq!(decoded.source_extended_address, 0x01020304);
    assert_eq!(decoded.destination_extended_address, 0xFFFFFFFF);
    assert_eq!(decoded.link_quality, 0x7B);
    assert_eq!(decoded.declared_length, 14 + 5);
    assert_eq!(decoded.payload, payload.to_vec());
}

#[test]
fn round_trip_largest_payload() {
    let payload: Vec<u8> = (0..620u32).map(|i| (i % 251) as u8).collect();
    let frame = make_response_frame(0x01, 0x13, 0x80000000, 0x00000001, 0x00, &payload);
    let decoded = parse_response(&frame).unwrap();
    assert_eq!(decoded.payload, payload);
    assert_eq!(decoded.declared_length, 14 + 620);
}

#[test]
fn checksum_catches_payload_bit_flip() {
    let frame = make_response_frame(0x11, 0x22, 0xAABBCCDD, 0x00112233, 0x55, &[0x10, 0x20, 0x30]);
    for bit in 0..8 {
        // Flip one bit of the second payload byte (data section, index 19).
        let mut bad = frame.clone();
        bad[19] ^= 1 << bit;
        assert!(matches!(parse_response(&bad), Err(DecodeError::ChecksumMismatch)));
    }
}

#[test]
fn checksum_catches_address_bit_flip() {
    let frame = make_response_frame(0x11, 0x22, 0xAABBCCDD, 0x00112233, 0x55, &[0x10, 0x20, 0x30]);
    // Flip one bit of the source extended address (data section, index 7).
    let mut bad = frame.clone();
    bad[7] ^= 0x80;
    assert!(matches!(parse_response(&bad), Err(DecodeError::ChecksumMismatch)));
}

#[test]
fn flip_outside_span_is_not_accepted() {
    let frame = make_response_frame(0x11, 0x22, 0xAABBCCDD, 0x00112233, 0x55, &[0x10, 0x20, 0x30]);
    let last = frame.len() - 1;
    // A corrupted checksum byte is a checksum mismatch, not a false accept.
    let mut bad = frame.clone();
    bad[last - 1] ^= 0x01;
    assert!(matches!(parse_response(&bad), Err(DecodeError::ChecksumMismatch)));
    // A corrupted footer fails the footer check; the checksum still passes.
    let mut bad = frame.clone();
    bad[last] ^= 0x01;
    assert!(matches!(parse_response(&bad), Err(DecodeError::FooterMissing)));
}

#[test]
fn resync_skips_leading_noise() {
    let frame = make_response_frame(0x07, 0x13, 0x10203040, 0xFFFFFFFF, 0xC8, &[0xAB, 0xCD]);
    // Noise without the exact header sequence, including a stray 0xA5.
    let mut buf: Vec<u8> = vec![0x00, 0xFF, 0xA5, 0x00, 0x5A, 0x31];
    buf.extend_from_slice(&frame);
    let decoded = parse_response(&buf).unwrap();
    assert_eq!(decoded.sender_id, 0x07);
    assert_eq!(decoded.payload, vec![0xAB, 0xCD]);
}

#[test]
fn truncated_frame_is_rejected() {
    let frame = make_response_frame(0x01, 0x02, 0x03040506, 0x0708090A, 0x0B, &[0x0C, 0x0D]);
    // The outer length field declares a data section that no longer fits
    // together with the checksum and footer.
    let short_one = frame[..frame.len() - 1].to_vec();
    assert!(matches!(parse_response(&short_one), Err(DecodeError::LengthExceedsBuffer)));
    let short_two = frame[..frame.len() - 2].to_vec();
    assert!(matches!(parse_response(&short_two), Err(DecodeError::LengthExceedsBuffer)));
}

#[test]
fn header_not_found() {
    assert!(matches!(parse_response(&vec![0u8; 16]), Err(DecodeError::HeaderNotFound)));
    // A header marker with no room for the length field behind it does not count.
    assert!(matches!(parse_response(&vec![0x00, 0xA5, 0x5A]), Err(DecodeError::HeaderNotFound)));
    assert!(matches!(parse_response(&Vec::new()), Err(DecodeError::HeaderNotFound)));
}

#[test]
fn malformed_length_field() {
    // The extended-length marker bit of the length field is absent.
    let buf = vec![0xA5, 0x5A, 0x00, 0x11, 0x00, 0xA0];
    assert!(matches!(parse_response(&buf), Err(DecodeError::MalformedLengthField)));
}

#[test]
fn length_exceeds_buffer() {
    // Declared data section far larger than the buffer.
    let buf = vec![0xA5, 0x5A, 0x80, 0x50, 0x00, 0xA0, 0x00, 0x00];
    assert!(matches!(parse_response(&buf), Err(DecodeError::LengthExceedsBuffer)));
    // Declared length satisfied and frame kind right, but the buffer still
    // ends inside the fixed fields.
    let buf = vec![0xA5, 0x5A, 0x80, 0x00, 0x00, 0xA0];
    assert!(matches!(parse_response(&buf), Err(DecodeError::LengthExceedsBuffer)));
}

#[test]
fn frame_kind_mismatch() {
    let mut frame = make_response_frame(0x01, 0x02, 0, 0, 0, &[0x55]);
    frame[5] = 0xA1;
    assert!(matches!(parse_response(&frame), Err(DecodeError::FrameKindMismatch)));
    // The frame-kind byte is tested as soon as the outer length bound shows
    // it is in bounds, even when the fixed fields are cut short.
    let buf = vec![0xA5, 0x5A, 0x80, 0x00, 0x00, 0xA1];
    assert!(matches!(parse_response(&buf), Err(DecodeError::FrameKindMismatch)));
}

#[test]
fn payload_length_exceeds_buffer() {
    let mut frame = make_response_frame(0x01, 0x02, 0, 0, 0, &[0x55]);
    // Inflate the inner payload-length field past the end of the buffer.
    frame[16] = 0xFF;
    frame[17] = 0xFF;
    assert!(matches!(parse_response(&frame), Err(DecodeError::PayloadLengthExceedsBuffer)));
}

#[test]
fn encode_concrete_frame() {
    let payload = vec![0x12, 0x34, 0x56];
    let frame = build_command_frame(&payload, 0x78, 0x13).unwrap();
    assert_eq!(
        frame,
        vec![0xA5, 0x5A, 0x80, 0x03, 0x78, 0xA0, 0x13, 0x01, 0xFF, 0x12, 0x34, 0x56, 0x70]
    );
}

#[test]
fn encode_boundary_sizes() {
    let largest = vec![0xAA; 620];
    let frame = build_command_frame(&largest, 0x78, 0x13).unwrap();
    assert_eq!(frame.len(), 620 + 10);
    // 620 = 0x026C: extended-length field carries the payload byte count.
    assert_eq!(frame[2], 0x82);
    assert_eq!(frame[3], 0x6C);
    // XOR of an even number of equal bytes cancels out.
    assert_eq!(frame[frame.len() - 1], 0x00);

    let too_large = vec![0xAA; 621];
    assert_eq!(build_command_frame(&too_large, 0x78, 0x13), Err(EncodeError::PayloadTooLarge));

    let empty: Vec<u8> = Vec::new();
    assert_eq!(build_command_frame(&empty, 0x78, 0x13), Err(EncodeError::EmptyPayload));
}

#[test]
fn checksum_concrete_values() {
    assert_eq!(calc_checksum(&vec![0x12, 0x34, 0x56]), 0x70);
    assert_eq!(calc_checksum(&vec![0xFF]), 0xFF);
    assert_eq!(calc_checksum(&vec![0x0F, 0xF0]), 0xFF);
}

#[test]
fn default_settings_match_module_firmware() {
    let s = PortSettings::default();
    assert_eq!(s.baud_rate, 115200);
    assert_eq!(s.data_bits, 8);
    assert_eq!(s.parity, Parity::Off);
    assert_eq!(s.stop_bits, 1);
    assert_eq!(s.flow_control, FlowControl::Off);
    assert_eq!(s.read_timeout_ms, 5000);
}
