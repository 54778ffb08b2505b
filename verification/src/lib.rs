//! Codec for the binary serial framing of a TWE-Lite radio module.
//!
//! The library builds outbound command frames around an arbitrary payload and
//! decodes inbound response frames: it resynchronizes on the two-byte header,
//! validates the length fields, the fixed markers, the XOR checksum and the
//! footer, and extracts addressing, link-quality and payload fields.
//! Opening and driving the serial port itself is left to the caller.

pub mod config;
pub mod decoder;
pub mod encoder;
pub mod frame;
pub mod laws;

pub use decoder::parse_response;

pub use encoder::build_command_frame;
pub use encoder::calc_checksum;
pub use frame::DecodeError;
pub use frame::EncodeError;
pub use frame::ResponseFrame;
