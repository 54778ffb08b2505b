//! Serial-link configuration as plain values: the codec's surrounding
//! transport needs a baud rate, character format and read timeout, and
//! carrying them as an explicit settings value keeps the codec testable
//! without hardware.

use vstd::prelude::*;

verus! {

/// Parity mode of the serial character format.
#[derive(Debug, Clone, Copy, PartialEq, Eq, Structural)]
pub enum Parity {
    /// No parity bit.
    Off,
    /// Odd parity.
    Odd,
    /// Even parity.
    Even,
}

/// Flow-control mode of the serial link.
#[derive(Debug, Clone, Copy, PartialEq, Eq, Structural)]
pub enum FlowControl {
    /// No flow control.
    Off,
    /// XON/XOFF software flow control.
    Software,
    /// RTS/CTS hardware flow control.
    Hardware,
}

/// Settings of the serial link to the module.
#[derive(Debug, Clone, Copy, PartialEq, Eq, Structural)]
pub struct PortSettings {
    /// Bit rate in bits per second.
    pub baud_rate: u32,
    /// Data bits per character.
    pub data_bits: u8,
    /// Parity mode.
    pub parity: Parity,
    /// Stop bits per character.
    pub stop_bits: u8,
    /// Flow-control mode.
    pub flow_control: FlowControl,
    /// Timeout of one blocking read, in milliseconds.
    pub read_timeout_ms: u64,
}

/// The character format the module's firmware expects: 115200 bits per
/// second, 8 data bits, no parity, one stop bit, no flow control, and a
/// five-second read timeout.
pub open spec fn module_default_settings() -> PortSettings {
    PortSettings {
        baud_rate: 115200,
        data_bits: 8,
        parity: Parity::Off,
        stop_bits: 1,
        flow_control: FlowControl::Off,
        read_timeout_ms: 5000,
    }
}

impl Default for PortSettings {
    /// The settings the module's firmware expects.
    fn default() -> (s: Self)
        ensures
            s == module_default_settings(),
    {
        PortSettings {
            baud_rate: 115200,
            data_bits: 8,
            parity: Parity::Off,
            stop_bits: 1,
            flow_control: FlowControl::Off,
            read_timeout_ms: 5000,
        }
    }
}

} // verus!
