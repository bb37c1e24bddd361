//! Link settings and the arithmetic of a serial frame.
//!
//! A character on the wire is framed by one start bit, the data bits, an
//! optional parity bit and one or two stop bits. The number of bits per
//! character and the baud rate give the number of bytes the link can carry
//! in a given time, which is what the transfer pacer works with.

use vstd::prelude::*;

verus! {

/// Number of data bits in one character.
#[derive(Clone, Copy, Debug, PartialEq, Eq, Structural)]
pub enum DataBits {
    Five,
    Six,
    Seven,
    Eight,
}

/// Parity bit appended to each character.
#[derive(Clone, Copy, Debug, PartialEq, Eq, Structural)]
pub enum Parity {
    /// No parity bit is transmitted.
    NoParity,
    Odd,
    Even,
}

/// Number of stop bits that end a character.
#[derive(Clone, Copy, Debug, PartialEq, Eq, Structural)]
pub enum StopBits {
    One,
    Two,
}

/// How the two ends of the link throttle each other.
#[derive(Clone, Copy, Debug, PartialEq, Eq, Structural)]
pub enum FlowControl {
    /// Neither end throttles the other.
    NoFlowControl,
    /// XON/XOFF bytes.
    Software,
    /// RTS/CTS signals.
    Hardware,
}

/// The configuration of a link. Every field always holds the last value that
/// was set for it, whether or not a device is open.
#[derive(Clone, Copy, Debug, PartialEq, Eq, Structural)]
pub struct LinkSettings {
    /// Symbols per second.
    pub baud_rate: u32,
    pub data_bits: DataBits,
    pub flow_control: FlowControl,
    pub parity: Parity,
    pub stop_bits: StopBits,
}

impl DataBits {
    /// The number of data bits as an integer, 5 to 8.
    pub open spec fn count(self) -> int {
        match self {
            DataBits::Five => 5,
            DataBits::Six => 6,
            DataBits::Seven => 7,
            DataBits::Eight => 8,
        }
    }

    /// The number of data bits.
    pub fn bits(self) -> (n: u32)
        ensures
            n == self.count(),
    {
        match self {
            DataBits::Five => 5,
            DataBits::Six => 6,
            DataBits::Seven => 7,
            DataBits::Eight => 8,
        }
    }
}

impl Parity {
    /// The number of bits that parity adds to a character: 0 or 1.
    pub open spec fn count(self) -> int {
        match self {
            Parity::NoParity => 0,
            Parity::Odd => 1,
            Parity::Even => 1,
        }
    }

    /// The number of parity bits.
    pub fn bits(self) -> (n: u32)
        ensures
            n == self.count(),
    {
        match self {
            Parity::NoParity => 0,
            Parity::Odd => 1,
            Parity::Even => 1,
        }
    }
}

impl StopBits {
    /// The number of stop bits as an integer, 1 or 2.
    pub open spec fn count(self) -> int {
        match self {
            StopBits::One => 1,
            StopBits::Two => 2,
        }
    }

    /// The number of stop bits.
    pub fn bits(self) -> (n: u32)
        ensures
            n == self.count(),
    {
        match self {
            StopBits::One => 1,
            StopBits::Two => 2,
        }
    }
}

/// Bits on the wire for one character: a start bit, the data bits, the parity
/// bit if there is one, and the stop bits.
pub open spec fn frame_bits(settings: LinkSettings) -> int {
    1 + settings.data_bits.count() + settings.parity.count() + settings.stop_bits.count()
}

/// Whole bytes that the link carries in `quantum_ms` milliseconds, rounded
/// down so that the pacer never runs ahead of the link.
pub open spec fn quantum_bytes(settings: LinkSettings, quantum_ms: u32) -> int {
    (settings.baud_rate as int * quantum_ms as int) / (frame_bits(settings) * 1000)
}

impl LinkSettings {
    /// The settings of a link that nobody has configured yet: 9600 baud,
    /// eight data bits, no parity, one stop bit, no flow control.
    pub open spec fn initial() -> LinkSettings {
        LinkSettings {
            baud_rate: 9600,
            data_bits: DataBits::Eight,
            flow_control: FlowControl::NoFlowControl,
            parity: Parity::NoParity,
            stop_bits: StopBits::One,
        }
    }

    /// Bits on the wire for one character.
    pub fn bits_per_character(&self) -> (n: u32)
        ensures
            n == frame_bits(*self),
            7 <= n <= 12,
    {
        1 + self.data_bits.bits() + self.parity.bits() + self.stop_bits.bits()
    }

    /// Whole bytes that fit on the link in `quantum_ms` milliseconds.
    pub fn bytes_per_quantum(&self, quantum_ms: u32) -> (n: u64)
        ensures
            n == quantum_bytes(*self, quantum_ms),
    {
        let bits: u64 = self.bits_per_character() as u64;
        assert(self.baud_rate as int * quantum_ms as int <= 0xffff_ffff * 0xffff_ffff)
            by (nonlinear_arith);
        let symbols: u64 = self.baud_rate as u64 * quantum_ms as u64;
        symbols / (bits * 1000)
    }
}

impl Default for LinkSettings {
    /// The settings of a link that nobody has configured yet.
    fn default() -> (settings: LinkSettings)
        ensures
            settings == LinkSettings::initial(),
    {
        LinkSettings {
            baud_rate: 9600,
            data_bits: DataBits::Eight,
            flow_control: FlowControl::NoFlowControl,
            parity: Parity::NoParity,
            stop_bits: StopBits::One,
        }
    }
}

/// A quantum's worth of bytes is the largest whole number of characters whose
/// frames fit into the symbols that the link carries in that quantum.
pub proof fn lemma_quantum_bytes_bounds(settings: LinkSettings, quantum_ms: u32)
    ensures
        0 <= quantum_bytes(settings, quantum_ms),
        quantum_bytes(settings, quantum_ms) * (frame_bits(settings) * 1000)
            <= settings.baud_rate as int * quantum_ms as int,
        (quantum_bytes(settings, quantum_ms) + 1) * (frame_bits(settings) * 1000)
            > settings.baud_rate as int * quantum_ms as int,
{
    let symbols = settings.baud_rate as int * quantum_ms as int;
    let frame = frame_bits(settings) * 1000;
    assert(0 <= symbols) by (nonlinear_arith)
        requires
            symbols == settings.baud_rate as int * quantum_ms as int,
    ;
    assert(frame > 0);
    vstd::arithmetic::div_mod::lemma_fundamental_div_mod(symbols, frame);
    vstd::arithmetic::div_mod::lemma_mod_bound(symbols, frame);
    vstd::arithmetic::div_mod::lemma_div_pos_is_pos(symbols, frame);
    assert(frame * (symbols / frame) == (symbols / frame) * frame) by (nonlinear_arith);
    assert((quantum_bytes(settings, quantum_ms) + 1) * frame == quantum_bytes(
        settings,
        quantum_ms,
    ) * frame + frame) by (nonlinear_arith);
}

} // verus!
