//! Port settings and the messages exchanged with the thread that owns an
//! open serial port.
use vstd::prelude::*;

verus! {

/// Number of data bits per character.
#[derive(Clone, Copy, Debug, PartialEq, Eq, Structural)]
pub enum DataBits {
    Five,
    Six,
    Seven,
    Eight,
}

/// Number of stop bits.
#[derive(Clone, Copy, Debug, PartialEq, Eq, Structural)]
pub enum StopBits {
    One,
    Two,
}

/// Parity checking mode.
#[derive(Clone, Copy, Debug, PartialEq, Eq, Structural)]
pub enum Parity {
    Off,
    Odd,
    Even,
}

/// Flow control mode.
#[derive(Clone, Copy, Debug, PartialEq, Eq, Structural)]
pub enum FlowControl {
    Off,
    Software,
    Hardware,
}

/// How a line ending is encoded on the wire.
#[derive(Clone, Copy, Debug, PartialEq, Eq, Structural)]
pub enum NewlineEncoding {
    CR,
    LF,
    CRLF,
}

/// Whether typed keys are sent one by one or as a whole line.
#[derive(Clone, Copy, Debug, PartialEq, Eq, Structural)]
pub enum InputMode {
    Direct,
    Line,
}

/// Everything needed to open a port.
#[derive(Clone, Copy, Debug, PartialEq, Eq, Structural)]
pub struct PortConfig {
    pub baud: u32,
    pub data_bits: DataBits,
    pub stop_bits: StopBits,
    pub parity: Parity,
    pub flow_control: FlowControl,
    /// Do not take an exclusive lock on the port (Unix only).
    pub no_lock: bool,
}

/// The baud rate used when nothing else is configured.
pub const DEFAULT_BAUD: u32 = 115200;

/// The settings used when nothing else is configured: 115200 baud, 8N1,
/// no flow control, port locked.
pub open spec fn default_port_config() -> PortConfig {
    PortConfig {
        baud: 115200,
        data_bits: DataBits::Eight,
        stop_bits: StopBits::One,
        parity: Parity::Off,
        flow_control: FlowControl::Off,
        no_lock: false,
    }
}

impl Default for PortConfig {
    fn default() -> (c: Self)
        ensures
            c == default_port_config(),
    {
        PortConfig {
            baud: DEFAULT_BAUD,
            data_bits: DataBits::Eight,
            stop_bits: StopBits::One,
            parity: Parity::Off,
            flow_control: FlowControl::Off,
            no_lock: false,
        }
    }
}

/// The standard baud rates that can be stepped through, slowest first.
pub const BAUD_RATES: [u32; 8] = [9600, 19200, 38400, 57600, 115200, 230400, 460800, 921600];

/// The standard baud rates as a sequence.
pub open spec fn baud_rates() -> Seq<u32> {
    seq![9600u32, 19200, 38400, 57600, 115200, 230400, 460800, 921600]
}

/// The index of the rate used when the current rate is not a standard one.
pub const FALLBACK_BAUD_INDEX: usize = 4;

/// The `i`-th standard baud rate.
pub fn baud_rate_at(i: usize) -> (r: u32)
    requires
        i < 8,
    ensures
        r == baud_rates()[i as int],
{
    let rates = BAUD_RATES;
    proof {
        assert(rates@ == baud_rates());
    }
    rates[i]
}

/// The position of `baud` among the standard rates.
pub fn find_baud(baud: u32) -> (r: Option<usize>)
    ensures
        match r {
            Some(i) => i < 8 && baud_rates()[i as int] == baud,
            None => forall|i: int| 0 <= i < 8 ==> baud_rates()[i] != baud,
        },
{
    let mut i: usize = 0;
    while i < 8
        invariant
            i <= 8,
            forall|j: int| 0 <= j < i ==> baud_rates()[j] != baud,
        decreases 8 - i,
    {
        if baud_rate_at(i) == baud {
            return Some(i);
        }
        i += 1;
    }
    None
}

/// A request to the thread that owns an open port.
#[derive(Clone, Debug)]
pub enum Command {
    Write(Vec<u8>),
    Disconnect,
}

/// A report from the thread that owns an open port.
#[derive(Clone, Debug)]
pub enum SerialEvent {
    Data(Vec<u8>),
    Error(String),
    Disconnected,
}

} // verus!
