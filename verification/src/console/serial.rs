//! COM1: its setup and the bytes that go out for a text.

use vstd::prelude::*;
use vstd::string::StringSliceAdditionalSpecFns;

verus! {

pub const COM1: u16 = 0x3F8;
/// Line status: transmit holding register empty.
pub const LSR_THRE: u8 = 0x20;

/// What goes out for `text`: each newline is preceded by a carriage return.
pub open spec fn spec_serial_bytes(text: Seq<u8>) -> Seq<u8>
    decreases text.len(),
{
    if text.len() == 0 {
        Seq::empty()
    } else {
        let rest = spec_serial_bytes(text.drop_last());
        if text.last() == 0x0Au8 { rest.push(0x0Du8).push(0x0Au8) } else { rest.push(text.last()) }
    }
}

pub fn serial_bytes(text: &[u8]) -> (r: Vec<u8>)
    ensures
        r@ == spec_serial_bytes(text@),
{
    let mut out: Vec<u8> = Vec::new();
    let mut i: usize = 0;
    while i < text.len()
        invariant
            0 <= i <= text@.len(),
            out@ == spec_serial_bytes(text@.subrange(0, i as int)),
        decreases text@.len() - i,
    {
        assert(text@.subrange(0, i + 1).drop_last() =~= text@.subrange(0, i as int));
        if text[i] == 0x0A {
            out.push(0x0D);
        }
        out.push(text[i]);
        i = i + 1;
    }
    assert(text@.subrange(0, text@.len() as int) =~= text@);
    out
}

/// The port writes that set COM1 up: interrupts off, divisor 3 (38400
/// baud), 8N1, FIFOs on and cleared with a 14-byte threshold, RTS/DSR set.
pub fn init_sequence() -> (r: Vec<(u16, u8)>)
    ensures
        r@ == seq![(0x3F9u16, 0x00u8), (0x3FBu16, 0x80u8), (0x3F8u16, 0x03u8), (0x3F9u16, 0x00u8),
            (0x3FBu16, 0x03u8), (0x3FAu16, 0xC7u8), (0x3FCu16, 0x0Bu8)],
{
    let mut v: Vec<(u16, u8)> = Vec::new();
    v.push((COM1 + 1, 0x00));
    v.push((COM1 + 3, 0x80));
    v.push((COM1, 0x03));
    v.push((COM1 + 1, 0x00));
    v.push((COM1 + 3, 0x03));
    v.push((COM1 + 2, 0xC7));
    v.push((COM1 + 4, 0x0B));
    assert(v@ =~= seq![(0x3F9u16, 0x00u8), (0x3FBu16, 0x80u8), (0x3F8u16, 0x03u8), (0x3F9u16, 0x00u8),
        (0x3FBu16, 0x03u8), (0x3FAu16, 0xC7u8), (0x3FCu16, 0x0Bu8)]);
    v
}

/// The transmitter takes a byte when THRE is set in the line status.
pub fn can_transmit(lsr: u8) -> (r: bool)
    ensures
        r == (lsr & LSR_THRE != 0),
{
    lsr & LSR_THRE != 0
}


/// COM1, reached through the higher-half direct map at `hhdm`.
pub struct SerialPort {
    pub hhdm: u64,
}

impl SerialPort {
    pub fn new(hhdm: u64) -> (r: Self)
        ensures
            r.hhdm == hhdm,
    {
        SerialPort { hhdm }
    }

    /// The bytes written to the data port for `s`, in order.
    pub fn encode(&self, s: &str) -> (r: Vec<u8>)
        ensures
            r@ == spec_serial_bytes(s.spec_bytes()),
    {
        serial_bytes(s.as_bytes())
    }
}

} // verus!
