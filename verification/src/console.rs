//! The kernel console: text to the first serial port.

pub mod serial;

use vstd::prelude::*;
use vstd::string::StringSliceAdditionalSpecFns;
use crate::console::serial::{spec_serial_bytes, serial_bytes};

verus! {

/// The kernel console. Its operations give the bytes that go out on the
/// serial port for a message; every newline is sent as CR LF.
pub struct Console;

impl Console {
    /// The bytes sent for `message` followed by a newline.
    pub fn println(message: &str) -> (r: Vec<u8>)
        ensures
            r@ == spec_serial_bytes(message.spec_bytes().push(0x0Au8)),
    {
        let bytes = message.as_bytes();
        let mut text: Vec<u8> = Vec::new();
        let mut i: usize = 0;
        while i < bytes.len()
            invariant
                0 <= i <= bytes@.len(),
                text@ == bytes@.subrange(0, i as int),
            decreases bytes@.len() - i,
        {
            text.push(bytes[i]);
            assert(text@ =~= bytes@.subrange(0, i + 1));
            i = i + 1;
        }
        text.push(0x0A);
        assert(text@ =~= bytes@.push(0x0Au8));
        serial_bytes(text.as_slice())
    }

    /// The bytes sent for `message`.
    pub fn print(message: &str) -> (r: Vec<u8>)
        ensures
            r@ == spec_serial_bytes(message.spec_bytes()),
    {
        serial_bytes(message.as_bytes())
    }
}

} // verus!
