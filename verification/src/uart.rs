//! The serial console of a bare-metal RISC-V program: what it sends, byte by byte.

use vstd::prelude::*;
use vstd::string::StringSliceAdditionalSpecFns;

verus! {

/// The exit code the program hands the test device when it finishes normally.
pub const EXIT_SUCCESS: u32 = 0x5555;

/// The bytes written to the UART's transmit register, in order.
pub struct Uart {
    pub transmitted: Vec<u8>,
}

impl Uart {
    /// A UART that has sent nothing.
    pub fn new() -> (r: Uart)
        ensures
            r.transmitted@ == Seq::<u8>::empty(),
    {
        Uart { transmitted: Vec::new() }
    }
}

/// Sends one byte.
pub fn uart_write(uart: &mut Uart, byte: u8)
    ensures
        final(uart).transmitted@ == old(uart).transmitted@.push(byte),
{
    uart.transmitted.push(byte);
}

/// Sends the UTF-8 bytes of a string.
pub fn print_str(uart: &mut Uart, s: &str)
    ensures
        final(uart).transmitted@ == old(uart).transmitted@ + s.spec_bytes(),
{
    let bytes = s.as_bytes();
    let ghost start = uart.transmitted@;
    let mut i: usize = 0;
    while i < bytes.len()
        invariant
            i <= bytes@.len(),
            bytes@ == s.spec_bytes(),
            uart.transmitted@ == start + bytes@.subrange(0, i as int),
        decreases bytes@.len() - i,
    {
        uart_write(uart, bytes[i]);
        i = i + 1;
        proof {
            assert(uart.transmitted@ =~= start + bytes@.subrange(0, i as int));
        }
    }
    proof {
        assert(bytes@.subrange(0, bytes@.len() as int) =~= bytes@);
    }
}

/// The program's start: greets on the console and returns the code for the exit device.
pub fn start(uart: &mut Uart) -> (exit_code: u32)
    ensures
        final(uart).transmitted@ == old(uart).transmitted@ + "Hello, world!\n".spec_bytes(),
        exit_code == EXIT_SUCCESS,
{
    print_str(uart, "Hello, world!\n");
    EXIT_SUCCESS
}

/// What the program sends when it panics.
pub fn report_panic(uart: &mut Uart)
    ensures
        final(uart).transmitted@ == old(uart).transmitted@ + "PANIC!".spec_bytes(),
{
    print_str(uart, "PANIC!");
}

} // verus!
