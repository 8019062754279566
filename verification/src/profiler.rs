//! Timing reports on the serial console: how long a piece of work took,
//! from two readings of the 400 MHz cycle counter.

use vstd::prelude::*;
use vstd::string::*;
use crate::drivers::serial::{SerialTx, decimal_digits};

verus! {

/// Cycles of the core clock in one microsecond.
pub const CYCLES_PER_US: u32 = 400;

/// The microseconds from cycle count `start` to cycle count `end`, the
/// counter having wrapped at most once.
pub fn elapsed_us(start: u32, end: u32) -> (us: u32)
    ensures
        us == (if end >= start {
            end - start
        } else {
            end - start + 0x1_0000_0000
        }) / 400,
{
    end.wrapping_sub(start) / CYCLES_PER_US
}

/// Queues the report "`name` took: M.T ms" and a line break: whole
/// milliseconds, then tenths.
pub fn write_report<T>(tx: &mut SerialTx<T>, name: &str, time_us: u32)
    ensures
        final(tx).port() == old(tx).port(),
        final(tx).output() == old(tx).output() + name.spec_bytes() + " took: ".spec_bytes()
            + decimal_digits((time_us / 1000) as nat) + ".".spec_bytes() + decimal_digits(
            ((time_us % 1000) / 100) as nat,
        ) + " ms\r\n".spec_bytes(),
{
    tx.write_str(name);
    tx.write_str(" took: ");
    tx.write_num(time_us / 1000);
    tx.write_str(".");
    tx.write_num((time_us % 1000) / 100);
    tx.write_str(" ms\r\n");
}

} // verus!
