//! The I2C transactions that the sensor drivers ask the firmware to perform.

use vstd::prelude::*;

verus! {

/// What a driver asks for next: an I2C transaction, a delay, or nothing more
/// because its operation has ended with `Done`.
///
/// After each request the firmware hands the driver the reply: `None` when the
/// bus reported an error, else `Some` of the bytes read (`read_len` of them)
/// or of no bytes for a plain write or a delay.
#[derive(Debug)]
pub enum I2cStep<T> {
    /// Write `bytes` to the device at `addr`.
    Write { addr: u8, bytes: Vec<u8> },
    /// Write `bytes` to the device at `addr`, then read `read_len` bytes back.
    WriteRead { addr: u8, bytes: Vec<u8>, read_len: usize },
    /// Read `read_len` bytes from the device at `addr`.
    Read { addr: u8, read_len: usize },
    /// Wait for `ms` milliseconds.
    DelayMs(u32),
    /// The operation is over, with this outcome.
    Done(T),
}

/// An [`I2cStep`] with its byte vectors taken as sequences.
pub enum I2cRequest<T> {
    Write { addr: u8, bytes: Seq<u8> },
    WriteRead { addr: u8, bytes: Seq<u8>, read_len: nat },
    Read { addr: u8, read_len: nat },
    DelayMs(u32),
    Done(T),
}

impl<T> View for I2cStep<T> {
    type V = I2cRequest<T>;

    open spec fn view(&self) -> I2cRequest<T> {
        match self {
            I2cStep::Write { addr, bytes } => I2cRequest::Write { addr: *addr, bytes: bytes@ },
            I2cStep::WriteRead { addr, bytes, read_len } => I2cRequest::WriteRead {
                addr: *addr,
                bytes: bytes@,
                read_len: *read_len as nat,
            },
            I2cStep::Read { addr, read_len } => I2cRequest::Read {
                addr: *addr,
                read_len: *read_len as nat,
            },
            I2cStep::DelayMs(ms) => I2cRequest::DelayMs(*ms),
            I2cStep::Done(t) => I2cRequest::Done(*t),
        }
    }
}

/// A vector holding the single byte `b`.
pub fn one_byte(b: u8) -> (v: Vec<u8>)
    ensures
        v@ == seq![b],
{
    let mut v = Vec::new();
    v.push(b);
    assert(v@ =~= seq![b]);
    v
}

/// The number of bytes that the reply to `req` carries when it succeeds.
pub open spec fn reply_len<T>(req: I2cRequest<T>) -> nat {
    match req {
        I2cRequest::WriteRead { read_len, .. } => read_len,
        I2cRequest::Read { read_len, .. } => read_len,
        _ => 0,
    }
}

} // verus!
