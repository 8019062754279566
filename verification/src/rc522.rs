//! The RC522 reader on an SPI bus whose transfers move two bytes each, with
//! a hardware reset pin.
//!
//! Every operation is a step machine: a script of register writes, a poll of
//! the interrupt register, then reads and checks. The firmware performs each
//! request (a reset pin level, a busy wait, a two-byte transfer) and hands
//! back its result. A register travels in the transfer's first byte shifted
//! left by one, bit 0 clear, and bit 7 set for a read. MIFARE Read and Write
//! frames carry their CRC_A, which the chip computes first.

use vstd::prelude::*;
use crate::drivers::rc522_link::{
    crc_next, crc_wf, read_addr, read_address, write_addr, write_address, CrcOp, CrcPhase, CrcState,
    CrcStep, Rc522Error, RegReq,
};
use crate::types::{CardType, Error, KeyType};

verus! {

/// Command register.
pub const COMMAND_REG: u8 = 0x01;
/// Interrupt enable register.
pub const COM_I_EN_REG: u8 = 0x02;
/// Divider interrupt enable register.
pub const DIV_I_EN_REG: u8 = 0x03;
/// Interrupt request register.
pub const COM_IRQ_REG: u8 = 0x04;
/// Error register.
pub const ERROR_REG: u8 = 0x06;
/// Status register.
pub const STATUS_REG: u8 = 0x07;
/// FIFO data register.
pub const FIFO_DATA_REG: u8 = 0x09;
/// FIFO level register.
pub const FIFOLEVEL_REG: u8 = 0x0A;
/// Control register: its low three bits count the valid bits of the last
/// byte received.
pub const CONTROL_REG: u8 = 0x0C;
/// Bit framing register.
pub const BIT_FRAMING_REG: u8 = 0x0D;
/// Transmitter control register: its low two bits drive the antenna.
pub const TX_CONTROL_REG: u8 = 0x14;
/// Command: idle.
pub const CMD_IDLE: u8 = 0x00;
/// Command: transceive.
pub const CMD_TRANSCEIVE: u8 = 0x0C;
/// Command: authenticate.
pub const CMD_AUTHENT: u8 = 0x0E;
/// Command: soft reset.
pub const CMD_SOFT_RESET: u8 = 0x0F;
/// Card command: request all.
pub const PICC_REQALL: u8 = 0x52;
/// Card command: anticollision, cascade level 1.
pub const PICC_ANTICOLL1: u8 = 0x93;
/// Card command: authenticate with key A.
pub const PICC_AUTHENT1A: u8 = 0x60;
/// Card command: authenticate with key B.
pub const PICC_AUTHENT1B: u8 = 0x61;
/// Card command: read a block.
pub const PICC_READ: u8 = 0x30;
/// Card command: write a block.
pub const PICC_WRITE: u8 = 0xA0;
/// Busy-wait cycles with the reset pin low.
pub const RESET_LOW_CYCLES: u32 = 10_000;
/// Busy-wait cycles after the reset pin goes high.
pub const RESET_SETTLE_CYCLES: u32 = 100_000;
/// Interrupt polls of `request` and `anticoll`.
pub const SHORT_POLL: u32 = 1000;
/// Interrupt polls of `authenticate`, `read` and `write`.
pub const LONG_POLL: u32 = 5000;

/// What an operation gives back when it ends well.
#[derive(Debug, Clone, Copy, PartialEq, Eq)]
pub enum ReaderOutput {
    /// Nothing: `new`, `authenticate`, `write`.
    Unit,
    /// `request`: the kind of card that answered.
    Card(CardType),
    /// `anticoll`: the card's UID.
    Uid([u8; 4]),
    /// `read`: the block's 16 bytes.
    Block([u8; 16]),
}

/// What the driver asks for next, or the outcome of its operation.
///
/// After each request the firmware hands back `Ok` of the two bytes that a
/// `Transfer` clocked in (any two bytes after a pin level or a wait), or
/// `Err` of the error that the bus or the pin reported.
#[derive(Debug, PartialEq, Eq)]
pub enum ReaderRequest<E> {
    /// Drive the reset pin low.
    RstLow,
    /// Drive the reset pin high.
    RstHigh,
    /// Busy-wait this many cycles.
    DelayCycles(u32),
    /// Transfer these two bytes, reading two back.
    Transfer([u8; 2]),
    /// The operation is over.
    Done(Result<ReaderOutput, Error<E>>),
}

/// Which operation is under way.
#[derive(Debug, Clone, Copy, PartialEq, Eq)]
pub enum ReaderOp {
    Init,
    Request,
    Anticoll,
    Auth,
    Read,
    WriteCmd,
    WriteData,
}

/// Where the operation stands: which request it waits on the result of.
#[derive(Debug, Clone, Copy, PartialEq, Eq)]
pub enum ReaderStage {
    /// No operation under way.
    Idle,
    /// Reset pin driven low.
    RstLow,
    /// Waiting with the reset pin low.
    RstDelay,
    /// Reset pin driven high.
    RstHigh,
    /// Waiting after the reset.
    RstSettle,
    /// The chip computing the CRC_A of a card command: the computation's
    /// last register access done.
    Crc,
    /// Script write `i` done.
    Script { i: usize },
    /// Interrupt register read; `left` polls remain with this one.
    Poll { left: u32 },
    /// `request`: error register read.
    ReqError,
    /// `request`: FIFO level read.
    ReqLevel,
    /// `request`: first answer byte read.
    ReqByte1,
    /// `request`: second answer byte read, after `b1`.
    ReqByte2 { b1: u8 },
    /// `anticoll`: FIFO level read.
    AcLevel,
    /// `anticoll`: answer byte `i` read.
    AcByte { i: usize },
    /// `authenticate`: status register read.
    AuthStatus,
    /// `read`: error register read.
    RdError,
    /// `read`: FIFO level read.
    RdLevel,
    /// `read`: data byte `i` read.
    RdByte { i: usize },
    /// `write`: FIFO level read after the command.
    WrLevel,
    /// `write`: the control register read, for the valid bits of the
    /// card's answer to the command.
    WrControl,
    /// `write`: the card's answer read, `bits` of its last byte valid.
    WrAck { bits: u8 },
    /// `write`: error register read after the data.
    WrError,
}

/// The driver's state: the operation, where it stands, its write script,
/// the bytes read so far, the block number and the data of a block
/// operation, and the chip's CRC computation.
pub struct ReaderState {
    pub kind: ReaderOp,
    pub stage: ReaderStage,
    pub script: Seq<(u8, u8)>,
    pub bytes: Seq<u8>,
    pub block: u8,
    pub data: [u8; 16],
    pub crc: CrcState,
}

/// The transfer that writes `value` to `reg`.
pub open spec fn write_frame(reg: u8, value: u8) -> [u8; 2] {
    [write_addr(reg), value]
}

/// The transfer that reads `reg`.
pub open spec fn read_frame(reg: u8) -> [u8; 2] {
    [read_addr(reg), 0u8]
}

/// The transfer that makes a register access of the CRC computation; it
/// asks for no delay.
pub open spec fn access_frame(q: RegReq) -> Option<[u8; 2]> {
    match q {
        RegReq::Write { reg, value } => Some(write_frame(reg, value)),
        RegReq::Read { reg } => Some(read_frame(reg)),
        RegReq::DelayMs(_) => None,
    }
}

/// Writes of `bytes` to the FIFO.
pub open spec fn fifo_writes(bytes: Seq<u8>) -> Seq<(u8, u8)> {
    bytes.map_values(|b: u8| (FIFO_DATA_REG, b))
}

/// `new` after the reset pulse: soft reset, interrupts enabled, divider
/// interrupts disabled, antenna on.
pub open spec fn init_script() -> Seq<(u8, u8)> {
    seq![(COMMAND_REG, CMD_SOFT_RESET), (COM_I_EN_REG, 0x7Fu8), (DIV_I_EN_REG, 0x00u8), (TX_CONTROL_REG, 0x03u8)]
}

/// `request`: 7-bit framing, REQALL into the FIFO, transceive with the
/// start bit.
pub open spec fn request_script() -> Seq<(u8, u8)> {
    seq![
        (BIT_FRAMING_REG, 0x07u8),
        (COMMAND_REG, CMD_IDLE),
        (FIFO_DATA_REG, PICC_REQALL),
        (COMMAND_REG, CMD_TRANSCEIVE),
        (BIT_FRAMING_REG, 0x87u8),
    ]
}

/// `anticoll`: byte framing, FIFO flushed, the anticollision command,
/// transceive with the start bit.
pub open spec fn anticoll_script() -> Seq<(u8, u8)> {
    seq![
        (BIT_FRAMING_REG, 0x00u8),
        (FIFOLEVEL_REG, 0x80u8),
        (FIFO_DATA_REG, PICC_ANTICOLL1),
        (FIFO_DATA_REG, 0x20u8),
        (COMMAND_REG, CMD_TRANSCEIVE),
        (BIT_FRAMING_REG, 0x80u8),
    ]
}

/// The card command of a key type.
pub open spec fn auth_cmd(key_type: KeyType) -> u8 {
    match key_type {
        KeyType::KeyA => PICC_AUTHENT1A,
        KeyType::KeyB => PICC_AUTHENT1B,
    }
}

/// `authenticate`: FIFO flushed, command, block, key and UID into the FIFO,
/// the authentication command.
pub open spec fn auth_script(block: u8, key_type: KeyType, key: [u8; 6], uid: [u8; 4]) -> Seq<(u8, u8)> {
    seq![(FIFOLEVEL_REG, 0x80u8), (FIFO_DATA_REG, auth_cmd(key_type)), (FIFO_DATA_REG, block)]
        + fifo_writes(key@) + fifo_writes(uid@)
        + seq![(COMMAND_REG, CMD_AUTHENT), (BIT_FRAMING_REG, 0x00u8)]
}

/// `read` and the first half of `write`: FIFO flushed, idle, the card
/// command, the block and their CRC_A `crc` (low byte first) into the FIFO,
/// transceive with the start bit.
pub open spec fn block_script(command: u8, block: u8, crc: [u8; 2]) -> Seq<(u8, u8)> {
    seq![(FIFOLEVEL_REG, 0x80u8), (COMMAND_REG, CMD_IDLE)]
        + fifo_writes(seq![command, block, crc[0], crc[1]])
        + seq![(COMMAND_REG, CMD_TRANSCEIVE), (BIT_FRAMING_REG, 0x80u8)]
}

/// The second half of `write`: idle, FIFO flushed, the 16 bytes and their
/// CRC_A `crc` into the FIFO, transceive with the start bit.
pub open spec fn data_script(data: [u8; 16], crc: [u8; 2]) -> Seq<(u8, u8)> {
    seq![(COMMAND_REG, CMD_IDLE), (FIFOLEVEL_REG, 0x80u8)] + fifo_writes(data@ + seq![crc[0], crc[1]])
        + seq![(COMMAND_REG, CMD_TRANSCEIVE), (BIT_FRAMING_REG, 0x80u8)]
}

/// The bytes whose CRC_A the chip computes before a block operation sends
/// its frame: the card command and block, or the 16 data bytes.
pub open spec fn crc_input(s: ReaderState) -> Seq<u8> {
    match s.kind {
        ReaderOp::WriteData => s.data@,
        ReaderOp::WriteCmd => seq![PICC_WRITE, s.block],
        _ => seq![PICC_READ, s.block],
    }
}

/// The script that sends a block operation's frame with its CRC_A.
pub open spec fn crc_script(s: ReaderState, crc: [u8; 2]) -> Seq<(u8, u8)> {
    match s.kind {
        ReaderOp::WriteData => data_script(s.data, crc),
        ReaderOp::WriteCmd => block_script(PICC_WRITE, s.block, crc),
        _ => block_script(PICC_READ, s.block, crc),
    }
}

/// The card kind that an ATQA names.
pub open spec fn card_type(b1: u8, b2: u8) -> CardType {
    if b1 == 0x02 && b2 == 0x00 {
        CardType::Mifare1K
    } else if b1 == 0x04 && b2 == 0x00 {
        CardType::MifareUltralight
    } else if b1 == 0x02 && b2 == 0x04 {
        CardType::Mifare4K
    } else {
        CardType::Unknown
    }
}

/// The first 16 bytes of `b` as a block.
pub open spec fn block16(b: Seq<u8>) -> [u8; 16] {
    choose|a: [u8; 16]| a@ =~= b.subrange(0, 16)
}

/// How many interrupt polls an operation makes before `Timeout`.
pub open spec fn poll_limit(kind: ReaderOp) -> u32 {
    match kind {
        ReaderOp::Request => SHORT_POLL,
        ReaderOp::Anticoll => SHORT_POLL,
        _ => LONG_POLL,
    }
}

/// Ends the operation with `out`.
pub open spec fn done<E>(s: ReaderState, out: Result<ReaderOutput, Error<E>>) -> (ReaderState, ReaderRequest<E>) {
    (ReaderState { stage: ReaderStage::Idle, ..s }, ReaderRequest::Done(out))
}

/// The step after script write `next - 1`: the next write, else the poll
/// (`new` ends there).
pub open spec fn after_script<E>(s: ReaderState, next: int) -> (ReaderState, ReaderRequest<E>) {
    if next < s.script.len() {
        (
            ReaderState { stage: ReaderStage::Script { i: next as usize }, ..s },
            ReaderRequest::Transfer(write_frame(s.script[next].0, s.script[next].1)),
        )
    } else if s.kind is Init {
        done(s, Ok(ReaderOutput::Unit))
    } else {
        (
            ReaderState { stage: ReaderStage::Poll { left: poll_limit(s.kind) }, ..s },
            ReaderRequest::Transfer(read_frame(COM_IRQ_REG)),
        )
    }
}

/// The first read after the interrupt came.
pub open spec fn after_poll<E>(s: ReaderState) -> (ReaderState, ReaderRequest<E>) {
    let (stage, reg) = match s.kind {
        ReaderOp::Request => (ReaderStage::ReqError, ERROR_REG),
        ReaderOp::Anticoll => (ReaderStage::AcLevel, FIFOLEVEL_REG),
        ReaderOp::Auth => (ReaderStage::AuthStatus, STATUS_REG),
        ReaderOp::Read => (ReaderStage::RdError, ERROR_REG),
        ReaderOp::WriteCmd => (ReaderStage::WrLevel, FIFOLEVEL_REG),
        _ => (ReaderStage::WrError, ERROR_REG),
    };
    (ReaderState { stage, ..s }, ReaderRequest::Transfer(read_frame(reg)))
}

/// Starts the script `script` of operation `kind`.
pub open spec fn begin_script<E>(s: ReaderState, kind: ReaderOp, script: Seq<(u8, u8)>) -> (ReaderState, ReaderRequest<E>) {
    after_script(ReaderState { kind, script, bytes: Seq::empty(), ..s }, 0)
}

/// Starts a block operation of kind `kind`: the chip computes the CRC_A of
/// its `crc_input`, beginning with the command register set to idle.
pub open spec fn begin_crc<E>(s: ReaderState, kind: ReaderOp) -> (ReaderState, ReaderRequest<E>) {
    let s2 = ReaderState { kind, bytes: Seq::empty(), ..s };
    (
        ReaderState { stage: ReaderStage::Crc, crc: CrcState { data: crc_input(s2), phase: CrcPhase::Stop }, ..s2 },
        ReaderRequest::Transfer(write_frame(COMMAND_REG, CMD_IDLE)),
    )
}

/// One step of the CRC computation, given the byte `v` that the last
/// access clocked in: its next access, else the frame's script with the
/// CRC_A that the chip gave. A computation whose poll ran out ends with
/// `Timeout`.
pub open spec fn crc_stage_next<E>(s: ReaderState, v: u8) -> (ReaderState, ReaderRequest<E>) {
    let (c2, st) = crc_next(s.crc, Ok(v));
    let s2 = ReaderState { crc: c2, ..s };
    match st {
        CrcStep::Reg(q) => match access_frame(q) {
            Some(f) => (s2, ReaderRequest::Transfer(f)),
            None => done(s2, Err(Error::CRCError)),
        },
        CrcStep::Finish(Ok(crc)) => begin_script(s2, s.kind, crc_script(s, crc)),
        CrcStep::Finish(Err(Rc522Error::Timeout)) => done(s2, Err(Error::Timeout)),
        CrcStep::Finish(Err(_)) => done(s2, Err(Error::CRCError)),
    }
}

/// One step of a transfer-driven stage, given the byte `v` that the
/// transfer clocked in.
///
/// The poll reads the interrupt register until bit 0 is set, at most
/// `poll_limit` times, then `Timeout`. `request` fails with `Collision`
/// when the error register's collision bit is set and with `NoCard` unless
/// exactly two bytes came, then names the card by them. `anticoll` wants
/// five bytes (else `Collision`) and keeps the first four. `authenticate`
/// fails with `Timeout` when the status register's bit 3 is set. `read`
/// fails with `Collision` on the collision bit and with `NoCard` under 18
/// bytes, then keeps the first 16. `write` wants one byte after the
/// command, with four valid bits and low nibble 0x0A (else `Collision`),
/// writes the data, and fails with `Collision` on the collision bit.
pub open spec fn transfer_next<E>(s: ReaderState, v: u8) -> (ReaderState, ReaderRequest<E>) {
    match s.stage {
        ReaderStage::Crc => crc_stage_next(s, v),
        ReaderStage::Script { i } => after_script(s, i + 1),
        ReaderStage::Poll { left } => if v & 0x01u8 != 0 {
            after_poll(s)
        } else if left - 1 == 0 {
            done(s, Err(Error::Timeout))
        } else {
            (
                ReaderState { stage: ReaderStage::Poll { left: (left - 1) as u32 }, ..s },
                ReaderRequest::Transfer(read_frame(COM_IRQ_REG)),
            )
        },
        ReaderStage::ReqError => if v & 0x08u8 != 0 {
            done(s, Err(Error::Collision))
        } else {
            (ReaderState { stage: ReaderStage::ReqLevel, ..s }, ReaderRequest::Transfer(read_frame(FIFOLEVEL_REG)))
        },
        ReaderStage::ReqLevel => if v != 2 {
            done(s, Err(Error::NoCard))
        } else {
            (ReaderState { stage: ReaderStage::ReqByte1, ..s }, ReaderRequest::Transfer(read_frame(FIFO_DATA_REG)))
        },
        ReaderStage::ReqByte1 => (
            ReaderState { stage: ReaderStage::ReqByte2 { b1: v }, ..s },
            ReaderRequest::Transfer(read_frame(FIFO_DATA_REG)),
        ),
        ReaderStage::ReqByte2 { b1 } => done(s, Ok(ReaderOutput::Card(card_type(b1, v)))),
        ReaderStage::AcLevel => if v != 5 {
            done(s, Err(Error::Collision))
        } else {
            (
                ReaderState { stage: ReaderStage::AcByte { i: 0 }, ..s },
                ReaderRequest::Transfer(read_frame(FIFO_DATA_REG)),
            )
        },
        ReaderStage::AcByte { i } => {
            let s2 = ReaderState { bytes: s.bytes.push(v), ..s };
            if i + 1 < 5 {
                (
                    ReaderState { stage: ReaderStage::AcByte { i: (i + 1) as usize }, ..s2 },
                    ReaderRequest::Transfer(read_frame(FIFO_DATA_REG)),
                )
            } else {
                done(s2, Ok(ReaderOutput::Uid([s2.bytes[0], s2.bytes[1], s2.bytes[2], s2.bytes[3]])))
            }
        },
        ReaderStage::AuthStatus => if v & 0x08u8 != 0 {
            done(s, Err(Error::Timeout))
        } else {
            done(s, Ok(ReaderOutput::Unit))
        },
        ReaderStage::RdError => if v & 0x08u8 != 0 {
            done(s, Err(Error::Collision))
        } else {
            (ReaderState { stage: ReaderStage::RdLevel, ..s }, ReaderRequest::Transfer(read_frame(FIFOLEVEL_REG)))
        },
        ReaderStage::RdLevel => if v < 18 {
            done(s, Err(Error::NoCard))
        } else {
            (
                ReaderState { stage: ReaderStage::RdByte { i: 0 }, ..s },
                ReaderRequest::Transfer(read_frame(FIFO_DATA_REG)),
            )
        },
        ReaderStage::RdByte { i } => {
            let s2 = ReaderState { bytes: s.bytes.push(v), ..s };
            if i + 1 < 16 {
                (
                    ReaderState { stage: ReaderStage::RdByte { i: (i + 1) as usize }, ..s2 },
                    ReaderRequest::Transfer(read_frame(FIFO_DATA_REG)),
                )
            } else {
                done(s2, Ok(ReaderOutput::Block(block16(s2.bytes))))
            }
        },
        ReaderStage::WrLevel => if v != 1 {
            done(s, Err(Error::Collision))
        } else {
            (ReaderState { stage: ReaderStage::WrControl, ..s }, ReaderRequest::Transfer(read_frame(CONTROL_REG)))
        },
        ReaderStage::WrControl => (
            ReaderState { stage: ReaderStage::WrAck { bits: v & 0x07u8 }, ..s },
            ReaderRequest::Transfer(read_frame(FIFO_DATA_REG)),
        ),
        ReaderStage::WrAck { bits } => if bits == 4 && v & 0x0Fu8 == 0x0A {
            begin_crc(s, ReaderOp::WriteData)
        } else {
            done(s, Err(Error::Collision))
        },
        ReaderStage::WrError => if v & 0x08u8 != 0 {
            done(s, Err(Error::Collision))
        } else {
            done(s, Ok(ReaderOutput::Unit))
        },
        _ => done(s, Err(Error::Timeout)),
    }
}

/// One step of the driver, given the result of its last request. Any error
/// that the bus or the pin reports ends the operation with `Spi` of it.
/// With no operation under way the answer is `Timeout`.
pub open spec fn reader_next<E>(s: ReaderState, reply: Result<[u8; 2], E>) -> (ReaderState, ReaderRequest<E>) {
    match s.stage {
        ReaderStage::Idle => (s, ReaderRequest::Done(Err(Error::Timeout))),
        ReaderStage::RstDelay => (ReaderState { stage: ReaderStage::RstHigh, ..s }, ReaderRequest::RstHigh),
        ReaderStage::RstSettle => after_script(s, 0),
        _ => match reply {
            Err(e) => done(s, Err(Error::Spi(e))),
            Ok(f) => match s.stage {
                ReaderStage::RstLow => (
                    ReaderState { stage: ReaderStage::RstDelay, ..s },
                    ReaderRequest::DelayCycles(RESET_LOW_CYCLES),
                ),
                ReaderStage::RstHigh => (
                    ReaderState { stage: ReaderStage::RstSettle, ..s },
                    ReaderRequest::DelayCycles(RESET_SETTLE_CYCLES),
                ),
                _ => transfer_next(s, f[1]),
            },
        },
    }
}

/// The driver's invariant: a script index lies in the script, a poll count
/// in 1..=`poll_limit`, a byte index counts the bytes kept, and none are
/// kept before the answer bytes are read.
pub open spec fn reader_wf(s: ReaderState) -> bool {
    &&& s.script.len() <= usize::MAX
    &&& match s.stage {
        ReaderStage::Crc => crc_wf(s.crc) && s.crc.data == crc_input(s) && s.bytes.len() == 0,
        ReaderStage::Script { i } => i < s.script.len() && s.bytes.len() == 0,
        ReaderStage::Poll { left } => 1 <= left <= poll_limit(s.kind) && s.bytes.len() == 0,
        ReaderStage::RstLow => s.bytes.len() == 0,
        ReaderStage::RstDelay => s.bytes.len() == 0,
        ReaderStage::RstHigh => s.bytes.len() == 0,
        ReaderStage::RstSettle => s.bytes.len() == 0,
        ReaderStage::AcLevel => s.bytes.len() == 0,
        ReaderStage::RdError => s.bytes.len() == 0,
        ReaderStage::RdLevel => s.bytes.len() == 0,
        ReaderStage::AcByte { i } => i < 5 && s.bytes.len() == i,
        ReaderStage::RdByte { i } => i < 16 && s.bytes.len() == i,
        _ => true,
    }
}

/// `new`: the reset pulse, then the init script; the block, data and CRC
/// computation of `s` are kept.
pub open spec fn new_state(s: ReaderState) -> ReaderState {
    ReaderState {
        kind: ReaderOp::Init,
        stage: ReaderStage::RstLow,
        script: init_script(),
        bytes: Seq::empty(),
        ..s
    }
}

/// Appends writes of `bytes` to the FIFO to `script`.
fn push_fifo(script: &mut Vec<(u8, u8)>, bytes: &[u8])
    ensures
        final(script)@ == old(script)@ + fifo_writes(bytes@),
{
    let ghost start = script@;
    let mut i: usize = 0;
    while i < bytes.len()
        invariant
            i <= bytes@.len(),
            script@ == start + fifo_writes(bytes@.subrange(0, i as int)),
        decreases bytes@.len() - i,
    {
        script.push((FIFO_DATA_REG, bytes[i]));
        i = i + 1;
        assert(script@ =~= start + fifo_writes(bytes@.subrange(0, i as int)));
    }
    assert(bytes@.subrange(0, bytes@.len() as int) =~= bytes@);
}

/// The writes of a block operation's frame: `block_script`.
fn block_writes(command: u8, block: u8, crc: [u8; 2]) -> (v: Vec<(u8, u8)>)
    ensures
        v@ == block_script(command, block, crc),
{
    let mut v: Vec<(u8, u8)> = Vec::new();
    v.push((FIFOLEVEL_REG, 0x80));
    v.push((COMMAND_REG, CMD_IDLE));
    v.push((FIFO_DATA_REG, command));
    v.push((FIFO_DATA_REG, block));
    v.push((FIFO_DATA_REG, crc[0]));
    v.push((FIFO_DATA_REG, crc[1]));
    v.push((COMMAND_REG, CMD_TRANSCEIVE));
    v.push((BIT_FRAMING_REG, 0x80));
    assert(v@ =~= block_script(command, block, crc));
    v
}

/// The writes that send a block's data: `data_script`.
fn data_writes(data: &[u8; 16], crc: [u8; 2]) -> (v: Vec<(u8, u8)>)
    ensures
        v@ == data_script(*data, crc),
{
    let mut v: Vec<(u8, u8)> = Vec::new();
    v.push((COMMAND_REG, CMD_IDLE));
    v.push((FIFOLEVEL_REG, 0x80));
    push_fifo(&mut v, data.as_slice());
    v.push((FIFO_DATA_REG, crc[0]));
    v.push((FIFO_DATA_REG, crc[1]));
    v.push((COMMAND_REG, CMD_TRANSCEIVE));
    v.push((BIT_FRAMING_REG, 0x80));
    assert(fifo_writes(data@ + seq![crc[0], crc[1]]) =~= fifo_writes(data@) + seq![
        (FIFO_DATA_REG, crc[0]),
        (FIFO_DATA_REG, crc[1]),
    ]);
    assert(v@ =~= data_script(*data, crc));
    v
}

/// The bytes of `a`, in a vector.
fn bytes_of(a: &[u8]) -> (v: Vec<u8>)
    ensures
        v@ == a@,
{
    let mut v: Vec<u8> = Vec::new();
    let mut i: usize = 0;
    while i < a.len()
        invariant
            i <= a@.len(),
            v@ == a@.subrange(0, i as int),
        decreases a@.len() - i,
    {
        v.push(a[i]);
        i = i + 1;
        assert(v@ =~= a@.subrange(0, i as int));
    }
    assert(a@.subrange(0, a@.len() as int) =~= a@);
    v
}

/// The first 16 bytes of `b` as a block.
fn block_from(b: &Vec<u8>) -> (a: [u8; 16])
    requires
        b@.len() >= 16,
    ensures
        a == block16(b@),
{
    let mut a = [0u8; 16];
    let mut i: usize = 0;
    while i < 16
        invariant
            i <= 16,
            b@.len() >= 16,
            forall|j: int| 0 <= j < i ==> a@[j] == b@[j],
        decreases 16 - i,
    {
        a[i] = b[i];
        i = i + 1;
    }
    assert(a@ =~= b@.subrange(0, 16));
    let ghost c = block16(b@);
    assert(c@ =~= b@.subrange(0, 16));
    assert(a =~= c);
    a
}

/// The reader: the SPI bus, the reset pin, and the operation under way.
pub struct RC522<SPI, RST> {
    spi: SPI,
    rst: RST,
    kind: ReaderOp,
    stage: ReaderStage,
    script: Vec<(u8, u8)>,
    bytes: Vec<u8>,
    block: u8,
    data: [u8; 16],
    crc: CrcOp,
}

impl<SPI, RST> RC522<SPI, RST> {
    /// The SPI bus.
    pub closed spec fn spi(&self) -> SPI {
        self.spi
    }

    /// The reset pin.
    pub closed spec fn rst(&self) -> RST {
        self.rst
    }

    /// The driver's state.
    pub closed spec fn state(&self) -> ReaderState {
        ReaderState {
            kind: self.kind,
            stage: self.stage,
            script: self.script@,
            bytes: self.bytes@,
            block: self.block,
            data: self.data,
            crc: self.crc.view_state(),
        }
    }

    /// The transfer that writes `value` to `reg`.
    fn write_reg(reg: u8, value: u8) -> (f: [u8; 2])
        ensures
            f == write_frame(reg, value),
    {
        [write_address(reg), value]
    }

    /// The transfer that reads `reg`.
    fn read_reg(reg: u8) -> (f: [u8; 2])
        ensures
            f == read_frame(reg),
    {
        [read_address(reg), 0x00]
    }

    /// The script write that switches the antenna on or off.
    fn set_antenna(on: bool) -> (w: (u8, u8))
        ensures
            w == (TX_CONTROL_REG, if on { 0x03u8 } else { 0x00u8 }),
    {
        let val: u8 = if on { 0x03 } else { 0x00 };
        (TX_CONTROL_REG, val)
    }

    /// A driver on `spi` and `rst`, and the first request of its start-up:
    /// the reset pin low for 10 000 cycles, high for 100 000, then soft
    /// reset, interrupts enabled, divider interrupts disabled, antenna on.
    pub fn new<E>(spi: SPI, rst: RST) -> (r: (Self, ReaderRequest<E>))
        ensures
            r.0.spi() == spi,
            r.0.rst() == rst,
            r.0.state() == new_state(r.0.state()),
            r.1 == ReaderRequest::<E>::RstLow,
            reader_wf(r.0.state()),
    {
        let mut script: Vec<(u8, u8)> = Vec::new();
        script.push((COMMAND_REG, CMD_SOFT_RESET));
        script.push((COM_I_EN_REG, 0x7F));
        script.push((DIV_I_EN_REG, 0x00));
        script.push(Self::set_antenna(true));
        assert(script@ =~= init_script());
        let rc522 = RC522 {
            spi,
            rst,
            kind: ReaderOp::Init,
            stage: ReaderStage::RstLow,
            script,
            bytes: Vec::new(),
            block: 0,
            data: [0u8; 16],
            crc: CrcOp::start(Vec::new()).0,
        };
        (rc522, ReaderRequest::RstLow)
    }

    /// Ends the operation with `out`.
    fn finish<E>(&mut self, out: Result<ReaderOutput, Error<E>>) -> (r: ReaderRequest<E>)
        ensures
            (final(self).state(), r) == done(old(self).state(), out),
            final(self).spi == old(self).spi,
            final(self).rst == old(self).rst,
    {
        self.stage = ReaderStage::Idle;
        ReaderRequest::Done(out)
    }

    /// The step after script write `next - 1`.
    fn after_script<E>(&mut self, next: usize) -> (r: ReaderRequest<E>)
        requires
            next <= old(self).script@.len(),
            old(self).bytes@.len() == 0,
        ensures
            (final(self).state(), r) == after_script::<E>(old(self).state(), next as int),
            reader_wf(final(self).state()),
            final(self).spi == old(self).spi,
            final(self).rst == old(self).rst,
    {
        if next < self.script.len() {
            self.stage = ReaderStage::Script { i: next };
            let (reg, value) = self.script[next];
            ReaderRequest::Transfer(Self::write_reg(reg, value))
        } else {
            match self.kind {
                ReaderOp::Init => self.finish(Ok(ReaderOutput::Unit)),
                ReaderOp::Request | ReaderOp::Anticoll => {
                    self.stage = ReaderStage::Poll { left: SHORT_POLL };
                    ReaderRequest::Transfer(Self::read_reg(COM_IRQ_REG))
                },
                _ => {
                    self.stage = ReaderStage::Poll { left: LONG_POLL };
                    ReaderRequest::Transfer(Self::read_reg(COM_IRQ_REG))
                },
            }
        }
    }

    /// Starts the script `script` of operation `kind`.
    fn begin_script<E>(&mut self, kind: ReaderOp, script: Vec<(u8, u8)>) -> (r: ReaderRequest<E>)
        ensures
            (final(self).state(), r) == begin_script::<E>(old(self).state(), kind, script@),
            reader_wf(final(self).state()),
            final(self).spi == old(self).spi,
            final(self).rst == old(self).rst,
    {
        self.kind = kind;
        self.script = script;
        self.bytes = Vec::new();
        self.after_script(0)
    }

    /// Starts a block operation of kind `kind`: the CRC computation first.
    fn begin_crc<E>(&mut self, kind: ReaderOp) -> (r: ReaderRequest<E>)
        ensures
            (final(self).state(), r) == begin_crc::<E>(old(self).state(), kind),
            reader_wf(final(self).state()),
            final(self).spi == old(self).spi,
            final(self).rst == old(self).rst,
    {
        self.kind = kind;
        self.bytes = Vec::new();
        let mut input: Vec<u8> = Vec::new();
        match kind {
            ReaderOp::WriteData => {
                input = bytes_of(self.data.as_slice());
            },
            ReaderOp::WriteCmd => {
                input.push(PICC_WRITE);
                input.push(self.block);
            },
            _ => {
                input.push(PICC_READ);
                input.push(self.block);
            },
        }
        assert(input@ =~= crc_input(self.state()));
        let (op, _first) = CrcOp::start(input);
        self.crc = op;
        self.stage = ReaderStage::Crc;
        assert(self.script@.len() == self.script.len());
        ReaderRequest::Transfer(Self::write_reg(COMMAND_REG, CMD_IDLE))
    }

    /// One step of the CRC computation, given the byte `v` clocked in.
    fn crc_step<E>(&mut self, v: u8) -> (r: ReaderRequest<E>)
        requires
            reader_wf(old(self).state()),
            old(self).state().stage is Crc,
        ensures
            (final(self).state(), r) == crc_stage_next::<E>(old(self).state(), v),
            reader_wf(final(self).state()),
            final(self).spi == old(self).spi,
            final(self).rst == old(self).rst,
    {
        let st = self.crc.step(Ok(v));
        match st {
            CrcStep::Reg(RegReq::Write { reg, value }) => ReaderRequest::Transfer(Self::write_reg(reg, value)),
            CrcStep::Reg(RegReq::Read { reg }) => ReaderRequest::Transfer(Self::read_reg(reg)),
            CrcStep::Reg(RegReq::DelayMs(_)) => self.finish(Err(Error::CRCError)),
            CrcStep::Finish(Ok(crc)) => {
                let script = match self.kind {
                    ReaderOp::WriteData => data_writes(&self.data, crc),
                    ReaderOp::WriteCmd => block_writes(PICC_WRITE, self.block, crc),
                    _ => block_writes(PICC_READ, self.block, crc),
                };
                let kind = self.kind;
                self.begin_script(kind, script)
            },
            CrcStep::Finish(Err(Rc522Error::Timeout)) => self.finish(Err(Error::Timeout)),
            CrcStep::Finish(Err(_)) => self.finish(Err(Error::CRCError)),
        }
    }

    /// One step of a transfer-driven stage, given the byte `v` clocked in.
    fn transfer_next<E>(&mut self, v: u8) -> (r: ReaderRequest<E>)
        requires
            reader_wf(old(self).state()),
        ensures
            (final(self).state(), r) == transfer_next::<E>(old(self).state(), v),
            reader_wf(final(self).state()),
            final(self).spi == old(self).spi,
            final(self).rst == old(self).rst,
    {
        match self.stage {
            ReaderStage::Crc => self.crc_step(v),
            ReaderStage::Script { i } => self.after_script(i + 1),
            ReaderStage::Poll { left } => {
                if v & 0x01 != 0 {
                    let (stage, reg) = match self.kind {
                        ReaderOp::Request => (ReaderStage::ReqError, ERROR_REG),
                        ReaderOp::Anticoll => (ReaderStage::AcLevel, FIFOLEVEL_REG),
                        ReaderOp::Auth => (ReaderStage::AuthStatus, STATUS_REG),
                        ReaderOp::Read => (ReaderStage::RdError, ERROR_REG),
                        ReaderOp::WriteCmd => (ReaderStage::WrLevel, FIFOLEVEL_REG),
                        _ => (ReaderStage::WrError, ERROR_REG),
                    };
                    self.stage = stage;
                    ReaderRequest::Transfer(Self::read_reg(reg))
                } else if left - 1 == 0 {
                    self.finish(Err(Error::Timeout))
                } else {
                    self.stage = ReaderStage::Poll { left: left - 1 };
                    ReaderRequest::Transfer(Self::read_reg(COM_IRQ_REG))
                }
            },
            ReaderStage::ReqError => {
                if v & 0x08 != 0 {
                    self.finish(Err(Error::Collision))
                } else {
                    self.stage = ReaderStage::ReqLevel;
                    ReaderRequest::Transfer(Self::read_reg(FIFOLEVEL_REG))
                }
            },
            ReaderStage::ReqLevel => {
                if v != 2 {
                    self.finish(Err(Error::NoCard))
                } else {
                    self.stage = ReaderStage::ReqByte1;
                    ReaderRequest::Transfer(Self::read_reg(FIFO_DATA_REG))
                }
            },
            ReaderStage::ReqByte1 => {
                self.stage = ReaderStage::ReqByte2 { b1: v };
                ReaderRequest::Transfer(Self::read_reg(FIFO_DATA_REG))
            },
            ReaderStage::ReqByte2 { b1 } => {
                let card = match (b1, v) {
                    (0x02, 0x00) => CardType::Mifare1K,
                    (0x04, 0x00) => CardType::MifareUltralight,
                    (0x02, 0x04) => CardType::Mifare4K,
                    _ => CardType::Unknown,
                };
                self.finish(Ok(ReaderOutput::Card(card)))
            },
            ReaderStage::AcLevel => {
                if v != 5 {
                    self.finish(Err(Error::Collision))
                } else {
                    self.stage = ReaderStage::AcByte { i: 0 };
                    ReaderRequest::Transfer(Self::read_reg(FIFO_DATA_REG))
                }
            },
            ReaderStage::AcByte { i } => {
                self.bytes.push(v);
                if i + 1 < 5 {
                    self.stage = ReaderStage::AcByte { i: i + 1 };
                    ReaderRequest::Transfer(Self::read_reg(FIFO_DATA_REG))
                } else {
                    let uid = [self.bytes[0], self.bytes[1], self.bytes[2], self.bytes[3]];
                    self.finish(Ok(ReaderOutput::Uid(uid)))
                }
            },
            ReaderStage::AuthStatus => {
                if v & 0x08 != 0 {
                    self.finish(Err(Error::Timeout))
                } else {
                    self.finish(Ok(ReaderOutput::Unit))
                }
            },
            ReaderStage::RdError => {
                if v & 0x08 != 0 {
                    self.finish(Err(Error::Collision))
                } else {
                    self.stage = ReaderStage::RdLevel;
                    ReaderRequest::Transfer(Self::read_reg(FIFOLEVEL_REG))
                }
            },
            ReaderStage::RdLevel => {
                if v < 18 {
                    self.finish(Err(Error::NoCard))
                } else {
                    self.stage = ReaderStage::RdByte { i: 0 };
                    ReaderRequest::Transfer(Self::read_reg(FIFO_DATA_REG))
                }
            },
            ReaderStage::RdByte { i } => {
                self.bytes.push(v);
                if i + 1 < 16 {
                    self.stage = ReaderStage::RdByte { i: i + 1 };
                    ReaderRequest::Transfer(Self::read_reg(FIFO_DATA_REG))
                } else {
                    let block = block_from(&self.bytes);
                    self.finish(Ok(ReaderOutput::Block(block)))
                }
            },
            ReaderStage::WrLevel => {
                if v != 1 {
                    self.finish(Err(Error::Collision))
                } else {
                    self.stage = ReaderStage::WrControl;
                    ReaderRequest::Transfer(Self::read_reg(CONTROL_REG))
                }
            },
            ReaderStage::WrControl => {
                self.stage = ReaderStage::WrAck { bits: v & 0x07 };
                ReaderRequest::Transfer(Self::read_reg(FIFO_DATA_REG))
            },
            ReaderStage::WrAck { bits } => {
                if bits == 4 && v & 0x0F == 0x0A {
                    self.begin_crc(ReaderOp::WriteData)
                } else {
                    self.finish(Err(Error::Collision))
                }
            },
            ReaderStage::WrError => {
                if v & 0x08 != 0 {
                    self.finish(Err(Error::Collision))
                } else {
                    self.finish(Ok(ReaderOutput::Unit))
                }
            },
            _ => self.finish(Err(Error::Timeout)),
        }
    }

    /// Takes the result of the last request and returns the next request.
    pub fn step<E>(&mut self, reply: Result<[u8; 2], E>) -> (r: ReaderRequest<E>)
        requires
            reader_wf(old(self).state()),
        ensures
            (final(self).state(), r) == reader_next(old(self).state(), reply),
            reader_wf(final(self).state()),
            final(self).spi() == old(self).spi(),
            final(self).rst() == old(self).rst(),
    {
        match self.stage {
            ReaderStage::Idle => ReaderRequest::Done(Err(Error::Timeout)),
            ReaderStage::RstDelay => {
                self.stage = ReaderStage::RstHigh;
                ReaderRequest::RstHigh
            },
            ReaderStage::RstSettle => self.after_script(0),
            _ => match reply {
                Err(e) => self.finish(Err(Error::Spi(e))),
                Ok(f) => match self.stage {
                    ReaderStage::RstLow => {
                        self.stage = ReaderStage::RstDelay;
                        ReaderRequest::DelayCycles(RESET_LOW_CYCLES)
                    },
                    ReaderStage::RstHigh => {
                        self.stage = ReaderStage::RstSettle;
                        ReaderRequest::DelayCycles(RESET_SETTLE_CYCLES)
                    },
                    _ => self.transfer_next(f[1]),
                },
            },
        }
    }

    /// Starts a card request; it ends with the kind of card that answered.
    pub fn request<E>(&mut self) -> (r: ReaderRequest<E>)
        ensures
            (final(self).state(), r) == begin_script::<E>(old(self).state(), ReaderOp::Request, request_script()),
            reader_wf(final(self).state()),
            final(self).spi() == old(self).spi(),
            final(self).rst() == old(self).rst(),
    {
        let mut script: Vec<(u8, u8)> = Vec::new();
        script.push((BIT_FRAMING_REG, 0x07));
        script.push((COMMAND_REG, CMD_IDLE));
        script.push((FIFO_DATA_REG, PICC_REQALL));
        script.push((COMMAND_REG, CMD_TRANSCEIVE));
        script.push((BIT_FRAMING_REG, 0x80 | 0x07));
        assert(0x80u8 | 0x07u8 == 0x87u8) by (bit_vector);
        assert(script@ =~= request_script());
        self.begin_script(ReaderOp::Request, script)
    }

    /// Starts anticollision; it ends with the card's UID.
    pub fn anticoll<E>(&mut self) -> (r: ReaderRequest<E>)
        ensures
            (final(self).state(), r) == begin_script::<E>(old(self).state(), ReaderOp::Anticoll, anticoll_script()),
            reader_wf(final(self).state()),
            final(self).spi() == old(self).spi(),
            final(self).rst() == old(self).rst(),
    {
        let mut script: Vec<(u8, u8)> = Vec::new();
        script.push((BIT_FRAMING_REG, 0x00));
        script.push((FIFOLEVEL_REG, 0x80));
        script.push((FIFO_DATA_REG, PICC_ANTICOLL1));
        script.push((FIFO_DATA_REG, 0x20));
        script.push((COMMAND_REG, CMD_TRANSCEIVE));
        script.push((BIT_FRAMING_REG, 0x80));
        assert(script@ =~= anticoll_script());
        self.begin_script(ReaderOp::Anticoll, script)
    }

    /// Starts authenticating `block` of card `uid` with `key`.
    pub fn authenticate<E>(&mut self, block: u8, key_type: KeyType, key: &[u8; 6], uid: &[u8; 4]) -> (r: ReaderRequest<E>)
        ensures
            (final(self).state(), r) == begin_script::<E>(
                old(self).state(),
                ReaderOp::Auth,
                auth_script(block, key_type, *key, *uid),
            ),
            reader_wf(final(self).state()),
            final(self).spi() == old(self).spi(),
            final(self).rst() == old(self).rst(),
    {
        let cmd = match key_type {
            KeyType::KeyA => PICC_AUTHENT1A,
            KeyType::KeyB => PICC_AUTHENT1B,
        };
        let mut script: Vec<(u8, u8)> = Vec::new();
        script.push((FIFOLEVEL_REG, 0x80));
        script.push((FIFO_DATA_REG, cmd));
        script.push((FIFO_DATA_REG, block));
        push_fifo(&mut script, key.as_slice());
        push_fifo(&mut script, uid.as_slice());
        script.push((COMMAND_REG, CMD_AUTHENT));
        script.push((BIT_FRAMING_REG, 0x00));
        assert(script@ =~= auth_script(block, key_type, *key, *uid));
        self.begin_script(ReaderOp::Auth, script)
    }

    /// Starts reading `block`; it ends with its 16 bytes. The chip first
    /// computes the CRC_A of the READ command and the block, which the
    /// frame carries.
    pub fn read<E>(&mut self, block: u8) -> (r: ReaderRequest<E>)
        ensures
            (final(self).state(), r) == begin_crc::<E>(ReaderState { block, ..old(self).state() }, ReaderOp::Read),
            reader_wf(final(self).state()),
            final(self).spi() == old(self).spi(),
            final(self).rst() == old(self).rst(),
    {
        self.block = block;
        self.begin_crc(ReaderOp::Read)
    }

    /// Starts writing `data` to `block`. The WRITE command and the data
    /// each carry the CRC_A that the chip computes for them.
    pub fn write<E>(&mut self, block: u8, data: &[u8; 16]) -> (r: ReaderRequest<E>)
        ensures
            (final(self).state(), r) == begin_crc::<E>(
                ReaderState { block, data: *data, ..old(self).state() },
                ReaderOp::WriteCmd,
            ),
            reader_wf(final(self).state()),
            final(self).spi() == old(self).spi(),
            final(self).rst() == old(self).rst(),
    {
        self.block = block;
        self.data = *data;
        self.begin_crc(ReaderOp::WriteCmd)
    }

    /// Whether an operation is under way.
    pub fn is_busy(&self) -> (b: bool)
        ensures
            b == !(self.state().stage is Idle),
    {
        match self.stage {
            ReaderStage::Idle => false,
            _ => true,
        }
    }

    /// The SPI bus, to perform the requested transfers on.
    pub fn spi_mut(&mut self) -> (r: &mut SPI)
        ensures
            *r == old(self).spi(),
            final(self).spi() == *final(r),
            final(self).rst() == old(self).rst(),
            final(self).state() == old(self).state(),
    {
        &mut self.spi
    }

    /// The reset pin, to drive as requested.
    pub fn rst_mut(&mut self) -> (r: &mut RST)
        ensures
            *r == old(self).rst(),
            final(self).rst() == *final(r),
            final(self).spi() == old(self).spi(),
            final(self).state() == old(self).state(),
    {
        &mut self.rst
    }
}

/// A transfer's first byte is the register shifted left by one, bit 0
/// clear: a write leaves bit 7 clear, a read sets it. Writing 0x07 to the
/// bit framing register is the transfer `[0x1A, 0x07]`, and reading the
/// interrupt register is `[0x88, 0x00]`.
pub proof fn law_transfer_direction(reg: u8, value: u8)
    requires
        reg < 64,
    ensures
        write_frame(reg, value)[0] == 2 * reg,
        write_frame(reg, value)[1] == value,
        read_frame(reg)[0] == 2 * reg + 0x80,
        read_frame(reg)[1] == 0,
        write_frame(BIT_FRAMING_REG, 0x07)[0] == 0x1A,
        read_frame(COM_IRQ_REG)[0] == 0x88,
{
}

/// A block operation's frame carries the CRC_A that the chip computed over
/// the card command and block (or over the 16 data bytes): when the
/// computation ends with `crc`, the script that follows puts them into the
/// FIFO followed by `crc`, low byte first.
pub proof fn law_block_frame_carries_crc<E>(s: ReaderState, v: u8, crc: [u8; 2])
    requires
        reader_wf(s),
        s.stage is Crc,
        crc_next(s.crc, Ok(v)).1 == CrcStep::Finish(Ok(crc)),
    ensures
        s.crc.data == crc_input(s),
        transfer_next::<E>(s, v).0.script == crc_script(s, crc),
        s.kind is Read ==> crc_script(s, crc).subrange(2, 6) == fifo_writes(
            seq![PICC_READ, s.block, crc[0], crc[1]],
        ),
        s.kind is WriteCmd ==> crc_script(s, crc).subrange(2, 6) == fifo_writes(
            seq![PICC_WRITE, s.block, crc[0], crc[1]],
        ),
        s.kind is WriteData ==> crc_script(s, crc).subrange(2, 20) == fifo_writes(
            s.data@ + seq![crc[0], crc[1]],
        ),
{
    let w = seq![(FIFOLEVEL_REG, 0x80u8), (COMMAND_REG, CMD_IDLE)];
    let t = seq![(COMMAND_REG, CMD_TRANSCEIVE), (BIT_FRAMING_REG, 0x80u8)];
    assert((w + fifo_writes(seq![PICC_READ, s.block, crc[0], crc[1]]) + t).subrange(2, 6)
        =~= fifo_writes(seq![PICC_READ, s.block, crc[0], crc[1]]));
    assert((w + fifo_writes(seq![PICC_WRITE, s.block, crc[0], crc[1]]) + t).subrange(2, 6)
        =~= fifo_writes(seq![PICC_WRITE, s.block, crc[0], crc[1]]));
    let d = seq![(COMMAND_REG, CMD_IDLE), (FIFOLEVEL_REG, 0x80u8)];
    assert((d + fifo_writes(s.data@ + seq![crc[0], crc[1]]) + t).subrange(2, 20)
        =~= fifo_writes(s.data@ + seq![crc[0], crc[1]]));
}

/// After the WRITE command the card's answer is taken only with four valid
/// bits (the control register's low three bits) and low nibble 0x0A: then
/// the data's CRC computation starts, else the write ends with `Collision`.
pub proof fn law_write_ack<E>(s: ReaderState, control: u8, ack: u8)
    requires
        reader_wf(s),
        s.stage is WrControl,
    ensures
        transfer_next::<E>(s, control).1 == ReaderRequest::<E>::Transfer(read_frame(FIFO_DATA_REG)),
        (control & 0x07u8 == 4 && ack & 0x0Fu8 == 0x0A) ==> {
            let (s3, r3) = transfer_next::<E>(transfer_next::<E>(s, control).0, ack);
            &&& s3.stage is Crc
            &&& s3.kind is WriteData
            &&& s3.crc.data == s.data@
            &&& r3 == ReaderRequest::<E>::Transfer(write_frame(COMMAND_REG, CMD_IDLE))
        },
        !(control & 0x07u8 == 4 && ack & 0x0Fu8 == 0x0A) ==> transfer_next::<E>(
            transfer_next::<E>(s, control).0,
            ack,
        ).1 == ReaderRequest::<E>::Done(Err(Error::Collision)),
{
}

/// The interrupt poll of an operation gives up after `poll_limit` reads:
/// a read without the interrupt and with none left ends it with `Timeout`.
pub proof fn law_poll_bounded<E>(s: ReaderState, v: u8)
    requires
        reader_wf(s),
        s.stage == (ReaderStage::Poll { left: 1 }),
        v & 0x01u8 == 0,
    ensures
        transfer_next::<E>(s, v).1 == ReaderRequest::<E>::Done(Err(Error::Timeout)),
{
}

/// The driver fed the replies `rs` in turn: the state it reaches and the
/// request it makes after each reply.
pub open spec fn reader_run<E>(s: ReaderState, rs: Seq<Result<[u8; 2], E>>) -> (ReaderState, Seq<ReaderRequest<E>>)
    decreases rs.len(),
{
    if rs.len() == 0 {
        (s, Seq::empty())
    } else {
        let (s1, r) = reader_next(s, rs[0]);
        let (s2, rest) = reader_run(s1, rs.drop_first());
        (s2, seq![r] + rest)
    }
}

/// Each byte of `vs` as the second byte that a transfer clocked in.
pub open spec fn clocked_in<E>(vs: Seq<u8>) -> Seq<Result<[u8; 2], E>> {
    vs.map_values(|v: u8| Ok::<[u8; 2], E>([0u8, v]))
}

proof fn lemma_clocked_in_split<E>(vs: Seq<u8>)
    requires
        vs.len() > 0,
    ensures
        clocked_in::<E>(vs)[0] == Ok::<[u8; 2], E>([0u8, vs[0]]),
        clocked_in::<E>(vs).drop_first() == clocked_in::<E>(vs.drop_first()),
{
    assert(clocked_in::<E>(vs).drop_first() =~= clocked_in::<E>(vs.drop_first()));
}

/// The interrupt poll gives up after exactly the reads it has left: when no
/// read of the interrupt register shows bit 0, the driver reads it `left`
/// times and then ends the operation with `Timeout`. An operation enters
/// the poll with `poll_limit` reads left (1000 for `request` and
/// `anticoll`, 5000 for the others).
pub proof fn law_reader_poll_runs_out<E>(s: ReaderState, vs: Seq<u8>)
    requires
        reader_wf(s),
        s.stage matches ReaderStage::Poll { left } && vs.len() == left,
        forall|i: int| 0 <= i < vs.len() ==> #[trigger] (vs[i] & 0x01u8) == 0,
    ensures
        reader_run(s, clocked_in::<E>(vs)).1 == Seq::new(
            (vs.len() - 1) as nat,
            |i: int| ReaderRequest::<E>::Transfer(read_frame(COM_IRQ_REG)),
        ).push(ReaderRequest::<E>::Done(Err(Error::Timeout))),
        reader_run(s, clocked_in::<E>(vs)).0.stage is Idle,
    decreases vs.len(),
{
    lemma_clocked_in_split::<E>(vs);
    assert(vs[0] & 0x01u8 == 0);
    let (s1, r) = reader_next(s, Ok::<[u8; 2], E>([0u8, vs[0]]));
    let rest = vs.drop_first();
    let f = |i: int| ReaderRequest::<E>::Transfer(read_frame(COM_IRQ_REG));
    if vs.len() == 1 {
        assert(clocked_in::<E>(rest) =~= Seq::<Result<[u8; 2], E>>::empty());
        assert(reader_run(s1, clocked_in::<E>(rest)).1 =~= Seq::<ReaderRequest<E>>::empty());
        assert(reader_run(s, clocked_in::<E>(vs)).1 =~= seq![r]);
        assert(Seq::new(0, f).push(ReaderRequest::<E>::Done(Err(Error::Timeout))) =~= seq![r]);
    } else {
        assert forall|i: int| 0 <= i < rest.len() implies #[trigger] (rest[i] & 0x01u8) == 0 by {
            assert(vs[i + 1] & 0x01u8 == 0);
        }
        law_reader_poll_runs_out::<E>(s1, rest);
        assert(reader_run(s, clocked_in::<E>(vs)).1 =~= seq![r] + reader_run(s1, clocked_in::<E>(rest)).1);
        assert(seq![r] + Seq::new((rest.len() - 1) as nat, f).push(ReaderRequest::<E>::Done(Err(Error::Timeout)))
            =~= Seq::new((vs.len() - 1) as nat, f).push(ReaderRequest::<E>::Done(Err(Error::Timeout))));
    }
}

/// Once the interrupt came, `request` reads the error register, the FIFO
/// level and the two answer bytes, and names the card by them: with no
/// collision bit and exactly two bytes, the operation ends with
/// `card_type` of the answer.
pub proof fn law_request_names_card<E>(s: ReaderState, err: u8, b1: u8, b2: u8)
    requires
        reader_wf(s),
        s.stage is ReqError,
        err & 0x08u8 == 0,
    ensures
        reader_run(s, clocked_in::<E>(seq![err, 2u8, b1, b2])).1 == seq![
            ReaderRequest::<E>::Transfer(read_frame(FIFOLEVEL_REG)),
            ReaderRequest::<E>::Transfer(read_frame(FIFO_DATA_REG)),
            ReaderRequest::<E>::Transfer(read_frame(FIFO_DATA_REG)),
            ReaderRequest::<E>::Done(Ok(ReaderOutput::Card(card_type(b1, b2)))),
        ],
{
    let vs = seq![err, 2u8, b1, b2];
    let c0 = clocked_in::<E>(vs);
    lemma_clocked_in_split::<E>(vs);
    let v1 = vs.drop_first();
    lemma_clocked_in_split::<E>(v1);
    let v2 = v1.drop_first();
    lemma_clocked_in_split::<E>(v2);
    let v3 = v2.drop_first();
    lemma_clocked_in_split::<E>(v3);
    let v4 = v3.drop_first();
    assert(v4 =~= Seq::<u8>::empty());
    assert(clocked_in::<E>(v4) =~= Seq::<Result<[u8; 2], E>>::empty());
    let q0 = reader_next(s, c0[0]);
    let q1 = reader_next(q0.0, clocked_in::<E>(v1)[0]);
    let q2 = reader_next(q1.0, clocked_in::<E>(v2)[0]);
    let q3 = reader_next(q2.0, clocked_in::<E>(v3)[0]);
    assert(reader_run(q3.0, clocked_in::<E>(v4)).1 =~= Seq::<ReaderRequest<E>>::empty());
    assert(reader_run(q2.0, clocked_in::<E>(v3)).1 =~= seq![q3.1]);
    assert(reader_run(q1.0, clocked_in::<E>(v2)).1 =~= seq![q2.1, q3.1]);
    assert(reader_run(q0.0, clocked_in::<E>(v1)).1 =~= seq![q1.1, q2.1, q3.1]);
    assert(reader_run(s, c0).1 =~= seq![q0.1, q1.1, q2.1, q3.1]);
}

} // verus!
