//! RC522 RFID reader on SPI with a chip-select pin: the ISO14443A steps of
//! reading a card (request, anticollision, select), MIFARE Classic
//! authentication, and block reads and writes.
//!
//! Every operation is a step machine. It asks for one bus action at a time
//! (chip select low or high, an SPI write or transfer of two bytes, a delay)
//! and takes its result, until it ends with an outcome.

use vstd::prelude::*;
use crate::drivers::rc522_link::{
    CMD_IDLE, CMD_MF_AUTHENT, CMD_TRANSCEIVE, REG_BIT_FRAMING, REG_COMMAND, REG_STATUS2,
    CommOp, CommPhase, CommReply, CommReplyView, CommState, CommStep, CommStepView, CrcOp,
    CrcPhase, CrcState, CrcStep, RegOutcome, RegReq, comm_first, comm_next, comm_wf, crc_first,
    crc_next, crc_wf, read_addr, read_address, write_addr, write_address, comm_run, crc_run,
    comm_ends, crc_ends, lemma_comm_run_len, lemma_crc_run_len,
};
pub use crate::drivers::rc522_link::Rc522Error;

verus! {

/// Mode register.
pub const REG_MODE: u8 = 0x11;
/// Transmit mode register.
pub const REG_TX_MODE: u8 = 0x12;
/// Receive mode register.
pub const REG_RX_MODE: u8 = 0x13;
/// Antenna driver control register.
pub const REG_TX_CONTROL: u8 = 0x14;
/// Timer mode register.
pub const REG_T_MODE: u8 = 0x2A;
/// Timer prescaler register.
pub const REG_T_PRESCALER: u8 = 0x2B;
/// Timer reload, high byte.
pub const REG_T_RELOAD_H: u8 = 0x2C;
/// Timer reload, low byte.
pub const REG_T_RELOAD_L: u8 = 0x2D;
/// Chip version register.
pub const REG_VERSION: u8 = 0x37;
/// Command: soft reset.
pub const CMD_SOFT_RESET: u8 = 0x0F;
/// Card command: request (REQA, 7-bit frame).
pub const PICC_REQA: u8 = 0x26;
/// Card command: anticollision, cascade level 1.
pub const PICC_ANTICOLL_CL1: u8 = 0x93;
/// Card command: select, cascade level 1.
pub const PICC_SELECT_CL1: u8 = 0x93;
/// Card command: authenticate with key A.
pub const PICC_AUTH_KEY_A: u8 = 0x60;
/// Card command: authenticate with key B.
pub const PICC_AUTH_KEY_B: u8 = 0x61;
/// Card command: read a block.
pub const PICC_READ: u8 = 0x30;
/// Card command: write a block.
pub const PICC_WRITE: u8 = 0xA0;
/// Card command: halt.
pub const PICC_HALT: u8 = 0x50;
/// Settling time after the soft reset.
pub const RESET_DELAY_MS: u32 = 50;
/// Number of register writes that set the chip up after the reset.
pub const SETUP_WRITES: usize = 7;

/// Which MIFARE Classic key an authentication uses.
#[derive(Debug, Clone, Copy, PartialEq, Eq)]
pub enum MifareKeyType {
    A,
    B,
}

/// What an operation gives back when it ends well.
#[derive(Debug, Clone, Copy, PartialEq, Eq)]
pub enum Rc522Output {
    /// Nothing: `init`, `authenticate`, `stop_crypto`, `write_block`, `halt`.
    Unit,
    /// `version`: the version register.
    Version(u8),
    /// `request_a`: the card's answer to request (ATQA).
    Atqa([u8; 2]),
    /// `anticollision_cl1`: the card's 4-byte UID.
    Uid([u8; 4]),
    /// `select_cl1`: the card's select acknowledge (SAK).
    Sak(u8),
    /// `read_block`: the block's 16 bytes.
    Block([u8; 16]),
}

/// The outcome of an operation.
pub type Rc522Outcome = Result<Rc522Output, Rc522Error>;

/// What the driver asks for next, or the outcome of its operation.
///
/// After each request the firmware hands back `Some` of the two bytes that a
/// `Transfer` clocked in (any two bytes after another action that
/// succeeded), or `None` when the pin or the bus reported an error.
#[derive(Debug, Clone, Copy, PartialEq, Eq)]
pub enum Rc522Request {
    /// Drive chip select low.
    CsLow,
    /// Drive chip select high.
    CsHigh,
    /// Write these two bytes on SPI.
    Write([u8; 2]),
    /// Transfer these two bytes on SPI, reading two back.
    Transfer([u8; 2]),
    /// Wait this many milliseconds.
    DelayMs(u32),
    /// The operation is over.
    Done(Rc522Outcome),
}

/// Where an operation stands above the register accesses.
#[derive(Debug, Clone, Copy, PartialEq, Eq)]
pub enum Stage {
    /// No operation under way.
    Idle,
    /// `init`: soft reset command written.
    Reset,
    /// `init`: settling after the reset.
    ResetDelay,
    /// `init`: setup write `k` done.
    Setup { k: usize },
    /// `init`: antenna control read.
    AntennaRead,
    /// `init`: antenna control read again to set the driver bits.
    AntennaSetRead,
    /// `init`: antenna control written with the driver bits.
    AntennaSetWrite,
    /// `version`: version register read.
    VersionRead,
    /// `request_a`: 7-bit framing set.
    ReqAFraming,
    /// `request_a`: exchange under way.
    ReqAComm,
    /// `anticollision_cl1`: byte framing set.
    AnticollFraming,
    /// `anticollision_cl1`: exchange under way.
    AnticollComm,
    /// `select_cl1`: CRC of the select frame under way.
    SelectCrc { uid: [u8; 4] },
    /// `select_cl1`: exchange under way.
    SelectComm,
    /// `authenticate`: authentication exchange under way.
    AuthComm,
    /// `authenticate`: status register read.
    AuthStatus,
    /// `stop_crypto`: status register read.
    StopCryptoRead,
    /// `stop_crypto`: status register written without the crypto bit.
    StopCryptoWrite,
    /// `read_block`: CRC of the read command under way.
    ReadCrc { addr: u8 },
    /// `read_block`: exchange under way.
    ReadComm,
    /// `write_block`: CRC of the write command under way.
    WriteCmdCrc { addr: u8, data: [u8; 16] },
    /// `write_block`: write command exchange under way.
    WriteCmdComm { data: [u8; 16] },
    /// `write_block`: CRC of the data under way; `ack` is the buffer byte.
    WriteDataCrc { data: [u8; 16], ack: u8 },
    /// `write_block`: data exchange under way.
    WriteDataComm,
    /// `halt`: CRC of the halt command under way.
    HaltCrc,
    /// `halt`: exchange under way.
    HaltComm,
}

/// Where the register access under way stands.
#[derive(Debug, Clone, Copy, PartialEq, Eq)]
pub enum Access {
    /// None.
    Idle,
    /// Chip select driven low for this access.
    Lowering(RegReq),
    /// The two bytes of this access on the bus.
    Moving(RegReq),
    /// Chip select driven high; the access came to this.
    Raising(RegOutcome),
    /// A delay under way.
    Delaying,
}

/// What an operation asks of the register layer next, or its outcome.
#[derive(Debug, Clone, Copy, PartialEq, Eq)]
pub enum OpStep {
    Reg(RegReq),
    Finish(Rc522Outcome),
}

/// An operation's state above the register accesses.
pub struct OpState {
    pub stage: Stage,
    pub crc: CrcState,
    pub comm: CommState,
}

/// The driver's state.
pub struct Rc522State {
    pub op: OpState,
    pub access: Access,
}

/// `n` zero bytes.
pub open spec fn zeros(n: nat) -> Seq<u8> {
    Seq::new(n, |i: int| 0u8)
}

/// The block check character of a UID: the XOR of its bytes.
pub open spec fn bcc(b: Seq<u8>) -> u8 {
    b[0] ^ b[1] ^ b[2] ^ b[3]
}

/// The first 16 bytes of `b` as a block.
pub open spec fn block_of(b: Seq<u8>) -> [u8; 16] {
    choose|a: [u8; 16]| a@ =~= b.subrange(0, 16)
}

/// The select frame before its CRC: command, NVB 0x70, UID, BCC.
pub open spec fn select_head(uid: [u8; 4]) -> Seq<u8> {
    seq![PICC_SELECT_CL1, 0x70u8, uid[0], uid[1], uid[2], uid[3], bcc(uid@)]
}

/// The card command of a key type.
pub open spec fn auth_command(key_type: MifareKeyType) -> u8 {
    match key_type {
        MifareKeyType::A => PICC_AUTH_KEY_A,
        MifareKeyType::B => PICC_AUTH_KEY_B,
    }
}

/// The authentication packet: command, block, key, UID.
pub open spec fn auth_packet(key_type: MifareKeyType, block_addr: u8, key: [u8; 6], uid: [u8; 4]) -> Seq<u8> {
    seq![auth_command(key_type), block_addr] + key@ + uid@
}

/// Setup write `k` after the reset: the timer (auto start, about 25 ms),
/// transmit and receive modes, and the CRC preset.
pub open spec fn setup_write(k: int) -> RegReq {
    if k == 0 {
        RegReq::Write { reg: REG_T_MODE, value: 0x8D }
    } else if k == 1 {
        RegReq::Write { reg: REG_T_PRESCALER, value: 0x3E }
    } else if k == 2 {
        RegReq::Write { reg: REG_T_RELOAD_L, value: 30 }
    } else if k == 3 {
        RegReq::Write { reg: REG_T_RELOAD_H, value: 0 }
    } else if k == 4 {
        RegReq::Write { reg: REG_TX_MODE, value: 0x00 }
    } else if k == 5 {
        RegReq::Write { reg: REG_RX_MODE, value: 0x00 }
    } else {
        RegReq::Write { reg: REG_MODE, value: 0x3D }
    }
}

/// Whether the stage runs a CRC computation.
pub open spec fn is_crc_stage(stage: Stage) -> bool {
    ||| stage is SelectCrc
    ||| stage is ReadCrc
    ||| stage is WriteCmdCrc
    ||| stage is WriteDataCrc
    ||| stage is HaltCrc
}

/// Whether the stage runs an exchange with the card.
pub open spec fn is_comm_stage(stage: Stage) -> bool {
    ||| stage is ReqAComm
    ||| stage is AnticollComm
    ||| stage is SelectComm
    ||| stage is AuthComm
    ||| stage is ReadComm
    ||| stage is WriteCmdComm
    ||| stage is WriteDataComm
    ||| stage is HaltComm
}

/// The size of the answer buffer that the stage's exchange uses.
pub open spec fn comm_back_len(stage: Stage) -> nat {
    match stage {
        Stage::ReqAComm => 16,
        Stage::AnticollComm => 16,
        Stage::SelectComm => 3,
        Stage::AuthComm => 0,
        Stage::ReadComm => 18,
        _ => 1,
    }
}

/// The invariant of an operation: the CRC computation and the exchange keep
/// theirs, an exchange's buffer has its stage's size, a setup index is in
/// the table.
pub open spec fn op_wf(s: OpState) -> bool {
    &&& crc_wf(s.crc)
    &&& comm_wf(s.comm)
    &&& is_comm_stage(s.stage) ==> s.comm.back.len() == comm_back_len(s.stage)
    &&& s.stage matches Stage::Setup { k } ==> k < SETUP_WRITES
}

/// The driver's invariant: the operation's, and a register access is under
/// way exactly when an operation is.
pub open spec fn rc522_wf(s: Rc522State) -> bool {
    &&& op_wf(s.op)
    &&& (s.access is Idle <==> s.op.stage is Idle)
}

/// Ends the operation with `out`.
pub open spec fn finish(s: OpState, out: Rc522Outcome) -> (OpState, OpStep) {
    (OpState { stage: Stage::Idle, ..s }, OpStep::Finish(out))
}

/// Starts a CRC computation over `data` in `stage`.
pub open spec fn begin_crc(s: OpState, stage: Stage, data: Seq<u8>) -> (OpState, OpStep) {
    (
        OpState { stage, crc: CrcState { data, phase: CrcPhase::Stop }, ..s },
        OpStep::Reg(crc_first()),
    )
}

/// Starts an exchange of `command` in `stage`, sending `send` and answering
/// into `back`.
pub open spec fn begin_comm(s: OpState, stage: Stage, command: u8, send: Seq<u8>, back: Seq<u8>) -> (OpState, OpStep) {
    (
        OpState { stage, comm: CommState { command, send, back, phase: CommPhase::EnableIrq }, ..s },
        OpStep::Reg(comm_first(command)),
    )
}

/// What follows a CRC computation that gave `c`: the frame with the CRC
/// appended goes to the card.
pub open spec fn after_crc(s: OpState, c: [u8; 2]) -> (OpState, OpStep) {
    match s.stage {
        Stage::SelectCrc { uid } => begin_comm(
            s,
            Stage::SelectComm,
            CMD_TRANSCEIVE,
            select_head(uid) + seq![c[0], c[1]],
            zeros(3),
        ),
        Stage::ReadCrc { addr } => begin_comm(
            s,
            Stage::ReadComm,
            CMD_TRANSCEIVE,
            seq![PICC_READ, addr, c[0], c[1]],
            zeros(18),
        ),
        Stage::WriteCmdCrc { addr, data } => begin_comm(
            s,
            Stage::WriteCmdComm { data },
            CMD_TRANSCEIVE,
            seq![PICC_WRITE, addr, c[0], c[1]],
            zeros(1),
        ),
        Stage::WriteDataCrc { data, ack } => begin_comm(
            s,
            Stage::WriteDataComm,
            CMD_TRANSCEIVE,
            data@ + seq![c[0], c[1]],
            seq![ack],
        ),
        Stage::HaltCrc => begin_comm(
            s,
            Stage::HaltComm,
            CMD_TRANSCEIVE,
            seq![PICC_HALT, 0u8, c[0], c[1]],
            zeros(1),
        ),
        _ => finish(s, Err(Rc522Error::Protocol)),
    }
}

/// Whether a write answer is the card's ACK: four valid bits, low nibble 0xA.
pub open spec fn ack_ok(r: CommReplyView) -> bool {
    r.valid_bits == 4 && r.back[0] & 0x0Fu8 == 0x0Au8
}

/// What follows an exchange that answered `r`.
///
/// `request_a` wants exactly two bytes of eight bits (the ATQA);
/// `anticollision_cl1` five bytes whose last is the XOR of the UID (a wrong
/// length is `Protocol`, a wrong check byte `Crc`); `select_cl1` exactly one
/// byte of eight bits (the SAK); `read_block` exactly 16 bytes of eight bits;
/// `write_block` the ACK after the command and after the data; `halt` takes
/// any answer. `authenticate` goes on to read the status register.
pub open spec fn after_comm(s: OpState, r: CommReplyView) -> (OpState, OpStep) {
    match s.stage {
        Stage::ReqAComm => finish(
            s,
            if r.len == 2 && r.valid_bits == 0 {
                Ok(Rc522Output::Atqa([r.back[0], r.back[1]]))
            } else {
                Err(Rc522Error::Protocol)
            },
        ),
        Stage::AnticollComm => finish(
            s,
            if r.len != 5 {
                Err(Rc522Error::Protocol)
            } else if bcc(r.back) != r.back[4] {
                Err(Rc522Error::Crc)
            } else {
                Ok(Rc522Output::Uid([r.back[0], r.back[1], r.back[2], r.back[3]]))
            },
        ),
        Stage::SelectComm => finish(
            s,
            if r.len == 1 && r.valid_bits == 0 {
                Ok(Rc522Output::Sak(r.back[0]))
            } else {
                Err(Rc522Error::Protocol)
            },
        ),
        Stage::AuthComm => (
            OpState { stage: Stage::AuthStatus, ..s },
            OpStep::Reg(RegReq::Read { reg: REG_STATUS2 }),
        ),
        Stage::ReadComm => finish(
            s,
            if r.len == 16 && r.valid_bits == 0 {
                Ok(Rc522Output::Block(block_of(r.back)))
            } else {
                Err(Rc522Error::Protocol)
            },
        ),
        Stage::WriteCmdComm { data } => if ack_ok(r) {
            begin_crc(s, Stage::WriteDataCrc { data, ack: r.back[0] }, data@)
        } else {
            finish(s, Err(Rc522Error::Protocol))
        },
        Stage::WriteDataComm => finish(
            s,
            if ack_ok(r) {
                Ok(Rc522Output::Unit)
            } else {
                Err(Rc522Error::Protocol)
            },
        ),
        Stage::HaltComm => finish(s, Ok(Rc522Output::Unit)),
        _ => finish(s, Err(Rc522Error::Protocol)),
    }
}

/// What a CRC stage does once its computation ended with `res`: a failed
/// computation fails the operation.
pub open spec fn crc_finish(s: OpState, res: Result<[u8; 2], Rc522Error>) -> (OpState, OpStep) {
    match res {
        Err(e) => finish(s, Err(e)),
        Ok(v) => after_crc(s, v),
    }
}

/// A step of a stage that runs a CRC computation.
pub open spec fn crc_stage_next(s: OpState, o: RegOutcome) -> (OpState, OpStep) {
    let (c, st) = crc_next(s.crc, o);
    let s2 = OpState { crc: c, ..s };
    match st {
        CrcStep::Reg(r) => (s2, OpStep::Reg(r)),
        CrcStep::Finish(res) => crc_finish(s2, res),
    }
}

/// What an exchange stage does once its exchange ended with `res`. A failed
/// exchange fails the operation, but for `halt`, which ends well whatever
/// the card does.
pub open spec fn comm_finish(s: OpState, res: Result<CommReplyView, Rc522Error>) -> (OpState, OpStep) {
    match res {
        Err(e) => finish(
            s,
            if s.stage is HaltComm {
                Ok(Rc522Output::Unit)
            } else {
                Err(e)
            },
        ),
        Ok(r) => after_comm(s, r),
    }
}

/// A step of a stage that runs an exchange.
pub open spec fn comm_stage_next(s: OpState, o: RegOutcome) -> (OpState, OpStep) {
    let (c, st) = comm_next(s.comm, o);
    let s2 = OpState { comm: c, ..s };
    match st {
        CommStepView::Reg(r) => (s2, OpStep::Reg(r)),
        CommStepView::Finish(res) => comm_finish(s2, res),
    }
}

/// A step of a stage that reads or writes a register itself.
///
/// `init`: after the reset, 50 ms of settling, the setup writes, then the
/// antenna control; when its two driver bits are not both set, it is read
/// again and written back with them. `authenticate` fails with
/// `Authentication` when the status register's crypto bit is clear;
/// `stop_crypto` clears that bit.
pub open spec fn direct_next(s: OpState, o: RegOutcome) -> (OpState, OpStep) {
    match o {
        Err(e) => finish(s, Err(e)),
        Ok(v) => match s.stage {
            Stage::Reset => (
                OpState { stage: Stage::ResetDelay, ..s },
                OpStep::Reg(RegReq::DelayMs(RESET_DELAY_MS)),
            ),
            Stage::ResetDelay => (OpState { stage: Stage::Setup { k: 0 }, ..s }, OpStep::Reg(setup_write(0))),
            Stage::Setup { k } => if k + 1 < SETUP_WRITES {
                (
                    OpState { stage: Stage::Setup { k: (k + 1) as usize }, ..s },
                    OpStep::Reg(setup_write(k + 1)),
                )
            } else {
                (
                    OpState { stage: Stage::AntennaRead, ..s },
                    OpStep::Reg(RegReq::Read { reg: REG_TX_CONTROL }),
                )
            },
            Stage::AntennaRead => if v & 0x03u8 != 0x03u8 {
                (
                    OpState { stage: Stage::AntennaSetRead, ..s },
                    OpStep::Reg(RegReq::Read { reg: REG_TX_CONTROL }),
                )
            } else {
                finish(s, Ok(Rc522Output::Unit))
            },
            Stage::AntennaSetRead => (
                OpState { stage: Stage::AntennaSetWrite, ..s },
                OpStep::Reg(RegReq::Write { reg: REG_TX_CONTROL, value: v | 0x03u8 }),
            ),
            Stage::AntennaSetWrite => finish(s, Ok(Rc522Output::Unit)),
            Stage::VersionRead => finish(s, Ok(Rc522Output::Version(v))),
            Stage::ReqAFraming => begin_comm(
                s,
                Stage::ReqAComm,
                CMD_TRANSCEIVE,
                seq![PICC_REQA],
                zeros(16),
            ),
            Stage::AnticollFraming => begin_comm(
                s,
                Stage::AnticollComm,
                CMD_TRANSCEIVE,
                seq![PICC_ANTICOLL_CL1, 0x20u8],
                zeros(16),
            ),
            Stage::AuthStatus => finish(
                s,
                if v & 0x08u8 == 0 {
                    Err(Rc522Error::Authentication)
                } else {
                    Ok(Rc522Output::Unit)
                },
            ),
            Stage::StopCryptoRead => (
                OpState { stage: Stage::StopCryptoWrite, ..s },
                OpStep::Reg(RegReq::Write { reg: REG_STATUS2, value: v & !0x08u8 }),
            ),
            Stage::StopCryptoWrite => finish(s, Ok(Rc522Output::Unit)),
            _ => finish(s, Err(Rc522Error::Protocol)),
        },
    }
}

/// One step of an operation, given the outcome of its last register access.
pub open spec fn op_next(s: OpState, o: RegOutcome) -> (OpState, OpStep) {
    if is_crc_stage(s.stage) {
        crc_stage_next(s, o)
    } else if is_comm_stage(s.stage) {
        comm_stage_next(s, o)
    } else {
        direct_next(s, o)
    }
}

/// The bus action that carries a register access: the address byte and the
/// value for a write, the address byte and a dummy byte for a read.
pub open spec fn frame_of(req: RegReq) -> Rc522Request {
    match req {
        RegReq::Write { reg, value } => Rc522Request::Write([write_addr(reg), value]),
        RegReq::Read { reg } => Rc522Request::Transfer([read_addr(reg), 0u8]),
        RegReq::DelayMs(ms) => Rc522Request::DelayMs(ms),
    }
}

/// What a register access came to on the bus: a failed transfer is `Spi`, a
/// read gives the second byte clocked in, a write gives 0.
pub open spec fn moved(req: RegReq, reply: Option<[u8; 2]>) -> RegOutcome {
    match reply {
        None => Err(Rc522Error::Spi),
        Some(f) => if req is Read {
            Ok(f[1])
        } else {
            Ok(0)
        },
    }
}

/// Starts the register access `req`: chip select low, or the delay.
pub open spec fn begin_access(op: OpState, req: RegReq) -> (Rc522State, Rc522Request) {
    match req {
        RegReq::DelayMs(ms) => (Rc522State { op, access: Access::Delaying }, Rc522Request::DelayMs(ms)),
        _ => (Rc522State { op, access: Access::Lowering(req) }, Rc522Request::CsLow),
    }
}

/// Carries out what an operation asked for: the next register access, or
/// the end.
pub open spec fn launch(t: (OpState, OpStep)) -> (Rc522State, Rc522Request) {
    match t.1 {
        OpStep::Reg(r) => begin_access(t.0, r),
        OpStep::Finish(out) => (Rc522State { op: t.0, access: Access::Idle }, Rc522Request::Done(out)),
    }
}

/// One step of the driver, given the result of its last request.
///
/// A register access drives chip select low (a pin error ends it with
/// `Pin`), moves its two bytes (a bus error makes it `Spi`), and drives chip
/// select high (a pin error makes it `Pin`); its outcome then goes to the
/// operation.
pub open spec fn rc522_next(s: Rc522State, reply: Option<[u8; 2]>) -> (Rc522State, Rc522Request) {
    match s.access {
        Access::Idle => (s, Rc522Request::Done(Err(Rc522Error::Protocol))),
        Access::Lowering(req) => match reply {
            None => launch(op_next(s.op, Err(Rc522Error::Pin))),
            Some(_) => (Rc522State { access: Access::Moving(req), ..s }, frame_of(req)),
        },
        Access::Moving(req) => (
            Rc522State { access: Access::Raising(moved(req, reply)), ..s },
            Rc522Request::CsHigh,
        ),
        Access::Raising(res) => match reply {
            None => launch(op_next(s.op, Err(Rc522Error::Pin))),
            Some(_) => launch(op_next(s.op, res)),
        },
        Access::Delaying => launch(op_next(s.op, Ok(0))),
    }
}

/// `init`: soft reset, then setup and antenna.
pub open spec fn init_start(op: OpState) -> (OpState, OpStep) {
    (
        OpState { stage: Stage::Reset, ..op },
        OpStep::Reg(RegReq::Write { reg: REG_COMMAND, value: CMD_SOFT_RESET }),
    )
}

/// `version`: one read of the version register.
pub open spec fn version_start(op: OpState) -> (OpState, OpStep) {
    (OpState { stage: Stage::VersionRead, ..op }, OpStep::Reg(RegReq::Read { reg: REG_VERSION }))
}

/// `request_a`: 7-bit framing, then REQA.
pub open spec fn request_a_start(op: OpState) -> (OpState, OpStep) {
    (
        OpState { stage: Stage::ReqAFraming, ..op },
        OpStep::Reg(RegReq::Write { reg: REG_BIT_FRAMING, value: 0x07 }),
    )
}

/// `anticollision_cl1`: byte framing, then the anticollision command.
pub open spec fn anticollision_start(op: OpState) -> (OpState, OpStep) {
    (
        OpState { stage: Stage::AnticollFraming, ..op },
        OpStep::Reg(RegReq::Write { reg: REG_BIT_FRAMING, value: 0x00 }),
    )
}

/// `select_cl1`: the CRC of the select frame, then the frame.
pub open spec fn select_start(op: OpState, uid: [u8; 4]) -> (OpState, OpStep) {
    begin_crc(op, Stage::SelectCrc { uid }, select_head(uid))
}

/// `authenticate`: the authentication exchange, then the status register.
pub open spec fn authenticate_start(
    op: OpState,
    key_type: MifareKeyType,
    block_addr: u8,
    key: [u8; 6],
    uid: [u8; 4],
) -> (OpState, OpStep) {
    begin_comm(
        op,
        Stage::AuthComm,
        CMD_MF_AUTHENT,
        auth_packet(key_type, block_addr, key, uid),
        Seq::empty(),
    )
}

/// `stop_crypto`: clear the crypto bit of the status register.
pub open spec fn stop_crypto_start(op: OpState) -> (OpState, OpStep) {
    (OpState { stage: Stage::StopCryptoRead, ..op }, OpStep::Reg(RegReq::Read { reg: REG_STATUS2 }))
}

/// `read_block`: the CRC of the read command, then the command.
pub open spec fn read_block_start(op: OpState, block_addr: u8) -> (OpState, OpStep) {
    begin_crc(op, Stage::ReadCrc { addr: block_addr }, seq![PICC_READ, block_addr])
}

/// `write_block`: the CRC of the write command, the command, then the CRC
/// of the data and the data.
pub open spec fn write_block_start(op: OpState, block_addr: u8, data: [u8; 16]) -> (OpState, OpStep) {
    begin_crc(op, Stage::WriteCmdCrc { addr: block_addr, data }, seq![PICC_WRITE, block_addr])
}

/// `halt`: the CRC of the halt command, then the command.
pub open spec fn halt_start(op: OpState) -> (OpState, OpStep) {
    begin_crc(op, Stage::HaltCrc, seq![PICC_HALT, 0u8])
}

/// A buffer of `n` zero bytes.
fn zero_buffer(n: usize) -> (v: Vec<u8>)
    ensures
        v@ == zeros(n as nat),
{
    let mut v: Vec<u8> = Vec::new();
    let mut i: usize = 0;
    while i < n
        invariant
            i <= n,
            v@ == zeros(i as nat),
        decreases n - i,
    {
        v.push(0);
        i = i + 1;
        assert(v@ =~= zeros(i as nat));
    }
    v
}

/// Appends the bytes of `src` to `v`.
fn push_all(v: &mut Vec<u8>, src: &[u8])
    ensures
        final(v)@ == old(v)@ + src@,
{
    let ghost start = v@;
    let mut i: usize = 0;
    while i < src.len()
        invariant
            i <= src@.len(),
            v@ == start + src@.subrange(0, i as int),
        decreases src@.len() - i,
    {
        v.push(src[i]);
        i = i + 1;
        assert(v@ =~= start + src@.subrange(0, i as int));
    }
    assert(src@.subrange(0, src@.len() as int) =~= src@);
}

/// The first 16 bytes of `b` as a block.
fn first_block(b: &Vec<u8>) -> (a: [u8; 16])
    requires
        b@.len() >= 16,
    ensures
        a == block_of(b@),
{
    let mut a = [0u8; 16];
    let mut i: usize = 0;
    while i < 16
        invariant
            i <= 16,
            b@.len() >= 16,
            forall|j: int| 0 <= j < i ==> a@[j] == b@[j],
        decreases 16 - i,
    {
        a[i] = b[i];
        i = i + 1;
    }
    assert(a@ =~= b@.subrange(0, 16));
    let ghost c = block_of(b@);
    assert(c@ =~= b@.subrange(0, 16));
    assert(a =~= c);
    a
}

/// The select frame before its CRC.
fn select_frame_head(uid: [u8; 4]) -> (v: Vec<u8>)
    ensures
        v@ == select_head(uid),
{
    let check = uid[0] ^ uid[1] ^ uid[2] ^ uid[3];
    let v = vec![PICC_SELECT_CL1, 0x70u8, uid[0], uid[1], uid[2], uid[3], check];
    assert(v@ =~= select_head(uid));
    v
}

/// Setup write `k`.
fn setup_entry(k: usize) -> (r: RegReq)
    requires
        k < SETUP_WRITES,
    ensures
        r == setup_write(k as int),
{
    if k == 0 {
        RegReq::Write { reg: REG_T_MODE, value: 0x8D }
    } else if k == 1 {
        RegReq::Write { reg: REG_T_PRESCALER, value: 0x3E }
    } else if k == 2 {
        RegReq::Write { reg: REG_T_RELOAD_L, value: 30 }
    } else if k == 3 {
        RegReq::Write { reg: REG_T_RELOAD_H, value: 0 }
    } else if k == 4 {
        RegReq::Write { reg: REG_TX_MODE, value: 0x00 }
    } else if k == 5 {
        RegReq::Write { reg: REG_RX_MODE, value: 0x00 }
    } else {
        RegReq::Write { reg: REG_MODE, value: 0x3D }
    }
}

/// The bus action that carries the register access `req`.
fn register_frame(req: RegReq) -> (r: Rc522Request)
    ensures
        r == frame_of(req),
{
    match req {
        RegReq::Write { reg, value } => Rc522Request::Write([write_address(reg), value]),
        RegReq::Read { reg } => Rc522Request::Transfer([read_address(reg), 0u8]),
        RegReq::DelayMs(ms) => Rc522Request::DelayMs(ms),
    }
}

/// RC522 driver: the SPI bus, the chip-select pin, and the operation under
/// way with its CRC computation, card exchange and register access.
pub struct Rc522<SPI, CS> {
    spi: SPI,
    cs: CS,
    stage: Stage,
    crc: CrcOp,
    comm: CommOp,
    access: Access,
}

impl<SPI, CS> Rc522<SPI, CS> {
    /// The SPI bus.
    pub closed spec fn spi(&self) -> SPI {
        self.spi
    }

    /// The chip-select pin.
    pub closed spec fn cs(&self) -> CS {
        self.cs
    }

    /// The operation's state.
    pub closed spec fn op(&self) -> OpState {
        OpState { stage: self.stage, crc: self.crc.view_state(), comm: self.comm.view_state() }
    }

    /// The driver's state.
    pub closed spec fn state(&self) -> Rc522State {
        Rc522State { op: self.op(), access: self.access }
    }

    /// A driver on `spi` with chip select `cs`, with no operation under way.
    pub fn new(spi: SPI, cs: CS) -> (r: Self)
        ensures
            r.spi() == spi,
            r.cs() == cs,
            r.state().op.stage == Stage::Idle,
            r.state().access == Access::Idle,
            rc522_wf(r.state()),
    {
        let (crc, _) = CrcOp::start(Vec::new());
        let (comm, _) = CommOp::start(CMD_IDLE, Vec::new(), Vec::new());
        Rc522 { spi, cs, stage: Stage::Idle, crc, comm, access: Access::Idle }
    }

    /// Ends the operation with `out`.
    fn end_with(&mut self, out: Rc522Outcome) -> (st: OpStep)
        ensures
            (final(self).op(), st) == finish(old(self).op(), out),
            final(self).spi == old(self).spi,
            final(self).cs == old(self).cs,
            final(self).access == old(self).access,
    {
        self.stage = Stage::Idle;
        OpStep::Finish(out)
    }

    /// Starts a CRC computation over `data` in `stage`.
    fn calculate_crc(&mut self, stage: Stage, data: Vec<u8>) -> (st: OpStep)
        ensures
            (final(self).op(), st) == begin_crc(old(self).op(), stage, data@),
            crc_wf(final(self).op().crc),
            final(self).spi == old(self).spi,
            final(self).cs == old(self).cs,
            final(self).access == old(self).access,
    {
        let (crc, first) = CrcOp::start(data);
        self.crc = crc;
        self.stage = stage;
        OpStep::Reg(first)
    }

    /// Starts an exchange of `command` with the card in `stage`, sending
    /// `send` and answering into `back`.
    fn communicate_with_picc(&mut self, stage: Stage, command: u8, send: Vec<u8>, back: Vec<u8>) -> (st: OpStep)
        ensures
            (final(self).op(), st) == begin_comm(old(self).op(), stage, command, send@, back@),
            comm_wf(final(self).op().comm),
            final(self).spi == old(self).spi,
            final(self).cs == old(self).cs,
            final(self).access == old(self).access,
    {
        let (comm, first) = CommOp::start(command, send, back);
        self.comm = comm;
        self.stage = stage;
        OpStep::Reg(first)
    }

    /// Starts a transceive exchange in `stage`.
    fn transceive_raw(&mut self, stage: Stage, send: Vec<u8>, back: Vec<u8>) -> (st: OpStep)
        ensures
            (final(self).op(), st) == begin_comm(old(self).op(), stage, CMD_TRANSCEIVE, send@, back@),
            comm_wf(final(self).op().comm),
            final(self).spi == old(self).spi,
            final(self).cs == old(self).cs,
            final(self).access == old(self).access,
    {
        self.communicate_with_picc(stage, CMD_TRANSCEIVE, send, back)
    }

    /// What follows the CRC `c` of the stage's frame.
    fn after_crc(&mut self, c: [u8; 2]) -> (st: OpStep)
        ensures
            (final(self).op(), st) == after_crc(old(self).op(), c),
            crc_wf(final(self).op().crc) <== crc_wf(old(self).op().crc),
            comm_wf(final(self).op().comm) <== comm_wf(old(self).op().comm),
            final(self).spi == old(self).spi,
            final(self).cs == old(self).cs,
            final(self).access == old(self).access,
    {
        match self.stage {
            Stage::SelectCrc { uid } => {
                let mut send = select_frame_head(uid);
                send.push(c[0]);
                send.push(c[1]);
                assert(send@ =~= select_head(uid) + seq![c[0], c[1]]);
                self.transceive_raw(Stage::SelectComm, send, zero_buffer(3))
            },
            Stage::ReadCrc { addr } => {
                let send = vec![PICC_READ, addr, c[0], c[1]];
                self.transceive_raw(Stage::ReadComm, send, zero_buffer(18))
            },
            Stage::WriteCmdCrc { addr, data } => {
                let send = vec![PICC_WRITE, addr, c[0], c[1]];
                self.transceive_raw(Stage::WriteCmdComm { data }, send, zero_buffer(1))
            },
            Stage::WriteDataCrc { data, ack } => {
                let mut send: Vec<u8> = Vec::new();
                push_all(&mut send, data.as_slice());
                send.push(c[0]);
                send.push(c[1]);
                let mut back: Vec<u8> = Vec::new();
                back.push(ack);
                assert(back@ =~= seq![ack]);
                assert(send@ =~= data@ + seq![c[0], c[1]]);
                self.transceive_raw(Stage::WriteDataComm, send, back)
            },
            Stage::HaltCrc => {
                let send = vec![PICC_HALT, 0u8, c[0], c[1]];
                self.transceive_raw(Stage::HaltComm, send, zero_buffer(1))
            },
            _ => self.end_with(Err(Rc522Error::Protocol)),
        }
    }

    /// A step of a stage that runs a CRC computation.
    fn crc_stage(&mut self, o: RegOutcome) -> (st: OpStep)
        requires
            op_wf(old(self).op()),
            is_crc_stage(old(self).op().stage),
        ensures
            (final(self).op(), st) == crc_stage_next(old(self).op(), o),
            op_wf(final(self).op()),
            final(self).spi == old(self).spi,
            final(self).cs == old(self).cs,
            final(self).access == old(self).access,
    {
        match self.crc.step(o) {
            CrcStep::Reg(r) => OpStep::Reg(r),
            CrcStep::Finish(Err(e)) => self.end_with(Err(e)),
            CrcStep::Finish(Ok(c)) => self.after_crc(c),
        }
    }

    /// What follows the card's answer `r` to the stage's exchange.
    fn after_comm(&mut self, r: CommReply) -> (st: OpStep)
        requires
            is_comm_stage(old(self).op().stage),
            r.back@.len() == comm_back_len(old(self).op().stage),
            r.len <= r.back@.len(),
        ensures
            (final(self).op(), st) == after_comm(old(self).op(), r@),
            crc_wf(final(self).op().crc) <== crc_wf(old(self).op().crc),
            comm_wf(final(self).op().comm) <== comm_wf(old(self).op().comm),
            !is_comm_stage(final(self).op().stage),
            final(self).spi == old(self).spi,
            final(self).cs == old(self).cs,
            final(self).access == old(self).access,
    {
        match self.stage {
            Stage::ReqAComm => {
                let out = if r.len == 2 && r.valid_bits == 0 {
                    Ok(Rc522Output::Atqa([r.back[0], r.back[1]]))
                } else {
                    Err(Rc522Error::Protocol)
                };
                self.end_with(out)
            },
            Stage::AnticollComm => {
                let out = if r.len != 5 {
                    Err(Rc522Error::Protocol)
                } else if r.back[0] ^ r.back[1] ^ r.back[2] ^ r.back[3] != r.back[4] {
                    Err(Rc522Error::Crc)
                } else {
                    Ok(Rc522Output::Uid([r.back[0], r.back[1], r.back[2], r.back[3]]))
                };
                self.end_with(out)
            },
            Stage::SelectComm => {
                let out = if r.len == 1 && r.valid_bits == 0 {
                    Ok(Rc522Output::Sak(r.back[0]))
                } else {
                    Err(Rc522Error::Protocol)
                };
                self.end_with(out)
            },
            Stage::AuthComm => {
                self.stage = Stage::AuthStatus;
                OpStep::Reg(RegReq::Read { reg: REG_STATUS2 })
            },
            Stage::ReadComm => {
                let out = if r.len == 16 && r.valid_bits == 0 {
                    Ok(Rc522Output::Block(first_block(&r.back)))
                } else {
                    Err(Rc522Error::Protocol)
                };
                self.end_with(out)
            },
            Stage::WriteCmdComm { data } => {
                if r.valid_bits == 4 && r.back[0] & 0x0Fu8 == 0x0Au8 {
                    let mut bytes: Vec<u8> = Vec::new();
                    push_all(&mut bytes, data.as_slice());
                    assert(bytes@ =~= data@);
                    self.calculate_crc(Stage::WriteDataCrc { data, ack: r.back[0] }, bytes)
                } else {
                    self.end_with(Err(Rc522Error::Protocol))
                }
            },
            Stage::WriteDataComm => {
                let out = if r.valid_bits == 4 && r.back[0] & 0x0Fu8 == 0x0Au8 {
                    Ok(Rc522Output::Unit)
                } else {
                    Err(Rc522Error::Protocol)
                };
                self.end_with(out)
            },
            Stage::HaltComm => self.end_with(Ok(Rc522Output::Unit)),
            _ => self.end_with(Err(Rc522Error::Protocol)),
        }
    }

    /// A step of a stage that runs an exchange with the card.
    fn comm_stage(&mut self, o: RegOutcome) -> (st: OpStep)
        requires
            op_wf(old(self).op()),
            is_comm_stage(old(self).op().stage),
        ensures
            (final(self).op(), st) == comm_stage_next(old(self).op(), o),
            op_wf(final(self).op()),
            final(self).spi == old(self).spi,
            final(self).cs == old(self).cs,
            final(self).access == old(self).access,
    {
        let halting = match self.stage {
            Stage::HaltComm => true,
            _ => false,
        };
        match self.comm.step(o) {
            CommStep::Reg(r) => OpStep::Reg(r),
            CommStep::Finish(Err(e)) => {
                if halting {
                    self.end_with(Ok(Rc522Output::Unit))
                } else {
                    self.end_with(Err(e))
                }
            },
            CommStep::Finish(Ok(reply)) => self.after_comm(reply),
        }
    }

    /// Starts `init` with the soft reset.
    fn reset(&mut self) -> (st: OpStep)
        ensures
            (final(self).op(), st) == init_start(old(self).op()),
            final(self).spi == old(self).spi,
            final(self).cs == old(self).cs,
            final(self).access == old(self).access,
    {
        self.stage = Stage::Reset;
        OpStep::Reg(RegReq::Write { reg: REG_COMMAND, value: CMD_SOFT_RESET })
    }

    /// Decides on the antenna control value `control`: the antenna is on
    /// when both driver bits are set, else they get set.
    fn antenna_on(&mut self, control: u8) -> (st: OpStep)
        requires
            old(self).op().stage == Stage::AntennaRead,
        ensures
            (final(self).op(), st) == direct_next(old(self).op(), Ok(control)),
            final(self).spi == old(self).spi,
            final(self).cs == old(self).cs,
            final(self).access == old(self).access,
    {
        if control & 0x03u8 != 0x03u8 {
            self.stage = Stage::AntennaSetRead;
            OpStep::Reg(RegReq::Read { reg: REG_TX_CONTROL })
        } else {
            self.end_with(Ok(Rc522Output::Unit))
        }
    }

    /// A step of a stage that reads or writes a register itself.
    fn direct_stage(&mut self, o: RegOutcome) -> (st: OpStep)
        requires
            op_wf(old(self).op()),
            !is_crc_stage(old(self).op().stage),
            !is_comm_stage(old(self).op().stage),
        ensures
            (final(self).op(), st) == direct_next(old(self).op(), o),
            op_wf(final(self).op()),
            final(self).spi == old(self).spi,
            final(self).cs == old(self).cs,
            final(self).access == old(self).access,
    {
        let v = match o {
            Err(e) => {
                return self.end_with(Err(e));
            },
            Ok(v) => v,
        };
        match self.stage {
            Stage::Reset => {
                self.stage = Stage::ResetDelay;
                OpStep::Reg(RegReq::DelayMs(RESET_DELAY_MS))
            },
            Stage::ResetDelay => {
                self.stage = Stage::Setup { k: 0 };
                OpStep::Reg(setup_entry(0))
            },
            Stage::Setup { k } => {
                if k + 1 < SETUP_WRITES {
                    self.stage = Stage::Setup { k: k + 1 };
                    OpStep::Reg(setup_entry(k + 1))
                } else {
                    self.stage = Stage::AntennaRead;
                    OpStep::Reg(RegReq::Read { reg: REG_TX_CONTROL })
                }
            },
            Stage::AntennaRead => self.antenna_on(v),
            Stage::AntennaSetRead => {
                self.stage = Stage::AntennaSetWrite;
                OpStep::Reg(RegReq::Write { reg: REG_TX_CONTROL, value: v | 0x03u8 })
            },
            Stage::AntennaSetWrite => self.end_with(Ok(Rc522Output::Unit)),
            Stage::VersionRead => self.end_with(Ok(Rc522Output::Version(v))),
            Stage::ReqAFraming => {
                let send = vec![PICC_REQA];
                assert(send@ =~= seq![PICC_REQA]);
                self.transceive_raw(Stage::ReqAComm, send, zero_buffer(16))
            },
            Stage::AnticollFraming => {
                let send = vec![PICC_ANTICOLL_CL1, 0x20u8];
                self.transceive_raw(Stage::AnticollComm, send, zero_buffer(16))
            },
            Stage::AuthStatus => {
                let out = if v & 0x08u8 == 0 {
                    Err(Rc522Error::Authentication)
                } else {
                    Ok(Rc522Output::Unit)
                };
                self.end_with(out)
            },
            Stage::StopCryptoRead => {
                self.stage = Stage::StopCryptoWrite;
                OpStep::Reg(RegReq::Write { reg: REG_STATUS2, value: v & !0x08u8 })
            },
            Stage::StopCryptoWrite => self.end_with(Ok(Rc522Output::Unit)),
            _ => self.end_with(Err(Rc522Error::Protocol)),
        }
    }

    /// One step of the operation, given the outcome of its last register
    /// access.
    fn op_step(&mut self, o: RegOutcome) -> (st: OpStep)
        requires
            op_wf(old(self).op()),
        ensures
            (final(self).op(), st) == op_next(old(self).op(), o),
            op_wf(final(self).op()),
            (st is Finish) == (final(self).op().stage is Idle),
            final(self).spi == old(self).spi,
            final(self).cs == old(self).cs,
            final(self).access == old(self).access,
    {
        let stage = self.stage;
        match stage {
            Stage::SelectCrc { .. } | Stage::ReadCrc { .. } | Stage::WriteCmdCrc { .. }
            | Stage::WriteDataCrc { .. } | Stage::HaltCrc => self.crc_stage(o),
            Stage::ReqAComm | Stage::AnticollComm | Stage::SelectComm | Stage::AuthComm
            | Stage::ReadComm | Stage::WriteCmdComm { .. } | Stage::WriteDataComm
            | Stage::HaltComm => self.comm_stage(o),
            _ => self.direct_stage(o),
        }
    }

    /// Starts the register access `req`.
    fn begin_access(&mut self, req: RegReq) -> (r: Rc522Request)
        ensures
            (final(self).state(), r) == begin_access(old(self).op(), req),
            final(self).spi == old(self).spi,
            final(self).cs == old(self).cs,
    {
        match req {
            RegReq::DelayMs(ms) => {
                self.access = Access::Delaying;
                Rc522Request::DelayMs(ms)
            },
            _ => {
                self.access = Access::Lowering(req);
                Rc522Request::CsLow
            },
        }
    }

    /// Carries out what the operation asked for.
    fn launch(&mut self, st: OpStep) -> (r: Rc522Request)
        ensures
            (final(self).state(), r) == launch((old(self).op(), st)),
            final(self).spi == old(self).spi,
            final(self).cs == old(self).cs,
    {
        match st {
            OpStep::Reg(req) => self.begin_access(req),
            OpStep::Finish(out) => {
                self.access = Access::Idle;
                Rc522Request::Done(out)
            },
        }
    }

    /// Hands the outcome of a register access to the operation and carries
    /// out what it asks for.
    fn feed(&mut self, o: RegOutcome) -> (r: Rc522Request)
        requires
            op_wf(old(self).op()),
        ensures
            (final(self).state(), r) == launch(op_next(old(self).op(), o)),
            rc522_wf(final(self).state()),
            final(self).spi == old(self).spi,
            final(self).cs == old(self).cs,
    {
        let st = self.op_step(o);
        self.launch(st)
    }

    /// Starts initialisation: soft reset, 50 ms of settling, the timer and
    /// mode setup, then the antenna switched on. Returns the first request.
    pub fn init(&mut self) -> (r: Rc522Request)
        requires
            rc522_wf(old(self).state()),
        ensures
            (final(self).state(), r) == launch(init_start(old(self).state().op)),
            rc522_wf(final(self).state()),
            final(self).spi() == old(self).spi(),
            final(self).cs() == old(self).cs(),
    {
        let st = self.reset();
        self.launch(st)
    }

    /// Starts a read of the chip's version register.
    pub fn version(&mut self) -> (r: Rc522Request)
        requires
            rc522_wf(old(self).state()),
        ensures
            (final(self).state(), r) == launch(version_start(old(self).state().op)),
            rc522_wf(final(self).state()),
            final(self).spi() == old(self).spi(),
            final(self).cs() == old(self).cs(),
    {
        self.stage = Stage::VersionRead;
        self.launch(OpStep::Reg(RegReq::Read { reg: REG_VERSION }))
    }

    /// Starts a card request (REQA); it ends with the card's ATQA.
    pub fn request_a(&mut self) -> (r: Rc522Request)
        requires
            rc522_wf(old(self).state()),
        ensures
            (final(self).state(), r) == launch(request_a_start(old(self).state().op)),
            rc522_wf(final(self).state()),
            final(self).spi() == old(self).spi(),
            final(self).cs() == old(self).cs(),
    {
        self.stage = Stage::ReqAFraming;
        self.launch(OpStep::Reg(RegReq::Write { reg: REG_BIT_FRAMING, value: 0x07 }))
    }

    /// Starts anticollision at cascade level 1; it ends with the card's UID.
    pub fn anticollision_cl1(&mut self) -> (r: Rc522Request)
        requires
            rc522_wf(old(self).state()),
        ensures
            (final(self).state(), r) == launch(anticollision_start(old(self).state().op)),
            rc522_wf(final(self).state()),
            final(self).spi() == old(self).spi(),
            final(self).cs() == old(self).cs(),
    {
        self.stage = Stage::AnticollFraming;
        self.launch(OpStep::Reg(RegReq::Write { reg: REG_BIT_FRAMING, value: 0x00 }))
    }

    /// Starts selecting the card `uid` at cascade level 1; it ends with the
    /// card's SAK.
    pub fn select_cl1(&mut self, uid: [u8; 4]) -> (r: Rc522Request)
        requires
            rc522_wf(old(self).state()),
        ensures
            (final(self).state(), r) == launch(select_start(old(self).state().op, uid)),
            rc522_wf(final(self).state()),
            final(self).spi() == old(self).spi(),
            final(self).cs() == old(self).cs(),
    {
        let head = select_frame_head(uid);
        let st = self.calculate_crc(Stage::SelectCrc { uid }, head);
        self.launch(st)
    }

    /// Starts authenticating block `block_addr` of card `uid` with `key`.
    pub fn authenticate(&mut self,
        key_type: MifareKeyType,
        block_addr: u8,
        key: [u8; 6],
        uid: [u8; 4],
    ) -> (r: Rc522Request)
        requires
            rc522_wf(old(self).state()),
        ensures
            (final(self).state(), r) == launch(authenticate_start(old(self).state().op, key_type, block_addr, key, uid)),
            rc522_wf(final(self).state()),
            final(self).spi() == old(self).spi(),
            final(self).cs() == old(self).cs(),
    {
        let command = match key_type {
            MifareKeyType::A => PICC_AUTH_KEY_A,
            MifareKeyType::B => PICC_AUTH_KEY_B,
        };
        let mut packet: Vec<u8> = Vec::new();
        packet.push(command);
        packet.push(block_addr);
        push_all(&mut packet, key.as_slice());
        push_all(&mut packet, uid.as_slice());
        assert(packet@ =~= auth_packet(key_type, block_addr, key, uid));
        let st = self.communicate_with_picc(Stage::AuthComm, CMD_MF_AUTHENT, packet, Vec::new());
        self.launch(st)
    }

    /// Starts switching the crypto unit off.
    pub fn stop_crypto(&mut self) -> (r: Rc522Request)
        requires
            rc522_wf(old(self).state()),
        ensures
            (final(self).state(), r) == launch(stop_crypto_start(old(self).state().op)),
            rc522_wf(final(self).state()),
            final(self).spi() == old(self).spi(),
            final(self).cs() == old(self).cs(),
    {
        self.stage = Stage::StopCryptoRead;
        self.launch(OpStep::Reg(RegReq::Read { reg: REG_STATUS2 }))
    }

    /// Starts reading block `block_addr`; it ends with its 16 bytes.
    pub fn read_block(&mut self, block_addr: u8) -> (r: Rc522Request)
        requires
            rc522_wf(old(self).state()),
        ensures
            (final(self).state(), r) == launch(read_block_start(old(self).state().op, block_addr)),
            rc522_wf(final(self).state()),
            final(self).spi() == old(self).spi(),
            final(self).cs() == old(self).cs(),
    {
        let st = self.calculate_crc(Stage::ReadCrc { addr: block_addr }, vec![PICC_READ, block_addr]);
        self.launch(st)
    }

    /// Starts writing `data` to block `block_addr`.
    pub fn write_block(&mut self, block_addr: u8, data: [u8; 16]) -> (r: Rc522Request)
        requires
            rc522_wf(old(self).state()),
        ensures
            (final(self).state(), r) == launch(write_block_start(old(self).state().op, block_addr, data)),
            rc522_wf(final(self).state()),
            final(self).spi() == old(self).spi(),
            final(self).cs() == old(self).cs(),
    {
        let st = self.calculate_crc(
            Stage::WriteCmdCrc { addr: block_addr, data },
            vec![PICC_WRITE, block_addr],
        );
        self.launch(st)
    }

    /// Starts halting the card. Whatever the card answers, it ends well once
    /// the halt command's CRC is computed.
    pub fn halt(&mut self) -> (r: Rc522Request)
        requires
            rc522_wf(old(self).state()),
        ensures
            (final(self).state(), r) == launch(halt_start(old(self).state().op)),
            rc522_wf(final(self).state()),
            final(self).spi() == old(self).spi(),
            final(self).cs() == old(self).cs(),
    {
        let st = self.calculate_crc(Stage::HaltCrc, vec![PICC_HALT, 0u8]);
        self.launch(st)
    }

    /// Whether an operation is under way.
    pub fn is_busy(&self) -> (b: bool)
        ensures
            b == !(self.state().access is Idle),
    {
        match self.access {
            Access::Idle => false,
            _ => true,
        }
    }

    /// Takes the result of the last request and returns the next request.
    pub fn step(&mut self, reply: Option<[u8; 2]>) -> (r: Rc522Request)
        requires
            rc522_wf(old(self).state()),
        ensures
            (final(self).state(), r) == rc522_next(old(self).state(), reply),
            rc522_wf(final(self).state()),
            final(self).spi() == old(self).spi(),
            final(self).cs() == old(self).cs(),
    {
        match self.access {
            Access::Idle => Rc522Request::Done(Err(Rc522Error::Protocol)),
            Access::Lowering(req) => match reply {
                None => self.feed(Err(Rc522Error::Pin)),
                Some(_) => {
                    self.access = Access::Moving(req);
                    register_frame(req)
                },
            },
            Access::Moving(req) => {
                let res = match reply {
                    None => Err(Rc522Error::Spi),
                    Some(f) => match req {
                        RegReq::Read { .. } => Ok(f[1]),
                        _ => Ok(0),
                    },
                };
                self.access = Access::Raising(res);
                Rc522Request::CsHigh
            },
            Access::Raising(res) => match reply {
                None => self.feed(Err(Rc522Error::Pin)),
                Some(_) => self.feed(res),
            },
            Access::Delaying => self.feed(Ok(0)),
        }
    }

    /// The SPI bus, to perform the requested transfers on.
    pub fn spi_mut(&mut self) -> (r: &mut SPI)
        ensures
            *r == old(self).spi(),
            final(self).spi() == *final(r),
            final(self).cs() == old(self).cs(),
            final(self).state() == old(self).state(),
    {
        &mut self.spi
    }

    /// The chip-select pin, to drive as requested.
    pub fn cs_mut(&mut self) -> (r: &mut CS)
        ensures
            *r == old(self).cs(),
            final(self).cs() == *final(r),
            final(self).spi() == old(self).spi(),
            final(self).state() == old(self).state(),
    {
        &mut self.cs
    }

    /// Gives the bus and the pin back.
    pub fn release(self) -> (r: (SPI, CS))
        ensures
            r == (self.spi(), self.cs()),
    {
        (self.spi, self.cs)
    }
}

/// Chip select goes high after every register transfer, whether it
/// succeeded or not.
pub proof fn law_transfer_releases_chip_select(s: Rc522State, reply: Option<[u8; 2]>)
    requires
        s.access is Moving,
    ensures
        rc522_next(s, reply).1 == Rc522Request::CsHigh,
        rc522_next(s, reply).0.op == s.op,
{
}

/// `halt` ends well whatever the card does once its command's CRC is
/// computed: its exchange either goes on or ends the operation with `Unit`.
pub proof fn law_halt_ends_well(s: OpState, o: RegOutcome)
    requires
        s.stage is HaltComm,
        op_wf(s),
    ensures
        op_next(s, o).1 is Reg || op_next(s, o).1 == OpStep::Finish(Ok(Rc522Output::Unit)),
{
}

/// An anticollision that ends well gives the first four answer bytes,
/// whose XOR is the fifth.
pub proof fn law_uid_check_byte(s: OpState, r: CommReplyView)
    requires
        s.stage is AnticollComm,
        r.back.len() == 16,
    ensures
        after_comm(s, r).1 matches OpStep::Finish(Ok(out)) ==> out == Rc522Output::Uid(
            [r.back[0], r.back[1], r.back[2], r.back[3]],
        ) && r.len == 5 && r.back[0] ^ r.back[1] ^ r.back[2] ^ r.back[3] == r.back[4],
{
}

/// A register access, whole: chip select low, then (if that worked) its
/// two bytes on the bus, then chip select high whatever the bus did. The
/// operation is handed `Pin` when a chip select failed, else `Spi` when the
/// bus failed, else the value read (0 after a write); when chip select did
/// not go low, no bytes move.
pub proof fn law_register_access(op: OpState, req: RegReq, low: Option<[u8; 2]>, bus: Option<[u8; 2]>, high: Option<[u8; 2]>)
    requires
        req is Write || req is Read,
    ensures
        begin_access(op, req).1 == Rc522Request::CsLow,
        low is None ==> rc522_next(begin_access(op, req).0, low) == launch(op_next(op, Err(Rc522Error::Pin))),
        low is Some ==> ({
            let (s1, q1) = rc522_next(begin_access(op, req).0, low);
            let (s2, q2) = rc522_next(s1, bus);
            &&& q1 == frame_of(req)
            &&& q2 == Rc522Request::CsHigh
            &&& rc522_next(s2, high) == launch(
                op_next(
                    op,
                    if high is None {
                        Err(Rc522Error::Pin)
                    } else if bus is None {
                        Err(Rc522Error::Spi)
                    } else if req is Read {
                        Ok(bus->0[1])
                    } else {
                        Ok(0u8)
                    },
                ),
            )
        }),
        req matches RegReq::Write { reg, value } ==> frame_of(req) == Rc522Request::Write([write_addr(reg), value]),
{
}

/// An operation fed the register outcomes `os` in turn: the state it
/// reaches and the step it takes after each outcome.
pub open spec fn op_run(s: OpState, os: Seq<RegOutcome>) -> (OpState, Seq<OpStep>)
    decreases os.len(),
{
    if os.len() == 0 {
        (s, Seq::empty())
    } else {
        let (s1, st) = op_next(s, os[0]);
        let (s2, sts) = op_run(s1, os.drop_first());
        (s2, seq![st] + sts)
    }
}

proof fn lemma_op_run_split(s: OpState, a: Seq<RegOutcome>, b: Seq<RegOutcome>)
    ensures
        op_run(s, a + b).0 == op_run(op_run(s, a).0, b).0,
        op_run(s, a + b).1 == op_run(s, a).1 + op_run(op_run(s, a).0, b).1,
    decreases a.len(),
{
    if a.len() == 0 {
        assert(a + b =~= b);
        assert(op_run(s, a).1 + op_run(s, b).1 =~= op_run(s, b).1);
    } else {
        let (s1, st) = op_next(s, a[0]);
        assert((a + b).drop_first() =~= a.drop_first() + b);
        assert((a + b)[0] == a[0]);
        lemma_op_run_split(s1, a.drop_first(), b);
        assert(seq![st] + (op_run(s1, a.drop_first()).1 + op_run(op_run(s1, a.drop_first()).0, b).1)
            =~= (seq![st] + op_run(s1, a.drop_first()).1) + op_run(op_run(s1, a.drop_first()).0, b).1);
    }
}

/// `n` register writes that went through.
pub open spec fn writes_done(n: nat) -> Seq<RegOutcome> {
    Seq::new(n, |i: int| Ok::<u8, Rc522Error>(0u8))
}

proof fn lemma_setup(s: OpState, k: int)
    requires
        s.stage == (Stage::Setup { k: k as usize }),
        0 <= k < SETUP_WRITES,
    ensures
        op_run(s, writes_done((SETUP_WRITES - k) as nat)).1 == Seq::new(
            (SETUP_WRITES - k - 1) as nat,
            |i: int| OpStep::Reg(setup_write(k + 1 + i)),
        ).push(OpStep::Reg(RegReq::Read { reg: REG_TX_CONTROL })),
        op_run(s, writes_done((SETUP_WRITES - k) as nat)).0 == (OpState { stage: Stage::AntennaRead, ..s }),
    decreases SETUP_WRITES - k,
{
    let os = writes_done((SETUP_WRITES - k) as nat);
    let (s1, st) = op_next(s, os[0]);
    assert(os.drop_first() =~= writes_done((SETUP_WRITES - k - 1) as nat));
    if k + 1 == SETUP_WRITES {
        assert(os.drop_first() =~= Seq::<RegOutcome>::empty());
        assert(op_run(s1, os.drop_first()).1 =~= Seq::<OpStep>::empty());
        assert(op_run(s, os).1 =~= seq![st]);
    } else {
        lemma_setup(s1, k + 1);
        assert(op_run(s, os).1 =~= seq![st] + op_run(s1, os.drop_first()).1);
    }
    assert(op_run(s, os).1 =~= Seq::new(
        (SETUP_WRITES - k - 1) as nat,
        |i: int| OpStep::Reg(setup_write(k + 1 + i)),
    ).push(OpStep::Reg(RegReq::Read { reg: REG_TX_CONTROL })));
}

/// `init` when every access goes through: the soft reset, 50 ms, the seven
/// setup writes in order (timer mode, prescaler, reload low and high,
/// transmit and receive modes, CRC preset), then a read of the transmit
/// control register. When its antenna bits (0x03) are already set `init` is
/// over; else it reads the register again and writes it back with them.
pub proof fn law_init_order(op: OpState, antenna: u8, again: u8)
    ensures
        init_start(op).1 == OpStep::Reg(RegReq::Write { reg: REG_COMMAND, value: CMD_SOFT_RESET }),
        op_run(init_start(op).0, writes_done(9)).1 == seq![OpStep::Reg(RegReq::DelayMs(RESET_DELAY_MS))]
            + Seq::new(SETUP_WRITES as nat, |i: int| OpStep::Reg(setup_write(i))).push(
            OpStep::Reg(RegReq::Read { reg: REG_TX_CONTROL }),
        ),
        antenna & 0x03u8 == 0x03u8 ==> op_next(op_run(init_start(op).0, writes_done(9)).0, Ok(antenna)).1
            == OpStep::Finish(Ok(Rc522Output::Unit)),
        antenna & 0x03u8 != 0x03u8 ==> ({
            let (s1, q1) = op_next(op_run(init_start(op).0, writes_done(9)).0, Ok(antenna));
            let (s2, q2) = op_next(s1, Ok(again));
            &&& q1 == OpStep::Reg(RegReq::Read { reg: REG_TX_CONTROL })
            &&& q2 == OpStep::Reg(RegReq::Write { reg: REG_TX_CONTROL, value: again | 0x03u8 })
            &&& op_next(s2, Ok(0)).1 == OpStep::Finish(Ok(Rc522Output::Unit))
        }),
{
    let s0 = init_start(op).0;
    let os = writes_done(9);
    let head = writes_done(2);
    let tail = writes_done(7);
    assert(os =~= head + tail);
    lemma_op_run_split(s0, head, tail);
    let (s1, q1) = op_next(s0, head[0]);
    let (s2, q2) = op_next(s1, head.drop_first()[0]);
    assert(head.drop_first().drop_first() =~= Seq::<RegOutcome>::empty());
    assert(op_run(s2, head.drop_first().drop_first()).1 =~= Seq::<OpStep>::empty());
    assert(op_run(s1, head.drop_first()).1 =~= seq![q2]);
    assert(op_run(s0, head).1 =~= seq![q1, q2]);
    assert(s2.stage == (Stage::Setup { k: 0 }));
    lemma_setup(s2, 0);
    assert(seq![q1, q2] + Seq::new(6, |i: int| OpStep::Reg(setup_write(0 + 1 + i))).push(
        OpStep::Reg(RegReq::Read { reg: REG_TX_CONTROL }),
    ) =~= seq![OpStep::Reg(RegReq::DelayMs(RESET_DELAY_MS))] + Seq::new(
        SETUP_WRITES as nat,
        |i: int| OpStep::Reg(setup_write(i)),
    ).push(OpStep::Reg(RegReq::Read { reg: REG_TX_CONTROL })));
}

/// The operation's steps for an exchange's steps, each a register access.
pub open spec fn comm_requests(sts: Seq<CommStepView>) -> Seq<OpStep> {
    sts.map_values(
        |st: CommStepView|
            match st {
                CommStepView::Reg(q) => OpStep::Reg(q),
                CommStepView::Finish(_) => OpStep::Finish(Err(Rc522Error::Protocol)),
            },
    )
}

/// The operation's steps for a CRC computation's steps, each a register
/// access.
pub open spec fn crc_requests(sts: Seq<CrcStep>) -> Seq<OpStep> {
    sts.map_values(
        |st: CrcStep|
            match st {
                CrcStep::Reg(q) => OpStep::Reg(q),
                CrcStep::Finish(_) => OpStep::Finish(Err(Rc522Error::Protocol)),
            },
    )
}

/// A fresh exchange of `command`, sending `send`, answering into `back`.
pub open spec fn exchange_of(command: u8, send: Seq<u8>, back: Seq<u8>) -> CommState {
    CommState { command, send, back, phase: CommPhase::EnableIrq }
}

/// A fresh CRC computation over `data`.
pub open spec fn crc_of(data: Seq<u8>) -> CrcState {
    CrcState { data, phase: CrcPhase::Stop }
}

proof fn lemma_comm_stage_run(s: OpState, os: Seq<RegOutcome>, res: Result<CommReplyView, Rc522Error>)
    requires
        is_comm_stage(s.stage),
        comm_ends(s.comm, os, res),
    ensures
        op_run(s, os).0 == comm_finish(OpState { comm: comm_run(s.comm, os).0, ..s }, res).0,
        op_run(s, os).1 == comm_requests(comm_run(s.comm, os).1.drop_last()).push(
            comm_finish(OpState { comm: comm_run(s.comm, os).0, ..s }, res).1,
        ),
    decreases os.len(),
{
    lemma_comm_run_len(s.comm, os);
    let (c1, st) = comm_next(s.comm, os[0]);
    let rest = os.drop_first();
    let s1 = OpState { comm: c1, ..s };
    lemma_comm_run_len(c1, rest);
    assert(comm_run(s.comm, os).1 == seq![st] + comm_run(c1, rest).1);
    assert(comm_run(s.comm, os).0 == comm_run(c1, rest).0);
    assert(comm_run(s.comm, os).1[0] == st);
    if os.len() == 1 {
        assert(rest =~= Seq::<RegOutcome>::empty());
        assert(st == CommStepView::Finish(res));
        assert(op_next(s, os[0]) == comm_finish(s1, res));
        let t = op_next(s, os[0]);
        assert(op_run(t.0, rest) == (t.0, Seq::<OpStep>::empty()));
        assert(op_run(s, os) == (t.0, seq![t.1] + Seq::<OpStep>::empty()));
        assert(op_run(s, os).1 =~= seq![op_next(s, os[0]).1]);
        assert(comm_run(s.comm, os).1.drop_last() =~= Seq::<CommStepView>::empty());
        assert(comm_requests(comm_run(s.comm, os).1.drop_last()) =~= Seq::<OpStep>::empty());
    } else {
        assert(st is Reg);
        let q = match st {
            CommStepView::Reg(q) => q,
            _ => RegReq::DelayMs(0),
        };
        assert(op_next(s, os[0]) == (s1, OpStep::Reg(q)));
        assert forall|i: int| 0 <= i < rest.len() - 1 implies (#[trigger] comm_run(c1, rest).1[i]) is Reg by {
            assert(comm_run(s.comm, os).1[i + 1] is Reg);
        }
        assert(comm_run(c1, rest).1[rest.len() - 1] == comm_run(s.comm, os).1[os.len() - 1]);
        lemma_comm_stage_run(s1, rest, res);
        assert(OpState { comm: comm_run(c1, rest).0, ..s1 } == OpState { comm: comm_run(s.comm, os).0, ..s });
        assert(op_run(s, os).1 =~= seq![OpStep::Reg(q)] + op_run(s1, rest).1);
        assert(comm_run(s.comm, os).1.drop_last() =~= seq![st] + comm_run(c1, rest).1.drop_last());
        assert(comm_requests(seq![st] + comm_run(c1, rest).1.drop_last()) =~= seq![OpStep::Reg(q)]
            + comm_requests(comm_run(c1, rest).1.drop_last()));
    }
}

proof fn lemma_crc_stage_run(s: OpState, os: Seq<RegOutcome>, res: Result<[u8; 2], Rc522Error>)
    requires
        is_crc_stage(s.stage),
        crc_ends(s.crc, os, res),
    ensures
        op_run(s, os).0 == crc_finish(OpState { crc: crc_run(s.crc, os).0, ..s }, res).0,
        op_run(s, os).1 == crc_requests(crc_run(s.crc, os).1.drop_last()).push(
            crc_finish(OpState { crc: crc_run(s.crc, os).0, ..s }, res).1,
        ),
    decreases os.len(),
{
    lemma_crc_run_len(s.crc, os);
    let (c1, st) = crc_next(s.crc, os[0]);
    let rest = os.drop_first();
    let s1 = OpState { crc: c1, ..s };
    lemma_crc_run_len(c1, rest);
    assert(crc_run(s.crc, os).1 == seq![st] + crc_run(c1, rest).1);
    assert(crc_run(s.crc, os).0 == crc_run(c1, rest).0);
    assert(crc_run(s.crc, os).1[0] == st);
    if os.len() == 1 {
        assert(rest =~= Seq::<RegOutcome>::empty());
        assert(st == CrcStep::Finish(res));
        assert(op_next(s, os[0]) == crc_finish(s1, res));
        let t = op_next(s, os[0]);
        assert(op_run(t.0, rest) == (t.0, Seq::<OpStep>::empty()));
        assert(op_run(s, os) == (t.0, seq![t.1] + Seq::<OpStep>::empty()));
        assert(op_run(s, os).1 =~= seq![op_next(s, os[0]).1]);
        assert(crc_run(s.crc, os).1.drop_last() =~= Seq::<CrcStep>::empty());
        assert(crc_requests(crc_run(s.crc, os).1.drop_last()) =~= Seq::<OpStep>::empty());
    } else {
        assert(st is Reg);
        let q = match st {
            CrcStep::Reg(q) => q,
            _ => RegReq::DelayMs(0),
        };
        assert(op_next(s, os[0]) == (s1, OpStep::Reg(q)));
        assert forall|i: int| 0 <= i < rest.len() - 1 implies (#[trigger] crc_run(c1, rest).1[i]) is Reg by {
            assert(crc_run(s.crc, os).1[i + 1] is Reg);
        }
        assert(crc_run(c1, rest).1[rest.len() - 1] == crc_run(s.crc, os).1[os.len() - 1]);
        lemma_crc_stage_run(s1, rest, res);
        assert(OpState { crc: crc_run(c1, rest).0, ..s1 } == OpState { crc: crc_run(s.crc, os).0, ..s });
        assert(op_run(s, os).1 =~= seq![OpStep::Reg(q)] + op_run(s1, rest).1);
        assert(crc_run(s.crc, os).1.drop_last() =~= seq![st] + crc_run(c1, rest).1.drop_last());
        assert(crc_requests(seq![st] + crc_run(c1, rest).1.drop_last()) =~= seq![OpStep::Reg(q)]
            + crc_requests(crc_run(c1, rest).1.drop_last()));
    }
}

/// A CRC computation that fails fails its operation with the same error,
/// right after its last register access.
pub proof fn law_crc_failure_fails_operation(s: OpState, cos: Seq<RegOutcome>, e: Rc522Error)
    requires
        is_crc_stage(s.stage),
        crc_ends(s.crc, cos, Err(e)),
    ensures
        op_run(s, cos).1 == crc_requests(crc_run(s.crc, cos).1.drop_last()).push(OpStep::Finish(Err(e))),
{
    lemma_crc_stage_run(s, cos, Err(e));
}

/// `read_block` whole: the chip computes the CRC_A of `[0x30, addr]`; with
/// its result `c` the card exchange sends `[0x30, addr, c[0], c[1]]` into an
/// 18-byte buffer. The operation ends with the first 16 bytes of the answer
/// when exactly 16 came with all bits valid, else with `Protocol`; a failed
/// exchange fails it with the exchange's error.
pub proof fn law_read_block_run(
    op: OpState,
    addr: u8,
    cos: Seq<RegOutcome>,
    c: [u8; 2],
    os: Seq<RegOutcome>,
    res: Result<CommReplyView, Rc522Error>,
)
    requires
        crc_ends(crc_of(seq![PICC_READ, addr]), cos, Ok(c)),
        comm_ends(exchange_of(CMD_TRANSCEIVE, seq![PICC_READ, addr, c[0], c[1]], zeros(18)), os, res),
    ensures
        read_block_start(op, addr).1 == OpStep::Reg(crc_first()),
        op_run(read_block_start(op, addr).0, cos + os).1 == crc_requests(
            crc_run(crc_of(seq![PICC_READ, addr]), cos).1.drop_last(),
        ).push(OpStep::Reg(comm_first(CMD_TRANSCEIVE))) + comm_requests(
            comm_run(exchange_of(CMD_TRANSCEIVE, seq![PICC_READ, addr, c[0], c[1]], zeros(18)), os).1.drop_last(),
        ).push(
            OpStep::Finish(
                match res {
                    Ok(r) => if r.len == 16 && r.valid_bits == 0 {
                        Ok(Rc522Output::Block(block_of(r.back)))
                    } else {
                        Err(Rc522Error::Protocol)
                    },
                    Err(e) => Err(e),
                },
            ),
        ),
{
    let s0 = read_block_start(op, addr).0;
    lemma_op_run_split(s0, cos, os);
    lemma_crc_stage_run(s0, cos, Ok(c));
    let s1 = op_run(s0, cos).0;
    lemma_comm_stage_run(s1, os, res);
}

/// `request_a` whole: it sets 7-bit framing (bit framing 0x07), then the
/// card exchange sends REQA into a 16-byte buffer. The operation ends with
/// the ATQA, the first two answer bytes, when exactly two came with all bits
/// valid, else with `Protocol`; a failed exchange fails it with its error.
pub proof fn law_request_a_run(op: OpState, os: Seq<RegOutcome>, res: Result<CommReplyView, Rc522Error>)
    requires
        comm_ends(exchange_of(CMD_TRANSCEIVE, seq![PICC_REQA], zeros(16)), os, res),
    ensures
        request_a_start(op).1 == OpStep::Reg(RegReq::Write { reg: REG_BIT_FRAMING, value: 0x07 }),
        op_run(request_a_start(op).0, seq![Ok::<u8, Rc522Error>(0u8)] + os).1 == seq![
            OpStep::Reg(comm_first(CMD_TRANSCEIVE)),
        ] + comm_requests(comm_run(exchange_of(CMD_TRANSCEIVE, seq![PICC_REQA], zeros(16)), os).1.drop_last()).push(
            OpStep::Finish(
                match res {
                    Ok(r) => if r.len == 2 && r.valid_bits == 0 {
                        Ok(Rc522Output::Atqa([r.back[0], r.back[1]]))
                    } else {
                        Err(Rc522Error::Protocol)
                    },
                    Err(e) => Err(e),
                },
            ),
        ),
{
    let s0 = request_a_start(op).0;
    let head = seq![Ok::<u8, Rc522Error>(0u8)];
    lemma_op_run_split(s0, head, os);
    let t = op_next(s0, head[0]);
    assert(head.drop_first() =~= Seq::<RegOutcome>::empty());
    assert(op_run(t.0, head.drop_first()) == (t.0, Seq::<OpStep>::empty()));
    assert(op_run(s0, head).1 =~= seq![t.1]);
    lemma_comm_stage_run(t.0, os, res);
}

/// `select_cl1` whole: the chip computes the CRC_A of the select frame
/// (0x93, 0x70, the UID, its BCC); with its result `c` the card exchange
/// sends the frame and `c` into a 3-byte buffer. The operation ends with the
/// SAK, the answer's byte, when exactly one came with all bits valid, else
/// with `Protocol`; a failed exchange fails it with its error.
pub proof fn law_select_cl1_run(
    op: OpState,
    uid: [u8; 4],
    cos: Seq<RegOutcome>,
    c: [u8; 2],
    os: Seq<RegOutcome>,
    res: Result<CommReplyView, Rc522Error>,
)
    requires
        crc_ends(crc_of(select_head(uid)), cos, Ok(c)),
        comm_ends(exchange_of(CMD_TRANSCEIVE, select_head(uid) + seq![c[0], c[1]], zeros(3)), os, res),
    ensures
        select_start(op, uid).1 == OpStep::Reg(crc_first()),
        op_run(select_start(op, uid).0, cos + os).1 == crc_requests(
            crc_run(crc_of(select_head(uid)), cos).1.drop_last(),
        ).push(OpStep::Reg(comm_first(CMD_TRANSCEIVE))) + comm_requests(
            comm_run(exchange_of(CMD_TRANSCEIVE, select_head(uid) + seq![c[0], c[1]], zeros(3)), os).1.drop_last(),
        ).push(
            OpStep::Finish(
                match res {
                    Ok(r) => if r.len == 1 && r.valid_bits == 0 {
                        Ok(Rc522Output::Sak(r.back[0]))
                    } else {
                        Err(Rc522Error::Protocol)
                    },
                    Err(e) => Err(e),
                },
            ),
        ),
{
    let s0 = select_start(op, uid).0;
    lemma_op_run_split(s0, cos, os);
    lemma_crc_stage_run(s0, cos, Ok(c));
    lemma_comm_stage_run(op_run(s0, cos).0, os, res);
}

/// `authenticate` whole: the authentication exchange sends the command, the
/// block, the key and the UID. When it ends well the operation reads the
/// second status register and succeeds exactly when its crypto bit (0x08)
/// is set, else fails with `Authentication`; a failed exchange fails it
/// with its error.
pub proof fn law_authenticate_run(
    op: OpState,
    key_type: MifareKeyType,
    block_addr: u8,
    key: [u8; 6],
    uid: [u8; 4],
    os: Seq<RegOutcome>,
    res: Result<CommReplyView, Rc522Error>,
    status: u8,
)
    requires
        comm_ends(exchange_of(CMD_MF_AUTHENT, auth_packet(key_type, block_addr, key, uid), Seq::empty()), os, res),
    ensures
        authenticate_start(op, key_type, block_addr, key, uid).1 == OpStep::Reg(comm_first(CMD_MF_AUTHENT)),
        res is Ok ==> op_run(authenticate_start(op, key_type, block_addr, key, uid).0, os + seq![
            Ok::<u8, Rc522Error>(status),
        ]).1 == comm_requests(
            comm_run(exchange_of(CMD_MF_AUTHENT, auth_packet(key_type, block_addr, key, uid), Seq::empty()), os).1.drop_last(),
        ).push(OpStep::Reg(RegReq::Read { reg: REG_STATUS2 })).push(
            OpStep::Finish(
                if status & 0x08u8 == 0 {
                    Err(Rc522Error::Authentication)
                } else {
                    Ok(Rc522Output::Unit)
                },
            ),
        ),
        res matches Err(e) ==> op_run(authenticate_start(op, key_type, block_addr, key, uid).0, os).1
            == comm_requests(
            comm_run(exchange_of(CMD_MF_AUTHENT, auth_packet(key_type, block_addr, key, uid), Seq::empty()), os).1.drop_last(),
        ).push(OpStep::Finish(Err(e))),
{
    let s0 = authenticate_start(op, key_type, block_addr, key, uid).0;
    let tail = seq![Ok::<u8, Rc522Error>(status)];
    lemma_op_run_split(s0, os, tail);
    lemma_comm_stage_run(s0, os, res);
    let s1 = op_run(s0, os).0;
    let t = op_next(s1, tail[0]);
    assert(tail.drop_first() =~= Seq::<RegOutcome>::empty());
    assert(op_run(t.0, tail.drop_first()) == (t.0, Seq::<OpStep>::empty()));
    assert(op_run(s1, tail).1 =~= seq![t.1]);
}

/// `write_block`, the command: the chip computes the CRC_A of
/// `[0xA0, addr]`; with its result `c` the card exchange sends
/// `[0xA0, addr, c[0], c[1]]` into a 1-byte buffer. Only when the card
/// answers with its ACK (four valid bits, low nibble 0xA) does the data's
/// CRC computation start; otherwise the operation ends with `Protocol`
/// after this one exchange (or with the exchange's error).
pub proof fn law_write_block_command_run(
    op: OpState,
    addr: u8,
    data: [u8; 16],
    cos: Seq<RegOutcome>,
    c: [u8; 2],
    os: Seq<RegOutcome>,
    res: Result<CommReplyView, Rc522Error>,
)
    requires
        crc_ends(crc_of(seq![PICC_WRITE, addr]), cos, Ok(c)),
        comm_ends(exchange_of(CMD_TRANSCEIVE, seq![PICC_WRITE, addr, c[0], c[1]], zeros(1)), os, res),
    ensures
        write_block_start(op, addr, data).1 == OpStep::Reg(crc_first()),
        op_run(write_block_start(op, addr, data).0, cos + os).1 == crc_requests(
            crc_run(crc_of(seq![PICC_WRITE, addr]), cos).1.drop_last(),
        ).push(OpStep::Reg(comm_first(CMD_TRANSCEIVE))) + comm_requests(
            comm_run(exchange_of(CMD_TRANSCEIVE, seq![PICC_WRITE, addr, c[0], c[1]], zeros(1)), os).1.drop_last(),
        ).push(
            match res {
                Ok(r) => if ack_ok(r) {
                    OpStep::Reg(crc_first())
                } else {
                    OpStep::Finish(Err(Rc522Error::Protocol))
                },
                Err(e) => OpStep::Finish(Err(e)),
            },
        ),
        match res {
            Ok(r) => ack_ok(r) ==> op_run(write_block_start(op, addr, data).0, cos + os).0.stage == (Stage::WriteDataCrc {
                data,
                ack: r.back[0],
            }) && op_run(write_block_start(op, addr, data).0, cos + os).0.crc == crc_of(data@),
            Err(_) => true,
        },
{
    let s0 = write_block_start(op, addr, data).0;
    lemma_op_run_split(s0, cos, os);
    lemma_crc_stage_run(s0, cos, Ok(c));
    lemma_comm_stage_run(op_run(s0, cos).0, os, res);
}

/// `write_block`, the data: from the data's CRC stage, the chip computes
/// the CRC_A of the 16 bytes; with its result `c` the card exchange sends
/// the bytes and `c`. The write succeeds exactly when the card answers with
/// its ACK, else ends with `Protocol` (or with the exchange's error).
pub proof fn law_write_block_data_run(
    s: OpState,
    data: [u8; 16],
    ack: u8,
    cos: Seq<RegOutcome>,
    c: [u8; 2],
    os: Seq<RegOutcome>,
    res: Result<CommReplyView, Rc522Error>,
)
    requires
        s.stage == (Stage::WriteDataCrc { data, ack }),
        s.crc == crc_of(data@),
        crc_ends(crc_of(data@), cos, Ok(c)),
        comm_ends(exchange_of(CMD_TRANSCEIVE, data@ + seq![c[0], c[1]], seq![ack]), os, res),
    ensures
        op_run(s, cos + os).1 == crc_requests(crc_run(crc_of(data@), cos).1.drop_last()).push(
            OpStep::Reg(comm_first(CMD_TRANSCEIVE)),
        ) + comm_requests(comm_run(exchange_of(CMD_TRANSCEIVE, data@ + seq![c[0], c[1]], seq![ack]), os).1.drop_last()).push(
            OpStep::Finish(
                match res {
                    Ok(r) => if ack_ok(r) {
                        Ok(Rc522Output::Unit)
                    } else {
                        Err(Rc522Error::Protocol)
                    },
                    Err(e) => Err(e),
                },
            ),
        ),
{
    lemma_op_run_split(s, cos, os);
    lemma_crc_stage_run(s, cos, Ok(c));
    lemma_comm_stage_run(op_run(s, cos).0, os, res);
}

} // verus!
