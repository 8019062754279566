//! The RC522's register interface and the two exchanges every card command
//! goes through: computing a CRC in the chip and talking to the card.
//!
//! Each exchange is a step machine over register accesses: it asks for one
//! register read or write at a time and takes the outcome of the last one.

use vstd::prelude::*;

verus! {

/// Command register.
pub const REG_COMMAND: u8 = 0x01;
/// Interrupt enable register.
pub const REG_COMM_IE_N: u8 = 0x02;
/// Interrupt request register.
pub const REG_COMM_IRQ: u8 = 0x04;
/// Divider interrupt request register (CRC done).
pub const REG_DIV_IRQ: u8 = 0x05;
/// Error register.
pub const REG_ERROR: u8 = 0x06;
/// Status register 2 (crypto unit on).
pub const REG_STATUS2: u8 = 0x08;
/// FIFO data register.
pub const REG_FIFO_DATA: u8 = 0x09;
/// FIFO level register.
pub const REG_FIFO_LEVEL: u8 = 0x0A;
/// Control register (valid bits of the last byte).
pub const REG_CONTROL: u8 = 0x0C;
/// Bit framing register.
pub const REG_BIT_FRAMING: u8 = 0x0D;
/// CRC result, high byte.
pub const REG_CRC_RESULT_H: u8 = 0x21;
/// CRC result, low byte.
pub const REG_CRC_RESULT_L: u8 = 0x22;
/// Command: do nothing.
pub const CMD_IDLE: u8 = 0x00;
/// Command: compute a CRC over the FIFO.
pub const CMD_CALC_CRC: u8 = 0x03;
/// Command: send the FIFO and receive the answer.
pub const CMD_TRANSCEIVE: u8 = 0x0C;
/// Command: MIFARE authentication.
pub const CMD_MF_AUTHENT: u8 = 0x0E;
/// Register polls of a card exchange before it gives up.
pub const COMM_POLL_LIMIT: u32 = 2500;
/// Register polls of a CRC computation before it gives up.
pub const CRC_POLL_LIMIT: u32 = 0xFF;

/// Why an RC522 operation failed.
#[derive(Debug, Clone, Copy, PartialEq, Eq)]
pub enum Rc522Error {
    Spi,
    Pin,
    Timeout,
    Collision,
    Crc,
    Protocol,
    Authentication,
    BufferTooSmall,
}

/// A register access that an exchange asks for, or a delay.
#[derive(Debug, Clone, Copy, PartialEq, Eq)]
pub enum RegReq {
    Write { reg: u8, value: u8 },
    Read { reg: u8 },
    DelayMs(u32),
}

/// The outcome of a register access: the value read (0 after a write or a
/// delay), or the error.
pub type RegOutcome = Result<u8, Rc522Error>;

/// The SPI address byte that writes register `reg`: the register in bits 6-1.
pub open spec fn write_addr(reg: u8) -> u8 {
    ((2 * reg as nat) % 128) as u8
}

/// The SPI address byte that reads register `reg`: bit 7 set.
pub open spec fn read_addr(reg: u8) -> u8 {
    (write_addr(reg) + 128) as u8
}

/// The address byte that writes `reg`.
pub fn write_address(reg: u8) -> (a: u8)
    ensures
        a == write_addr(reg),
{
    let a = (reg << 1u8) & 0x7E;
    assert(a == (2 * reg as nat) % 128) by (bit_vector)
        requires
            a == (reg << 1u8) & 0x7E,
    ;
    a
}

/// The address byte that reads `reg`.
pub fn read_address(reg: u8) -> (a: u8)
    ensures
        a == read_addr(reg),
{
    let a = ((reg << 1u8) & 0x7E) | 0x80;
    assert(a == (2 * reg as nat) % 128 + 128) by (bit_vector)
        requires
            a == ((reg << 1u8) & 0x7E) | 0x80,
    ;
    a
}

// ---------------------------------------------------------------- CRC

/// Where a CRC computation stands: which access it waits on.
#[derive(Debug, Clone, Copy, PartialEq, Eq)]
pub enum CrcPhase {
    /// Command register set to idle.
    Stop,
    /// Divider interrupts read, to clear the CRC bit.
    ClearRead,
    /// Divider interrupts written back without the CRC bit.
    ClearWrite,
    /// FIFO level read, to flush the FIFO.
    FlushRead,
    /// FIFO level written back with the flush bit.
    FlushWrite,
    /// Byte `i` of the data written to the FIFO.
    Fill { i: usize },
    /// CRC command written.
    Calc,
    /// Divider interrupts read; `left` polls remain.
    Poll { left: u32 },
    /// Low result byte read.
    Low,
    /// High result byte read, after the low byte `lsb`.
    High { lsb: u8 },
    /// Over.
    Done,
}

/// A CRC computation's state: the data and the phase.
pub struct CrcState {
    pub data: Seq<u8>,
    pub phase: CrcPhase,
}

/// What a CRC computation asks for next, or its outcome.
#[derive(Debug, Clone, Copy, PartialEq, Eq)]
pub enum CrcStep {
    Reg(RegReq),
    Finish(Result<[u8; 2], Rc522Error>),
}

/// The first access of a CRC computation.
pub open spec fn crc_first() -> RegReq {
    RegReq::Write { reg: REG_COMMAND, value: CMD_IDLE }
}

/// The step after the last data byte (or the flush when there is none).
pub open spec fn crc_after_fill(s: CrcState, next: int) -> (CrcState, CrcStep) {
    if next < s.data.len() {
        (
            CrcState { phase: CrcPhase::Fill { i: next as usize }, ..s },
            CrcStep::Reg(RegReq::Write { reg: REG_FIFO_DATA, value: s.data[next] }),
        )
    } else {
        (
            CrcState { phase: CrcPhase::Calc, ..s },
            CrcStep::Reg(RegReq::Write { reg: REG_COMMAND, value: CMD_CALC_CRC }),
        )
    }
}

/// One step of a CRC computation: stop the chip, clear the CRC interrupt,
/// flush the FIFO, fill it with the data, start the computation, poll for
/// the CRC interrupt at most `CRC_POLL_LIMIT` times, then read the result,
/// low byte first. A failed access ends it with that error.
pub open spec fn crc_next(s: CrcState, o: RegOutcome) -> (CrcState, CrcStep) {
    match o {
        Err(e) => (CrcState { phase: CrcPhase::Done, ..s }, CrcStep::Finish(Err(e))),
        Ok(v) => match s.phase {
            CrcPhase::Stop => (
                CrcState { phase: CrcPhase::ClearRead, ..s },
                CrcStep::Reg(RegReq::Read { reg: REG_DIV_IRQ }),
            ),
            CrcPhase::ClearRead => (
                CrcState { phase: CrcPhase::ClearWrite, ..s },
                CrcStep::Reg(RegReq::Write { reg: REG_DIV_IRQ, value: v & !0x04u8 }),
            ),
            CrcPhase::ClearWrite => (
                CrcState { phase: CrcPhase::FlushRead, ..s },
                CrcStep::Reg(RegReq::Read { reg: REG_FIFO_LEVEL }),
            ),
            CrcPhase::FlushRead => (
                CrcState { phase: CrcPhase::FlushWrite, ..s },
                CrcStep::Reg(RegReq::Write { reg: REG_FIFO_LEVEL, value: v | 0x80u8 }),
            ),
            CrcPhase::FlushWrite => crc_after_fill(s, 0),
            CrcPhase::Fill { i } => crc_after_fill(s, i + 1),
            CrcPhase::Calc => (
                CrcState { phase: CrcPhase::Poll { left: CRC_POLL_LIMIT }, ..s },
                CrcStep::Reg(RegReq::Read { reg: REG_DIV_IRQ }),
            ),
            CrcPhase::Poll { left } => if v & 0x04u8 != 0 {
                (
                    CrcState { phase: CrcPhase::Low, ..s },
                    CrcStep::Reg(RegReq::Read { reg: REG_CRC_RESULT_L }),
                )
            } else if left - 1 == 0 {
                (CrcState { phase: CrcPhase::Done, ..s }, CrcStep::Finish(Err(Rc522Error::Timeout)))
            } else {
                (
                    CrcState { phase: CrcPhase::Poll { left: (left - 1) as u32 }, ..s },
                    CrcStep::Reg(RegReq::Read { reg: REG_DIV_IRQ }),
                )
            },
            CrcPhase::Low => (
                CrcState { phase: CrcPhase::High { lsb: v }, ..s },
                CrcStep::Reg(RegReq::Read { reg: REG_CRC_RESULT_H }),
            ),
            CrcPhase::High { lsb } => (
                CrcState { phase: CrcPhase::Done, ..s },
                CrcStep::Finish(Ok([lsb, v])),
            ),
            CrcPhase::Done => (s, CrcStep::Finish(Err(Rc522Error::Protocol))),
        },
    }
}

/// The invariant of a CRC computation: a data byte index lies in the data,
/// a poll count in 1..=`CRC_POLL_LIMIT`.
pub open spec fn crc_wf(s: CrcState) -> bool {
    &&& s.data.len() <= usize::MAX
    &&& match s.phase {
        CrcPhase::Fill { i } => i < s.data.len(),
        CrcPhase::Poll { left } => 1 <= left <= CRC_POLL_LIMIT,
        _ => true,
    }
}

/// A CRC computation in the chip.
pub struct CrcOp {
    data: Vec<u8>,
    phase: CrcPhase,
}

impl CrcOp {
    /// Its state.
    pub closed spec fn view_state(&self) -> CrcState {
        CrcState { data: self.data@, phase: self.phase }
    }

    /// A computation over `data`, and its first access.
    pub fn start(data: Vec<u8>) -> (r: (CrcOp, RegReq))
        ensures
            r.0.view_state() == (CrcState { data: data@, phase: CrcPhase::Stop }),
            r.1 == crc_first(),
            crc_wf(r.0.view_state()),
    {
        proof {
            assert(data@.len() == data.len());
        }
        (CrcOp { data, phase: CrcPhase::Stop }, RegReq::Write { reg: REG_COMMAND, value: CMD_IDLE })
    }

    fn after_fill(&mut self, next: usize) -> (r: CrcStep)
        requires
            next <= old(self).data@.len(),
        ensures
            (final(self).view_state(), r) == crc_after_fill(old(self).view_state(), next as int),
            crc_wf(final(self).view_state()),
    {
        if next < self.data.len() {
            self.phase = CrcPhase::Fill { i: next };
            CrcStep::Reg(RegReq::Write { reg: REG_FIFO_DATA, value: self.data[next] })
        } else {
            self.phase = CrcPhase::Calc;
            CrcStep::Reg(RegReq::Write { reg: REG_COMMAND, value: CMD_CALC_CRC })
        }
    }

    /// Takes the outcome of the last access and returns the next step.
    pub fn step(&mut self, o: RegOutcome) -> (r: CrcStep)
        requires
            crc_wf(old(self).view_state()),
        ensures
            (final(self).view_state(), r) == crc_next(old(self).view_state(), o),
            crc_wf(final(self).view_state()),
    {
        let v = match o {
            Err(e) => {
                self.phase = CrcPhase::Done;
                return CrcStep::Finish(Err(e));
            },
            Ok(v) => v,
        };
        match self.phase {
            CrcPhase::Stop => {
                self.phase = CrcPhase::ClearRead;
                CrcStep::Reg(RegReq::Read { reg: REG_DIV_IRQ })
            },
            CrcPhase::ClearRead => {
                self.phase = CrcPhase::ClearWrite;
                CrcStep::Reg(RegReq::Write { reg: REG_DIV_IRQ, value: v & !0x04u8 })
            },
            CrcPhase::ClearWrite => {
                self.phase = CrcPhase::FlushRead;
                CrcStep::Reg(RegReq::Read { reg: REG_FIFO_LEVEL })
            },
            CrcPhase::FlushRead => {
                self.phase = CrcPhase::FlushWrite;
                CrcStep::Reg(RegReq::Write { reg: REG_FIFO_LEVEL, value: v | 0x80u8 })
            },
            CrcPhase::FlushWrite => self.after_fill(0),
            CrcPhase::Fill { i } => self.after_fill(i + 1),
            CrcPhase::Calc => {
                self.phase = CrcPhase::Poll { left: CRC_POLL_LIMIT };
                CrcStep::Reg(RegReq::Read { reg: REG_DIV_IRQ })
            },
            CrcPhase::Poll { left } => {
                if v & 0x04u8 != 0 {
                    self.phase = CrcPhase::Low;
                    CrcStep::Reg(RegReq::Read { reg: REG_CRC_RESULT_L })
                } else if left - 1 == 0 {
                    self.phase = CrcPhase::Done;
                    CrcStep::Finish(Err(Rc522Error::Timeout))
                } else {
                    self.phase = CrcPhase::Poll { left: left - 1 };
                    CrcStep::Reg(RegReq::Read { reg: REG_DIV_IRQ })
                }
            },
            CrcPhase::Low => {
                self.phase = CrcPhase::High { lsb: v };
                CrcStep::Reg(RegReq::Read { reg: REG_CRC_RESULT_H })
            },
            CrcPhase::High { lsb } => {
                self.phase = CrcPhase::Done;
                CrcStep::Finish(Ok([lsb, v]))
            },
            CrcPhase::Done => CrcStep::Finish(Err(Rc522Error::Protocol)),
        }
    }
}

// ---------------------------------------------------------------- card exchange

/// Where a card exchange stands: which access it waits on.
#[derive(Debug, Clone, Copy, PartialEq, Eq)]
pub enum CommPhase {
    /// Interrupt enable register written.
    EnableIrq,
    /// Interrupt requests read, to clear them.
    ClearRead,
    /// Interrupt requests written back without the set bit.
    ClearWrite,
    /// FIFO level read, to flush the FIFO.
    FlushRead,
    /// FIFO level written back with the flush bit.
    FlushWrite,
    /// Command register set to idle.
    Stop,
    /// Byte `i` of the frame written to the FIFO.
    Fill { i: usize },
    /// Command written.
    Start,
    /// Bit framing read, to start the transmission.
    FramingRead,
    /// Bit framing written back with the start bit.
    FramingWrite,
    /// Interrupt requests read; `left` polls remain.
    Poll { left: u32 },
    /// Bit framing read, to stop the transmission.
    StopFramingRead,
    /// Bit framing written back without the start bit.
    StopFramingWrite,
    /// Error register read.
    Error,
    /// FIFO level read.
    Level,
    /// Answer byte `i` read from the FIFO, of `count`.
    Drain { i: usize, count: usize },
    /// Control register read, after `count` answer bytes.
    Control { count: usize },
    /// Over.
    Done,
}

/// A card exchange's state: the command, the frame to send, the answer
/// buffer, and the phase.
pub struct CommState {
    pub command: u8,
    pub send: Seq<u8>,
    pub back: Seq<u8>,
    pub phase: CommPhase,
}

/// The outcome of an exchange: the number of answer bytes, the number of
/// valid bits in the last one (0 for all eight), and the answer buffer with
/// the answer written over its start.
#[derive(Debug)]
pub struct CommReply {
    pub len: usize,
    pub valid_bits: u8,
    pub back: Vec<u8>,
}

/// A [`CommReply`] with its buffer taken as a sequence.
pub struct CommReplyView {
    pub len: nat,
    pub valid_bits: u8,
    pub back: Seq<u8>,
}

impl View for CommReply {
    type V = CommReplyView;

    open spec fn view(&self) -> CommReplyView {
        CommReplyView { len: self.len as nat, valid_bits: self.valid_bits, back: self.back@ }
    }
}

/// What an exchange asks for next, or its outcome.
#[derive(Debug)]
pub enum CommStep {
    Reg(RegReq),
    Finish(Result<CommReply, Rc522Error>),
}

/// A [`CommStep`] with its buffer taken as a sequence.
pub enum CommStepView {
    Reg(RegReq),
    Finish(Result<CommReplyView, Rc522Error>),
}

impl View for CommStep {
    type V = CommStepView;

    open spec fn view(&self) -> CommStepView {
        match self {
            CommStep::Reg(r) => CommStepView::Reg(*r),
            CommStep::Finish(Ok(c)) => CommStepView::Finish(Ok(c@)),
            CommStep::Finish(Err(e)) => CommStepView::Finish(Err(*e)),
        }
    }
}

/// The interrupts enabled for `command`.
pub open spec fn irq_enable(command: u8) -> u8 {
    if command == CMD_MF_AUTHENT {
        0x12
    } else {
        0x77
    }
}

/// The interrupts that end the wait for `command`.
pub open spec fn irq_wait(command: u8) -> u8 {
    if command == CMD_MF_AUTHENT {
        0x10
    } else {
        0x30
    }
}

/// The first access of an exchange of `command`.
pub open spec fn comm_first(command: u8) -> RegReq {
    RegReq::Write { reg: REG_COMM_IE_N, value: irq_enable(command) | 0x80u8 }
}

/// The error that the error register's value `err` stands for, if any.
pub open spec fn comm_error(err: u8) -> Option<Rc522Error> {
    if err & 0x13u8 != 0 {
        if err & 0x08u8 != 0 {
            Some(Rc522Error::Collision)
        } else {
            Some(Rc522Error::Protocol)
        }
    } else {
        None
    }
}

/// The step after frame byte `next - 1` (or the flush when `next` is 0).
pub open spec fn comm_after_fill(s: CommState, next: int) -> (CommState, CommStepView) {
    if next < s.send.len() {
        (
            CommState { phase: CommPhase::Fill { i: next as usize }, ..s },
            CommStepView::Reg(RegReq::Write { reg: REG_FIFO_DATA, value: s.send[next] }),
        )
    } else {
        (
            CommState { phase: CommPhase::Start, ..s },
            CommStepView::Reg(RegReq::Write { reg: REG_COMMAND, value: s.command }),
        )
    }
}

/// The step after answer byte `next - 1` (or the FIFO level when `next` is 0).
pub open spec fn comm_after_drain(s: CommState, next: int, count: usize) -> (CommState, CommStepView) {
    if next < count {
        (
            CommState { phase: CommPhase::Drain { i: next as usize, count }, ..s },
            CommStepView::Reg(RegReq::Read { reg: REG_FIFO_DATA }),
        )
    } else {
        (
            CommState { phase: CommPhase::Control { count }, ..s },
            CommStepView::Reg(RegReq::Read { reg: REG_CONTROL }),
        )
    }
}

/// One step of a card exchange.
///
/// Enable the command's interrupts, clear the interrupt requests, flush the
/// FIFO, stop the chip, write the frame to the FIFO, start the command (and
/// for a transceive, the transmission). Then poll the interrupt requests:
/// the command's interrupts end the wait, the timer interrupt or
/// `COMM_POLL_LIMIT` polls end the exchange with `Timeout`. Stop the
/// transmission and read the error register: a collision, a parity error or
/// a buffer overflow ends it with `Collision` (collision bit set) or
/// `Protocol`. A transceive then reads the FIFO level (`BufferTooSmall` when
/// it exceeds the buffer), the answer bytes into the buffer, and the valid
/// bits of the last byte; other commands end with no answer. A failed access
/// ends the exchange with that error.
pub open spec fn comm_next(s: CommState, o: RegOutcome) -> (CommState, CommStepView) {
    match o {
        Err(e) => (CommState { phase: CommPhase::Done, ..s }, CommStepView::Finish(Err(e))),
        Ok(v) => match s.phase {
            CommPhase::EnableIrq => (
                CommState { phase: CommPhase::ClearRead, ..s },
                CommStepView::Reg(RegReq::Read { reg: REG_COMM_IRQ }),
            ),
            CommPhase::ClearRead => (
                CommState { phase: CommPhase::ClearWrite, ..s },
                CommStepView::Reg(RegReq::Write { reg: REG_COMM_IRQ, value: v & !0x80u8 }),
            ),
            CommPhase::ClearWrite => (
                CommState { phase: CommPhase::FlushRead, ..s },
                CommStepView::Reg(RegReq::Read { reg: REG_FIFO_LEVEL }),
            ),
            CommPhase::FlushRead => (
                CommState { phase: CommPhase::FlushWrite, ..s },
                CommStepView::Reg(RegReq::Write { reg: REG_FIFO_LEVEL, value: v | 0x80u8 }),
            ),
            CommPhase::FlushWrite => (
                CommState { phase: CommPhase::Stop, ..s },
                CommStepView::Reg(RegReq::Write { reg: REG_COMMAND, value: CMD_IDLE }),
            ),
            CommPhase::Stop => comm_after_fill(s, 0),
            CommPhase::Fill { i } => comm_after_fill(s, i + 1),
            CommPhase::Start => if s.command == CMD_TRANSCEIVE {
                (
                    CommState { phase: CommPhase::FramingRead, ..s },
                    CommStepView::Reg(RegReq::Read { reg: REG_BIT_FRAMING }),
                )
            } else {
                (
                    CommState { phase: CommPhase::Poll { left: COMM_POLL_LIMIT }, ..s },
                    CommStepView::Reg(RegReq::Read { reg: REG_COMM_IRQ }),
                )
            },
            CommPhase::FramingRead => (
                CommState { phase: CommPhase::FramingWrite, ..s },
                CommStepView::Reg(RegReq::Write { reg: REG_BIT_FRAMING, value: v | 0x80u8 }),
            ),
            CommPhase::FramingWrite => (
                CommState { phase: CommPhase::Poll { left: COMM_POLL_LIMIT }, ..s },
                CommStepView::Reg(RegReq::Read { reg: REG_COMM_IRQ }),
            ),
            CommPhase::Poll { left } => if v & irq_wait(s.command) != 0 {
                (
                    CommState { phase: CommPhase::StopFramingRead, ..s },
                    CommStepView::Reg(RegReq::Read { reg: REG_BIT_FRAMING }),
                )
            } else if v & 0x01u8 != 0 || left - 1 == 0 {
                (CommState { phase: CommPhase::Done, ..s }, CommStepView::Finish(Err(Rc522Error::Timeout)))
            } else {
                (
                    CommState { phase: CommPhase::Poll { left: (left - 1) as u32 }, ..s },
                    CommStepView::Reg(RegReq::Read { reg: REG_COMM_IRQ }),
                )
            },
            CommPhase::StopFramingRead => (
                CommState { phase: CommPhase::StopFramingWrite, ..s },
                CommStepView::Reg(RegReq::Write { reg: REG_BIT_FRAMING, value: v & !0x80u8 }),
            ),
            CommPhase::StopFramingWrite => (
                CommState { phase: CommPhase::Error, ..s },
                CommStepView::Reg(RegReq::Read { reg: REG_ERROR }),
            ),
            CommPhase::Error => match comm_error(v) {
                Some(e) => (CommState { phase: CommPhase::Done, ..s }, CommStepView::Finish(Err(e))),
                None => if s.command == CMD_TRANSCEIVE {
                    (
                        CommState { phase: CommPhase::Level, ..s },
                        CommStepView::Reg(RegReq::Read { reg: REG_FIFO_LEVEL }),
                    )
                } else {
                    (
                        CommState { phase: CommPhase::Done, back: Seq::empty(), ..s },
                        CommStepView::Finish(Ok(CommReplyView { len: 0, valid_bits: 0, back: s.back })),
                    )
                },
            },
            CommPhase::Level => if v as nat > s.back.len() {
                (CommState { phase: CommPhase::Done, ..s }, CommStepView::Finish(Err(Rc522Error::BufferTooSmall)))
            } else {
                comm_after_drain(s, 0, v as usize)
            },
            CommPhase::Drain { i, count } => comm_after_drain(
                CommState { back: s.back.update(i as int, v), ..s },
                i + 1,
                count,
            ),
            CommPhase::Control { count } => (
                CommState { phase: CommPhase::Done, back: Seq::empty(), ..s },
                CommStepView::Finish(Ok(CommReplyView { len: count as nat, valid_bits: v & 0x07u8, back: s.back })),
            ),
            CommPhase::Done => (s, CommStepView::Finish(Err(Rc522Error::Protocol))),
        },
    }
}

/// The invariant of an exchange: indices lie in the frame and the buffer, a
/// poll count in 1..=`COMM_POLL_LIMIT`.
pub open spec fn comm_wf(s: CommState) -> bool {
    &&& s.send.len() <= usize::MAX
    &&& match s.phase {
        CommPhase::Fill { i } => i < s.send.len(),
        CommPhase::Poll { left } => 1 <= left <= COMM_POLL_LIMIT,
        CommPhase::Drain { i, count } => i < count <= s.back.len(),
        CommPhase::Control { count } => count <= s.back.len(),
        _ => true,
    }
}

/// An exchange with the card.
pub struct CommOp {
    command: u8,
    send: Vec<u8>,
    back: Vec<u8>,
    phase: CommPhase,
}

impl CommOp {
    /// Its state.
    pub closed spec fn view_state(&self) -> CommState {
        CommState { command: self.command, send: self.send@, back: self.back@, phase: self.phase }
    }

    /// An exchange of `command` sending `send`, answering into `back`, and
    /// its first access.
    pub fn start(command: u8, send: Vec<u8>, back: Vec<u8>) -> (r: (CommOp, RegReq))
        ensures
            r.0.view_state() == (CommState {
                command,
                send: send@,
                back: back@,
                phase: CommPhase::EnableIrq,
            }),
            r.1 == comm_first(command),
            comm_wf(r.0.view_state()),
    {
        proof {
            assert(send@.len() == send.len());
        }
        let irq_en: u8 = if command == CMD_MF_AUTHENT { 0x12 } else { 0x77 };
        (
            CommOp { command, send, back, phase: CommPhase::EnableIrq },
            RegReq::Write { reg: REG_COMM_IE_N, value: irq_en | 0x80u8 },
        )
    }

    fn after_fill(&mut self, next: usize) -> (r: CommStep)
        requires
            next <= old(self).send@.len(),
        ensures
            (final(self).view_state(), r@) == comm_after_fill(old(self).view_state(), next as int),
            comm_wf(final(self).view_state()),
    {
        if next < self.send.len() {
            self.phase = CommPhase::Fill { i: next };
            CommStep::Reg(RegReq::Write { reg: REG_FIFO_DATA, value: self.send[next] })
        } else {
            self.phase = CommPhase::Start;
            CommStep::Reg(RegReq::Write { reg: REG_COMMAND, value: self.command })
        }
    }

    fn after_drain(&mut self, next: usize, count: usize) -> (r: CommStep)
        requires
            next <= count <= old(self).back@.len(),
            old(self).send@.len() <= usize::MAX,
        ensures
            (final(self).view_state(), r@) == comm_after_drain(old(self).view_state(), next as int, count),
            comm_wf(final(self).view_state()),
    {
        if next < count {
            self.phase = CommPhase::Drain { i: next, count };
            CommStep::Reg(RegReq::Read { reg: REG_FIFO_DATA })
        } else {
            self.phase = CommPhase::Control { count };
            CommStep::Reg(RegReq::Read { reg: REG_CONTROL })
        }
    }

    fn take_back(&mut self) -> (b: Vec<u8>)
        ensures
            b@ == old(self).back@,
            final(self).back@ == Seq::<u8>::empty(),
            final(self).command == old(self).command,
            final(self).send == old(self).send,
            final(self).phase == old(self).phase,
    {
        let mut b = Vec::new();
        core::mem::swap(&mut b, &mut self.back);
        b
    }

    /// Takes the outcome of the last access and returns the next step.
    pub fn step(&mut self, o: RegOutcome) -> (r: CommStep)
        requires
            comm_wf(old(self).view_state()),
        ensures
            (final(self).view_state(), r@) == comm_next(old(self).view_state(), o),
            comm_wf(final(self).view_state()),
    {
        let v = match o {
            Err(e) => {
                self.phase = CommPhase::Done;
                return CommStep::Finish(Err(e));
            },
            Ok(v) => v,
        };
        match self.phase {
            CommPhase::EnableIrq => {
                self.phase = CommPhase::ClearRead;
                CommStep::Reg(RegReq::Read { reg: REG_COMM_IRQ })
            },
            CommPhase::ClearRead => {
                self.phase = CommPhase::ClearWrite;
                CommStep::Reg(RegReq::Write { reg: REG_COMM_IRQ, value: v & !0x80u8 })
            },
            CommPhase::ClearWrite => {
                self.phase = CommPhase::FlushRead;
                CommStep::Reg(RegReq::Read { reg: REG_FIFO_LEVEL })
            },
            CommPhase::FlushRead => {
                self.phase = CommPhase::FlushWrite;
                CommStep::Reg(RegReq::Write { reg: REG_FIFO_LEVEL, value: v | 0x80u8 })
            },
            CommPhase::FlushWrite => {
                self.phase = CommPhase::Stop;
                CommStep::Reg(RegReq::Write { reg: REG_COMMAND, value: CMD_IDLE })
            },
            CommPhase::Stop => self.after_fill(0),
            CommPhase::Fill { i } => self.after_fill(i + 1),
            CommPhase::Start => {
                if self.command == CMD_TRANSCEIVE {
                    self.phase = CommPhase::FramingRead;
                    CommStep::Reg(RegReq::Read { reg: REG_BIT_FRAMING })
                } else {
                    self.phase = CommPhase::Poll { left: COMM_POLL_LIMIT };
                    CommStep::Reg(RegReq::Read { reg: REG_COMM_IRQ })
                }
            },
            CommPhase::FramingRead => {
                self.phase = CommPhase::FramingWrite;
                CommStep::Reg(RegReq::Write { reg: REG_BIT_FRAMING, value: v | 0x80u8 })
            },
            CommPhase::FramingWrite => {
                self.phase = CommPhase::Poll { left: COMM_POLL_LIMIT };
                CommStep::Reg(RegReq::Read { reg: REG_COMM_IRQ })
            },
            CommPhase::Poll { left } => {
                let wait_irq: u8 = if self.command == CMD_MF_AUTHENT { 0x10 } else { 0x30 };
                if v & wait_irq != 0 {
                    self.phase = CommPhase::StopFramingRead;
                    CommStep::Reg(RegReq::Read { reg: REG_BIT_FRAMING })
                } else if v & 0x01u8 != 0 || left - 1 == 0 {
                    self.phase = CommPhase::Done;
                    CommStep::Finish(Err(Rc522Error::Timeout))
                } else {
                    self.phase = CommPhase::Poll { left: left - 1 };
                    CommStep::Reg(RegReq::Read { reg: REG_COMM_IRQ })
                }
            },
            CommPhase::StopFramingRead => {
                self.phase = CommPhase::StopFramingWrite;
                CommStep::Reg(RegReq::Write { reg: REG_BIT_FRAMING, value: v & !0x80u8 })
            },
            CommPhase::StopFramingWrite => {
                self.phase = CommPhase::Error;
                CommStep::Reg(RegReq::Read { reg: REG_ERROR })
            },
            CommPhase::Error => {
                if v & 0x13u8 != 0 {
                    self.phase = CommPhase::Done;
                    if v & 0x08u8 != 0 {
                        CommStep::Finish(Err(Rc522Error::Collision))
                    } else {
                        CommStep::Finish(Err(Rc522Error::Protocol))
                    }
                } else if self.command == CMD_TRANSCEIVE {
                    self.phase = CommPhase::Level;
                    CommStep::Reg(RegReq::Read { reg: REG_FIFO_LEVEL })
                } else {
                    self.phase = CommPhase::Done;
                    let back = self.take_back();
                    CommStep::Finish(Ok(CommReply { len: 0, valid_bits: 0, back }))
                }
            },
            CommPhase::Level => {
                let level = v as usize;
                if level > self.back.len() {
                    self.phase = CommPhase::Done;
                    CommStep::Finish(Err(Rc522Error::BufferTooSmall))
                } else {
                    self.after_drain(0, level)
                }
            },
            CommPhase::Drain { i, count } => {
                self.back.set(i, v);
                self.after_drain(i + 1, count)
            },
            CommPhase::Control { count } => {
                self.phase = CommPhase::Done;
                let back = self.take_back();
                CommStep::Finish(Ok(CommReply { len: count, valid_bits: v & 0x07u8, back }))
            },
            CommPhase::Done => CommStep::Finish(Err(Rc522Error::Protocol)),
        }
    }
}

/// The address byte of a register (below 64): a write's has bits 7 and 0
/// clear, a read's is the same with bit 7 set, and distinct registers have
/// distinct addresses.
pub proof fn law_register_addresses(a: u8, b: u8)
    requires
        a < 64,
        b < 64,
    ensures
        write_addr(a) == 2 * a,
        write_addr(a) < 128 && write_addr(a) % 2 == 0,
        read_addr(a) == write_addr(a) + 128,
        a != b ==> write_addr(a) != write_addr(b) && read_addr(a) != read_addr(b),
{
}

/// A CRC computation polls for the result at most `CRC_POLL_LIMIT` times:
/// a poll with none left ends it with `Timeout`.
pub proof fn law_crc_poll_bounded(s: CrcState, o: RegOutcome)
    requires
        crc_wf(s),
        s.phase matches CrcPhase::Poll { left } && left == 1,
        o matches Ok(v) && v & 0x04u8 == 0,
    ensures
        crc_next(s, o).1 == CrcStep::Finish(Err(Rc522Error::Timeout)),
{
}

/// An exchange fed the outcomes `os` in turn: the state it reaches and the
/// step it takes after each outcome.
pub open spec fn comm_run(s: CommState, os: Seq<RegOutcome>) -> (CommState, Seq<CommStepView>)
    decreases os.len(),
{
    if os.len() == 0 {
        (s, Seq::empty())
    } else {
        let (s1, st) = comm_next(s, os[0]);
        let (s2, sts) = comm_run(s1, os.drop_first());
        (s2, seq![st] + sts)
    }
}

/// Each byte of `vs` as the outcome of a successful access.
pub open spec fn reads_of(vs: Seq<u8>) -> Seq<RegOutcome> {
    vs.map_values(|v: u8| Ok::<u8, Rc522Error>(v))
}

/// `n` requests to read register `reg`.
pub open spec fn read_requests(n: nat, reg: u8) -> Seq<CommStepView> {
    Seq::new(n, |i: int| CommStepView::Reg(RegReq::Read { reg }))
}

proof fn lemma_reads_of_split(vs: Seq<u8>)
    requires
        vs.len() > 0,
    ensures
        reads_of(vs)[0] == Ok::<u8, Rc522Error>(vs[0]),
        reads_of(vs).drop_first() == reads_of(vs.drop_first()),
        reads_of(vs).len() == vs.len(),
{
    assert(reads_of(vs).drop_first() =~= reads_of(vs.drop_first()));
}

/// The poll gives up after exactly the reads it has left: when no read of
/// the interrupt register shows the command's interrupts or the timer, the
/// exchange reads it `left` times and then ends with `Timeout`, the answer
/// buffer untouched. An exchange enters the poll with `COMM_POLL_LIMIT`
/// reads left.
pub proof fn law_exchange_poll_runs_out(s: CommState, vs: Seq<u8>)
    requires
        comm_wf(s),
        s.phase matches CommPhase::Poll { left } && vs.len() == left,
        forall|i: int|
            0 <= i < vs.len() ==> #[trigger] (vs[i] & irq_wait(s.command)) == 0 && vs[i] & 0x01u8 == 0,
    ensures
        comm_run(s, reads_of(vs)).1 == read_requests((vs.len() - 1) as nat, REG_COMM_IRQ).push(
            CommStepView::Finish(Err(Rc522Error::Timeout)),
        ),
        comm_run(s, reads_of(vs)).0.back == s.back,
        comm_run(s, reads_of(vs)).0.phase is Done,
    decreases vs.len(),
{
    lemma_reads_of_split(vs);
    assert(vs[0] & irq_wait(s.command) == 0);
    let (s1, st) = comm_next(s, Ok(vs[0]));
    let rest = vs.drop_first();
    if vs.len() == 1 {
        assert(reads_of(rest) =~= Seq::<RegOutcome>::empty());
        assert(read_requests(0, REG_COMM_IRQ).push(CommStepView::Finish(Err(Rc522Error::Timeout)))
            =~= seq![st]);
    } else {
        assert forall|i: int| 0 <= i < rest.len() implies #[trigger] (rest[i] & irq_wait(s1.command)) == 0
            && rest[i] & 0x01u8 == 0 by {
            assert(vs[i + 1] & irq_wait(s.command) == 0);
        }
        law_exchange_poll_runs_out(s1, rest);
        assert(seq![st] + read_requests((rest.len() - 1) as nat, REG_COMM_IRQ).push(
            CommStepView::Finish(Err(Rc522Error::Timeout)),
        ) =~= read_requests((vs.len() - 1) as nat, REG_COMM_IRQ).push(
            CommStepView::Finish(Err(Rc522Error::Timeout)),
        ));
    }
}

/// The answer buffer after the FIFO bytes `fs` were read into it from
/// index `i` on.
pub open spec fn drained(back: Seq<u8>, i: int, fs: Seq<u8>) -> Seq<u8> {
    back.subrange(0, i) + fs + back.subrange(i + fs.len(), back.len() as int)
}

/// The steps of a transceive's end once `k` answer bytes remain to read:
/// the remaining FIFO reads, the control register, then the answer.
pub open spec fn drain_steps(k: nat, answer: CommReplyView) -> Seq<CommStepView> {
    read_requests(k, REG_FIFO_DATA).push(CommStepView::Reg(RegReq::Read { reg: REG_CONTROL })).push(
        CommStepView::Finish(Ok(answer)),
    )
}

proof fn lemma_drain(s: CommState, fs: Seq<u8>, control: u8)
    requires
        comm_wf(s),
        s.phase matches CommPhase::Drain { i, count } && fs.len() == count - i,
    ensures
        ({
            let (i, count) = match s.phase {
                CommPhase::Drain { i, count } => (i as int, count as nat),
                _ => (0, 0),
            };
            comm_run(s, reads_of(fs + seq![control])).1 == drain_steps(
                (fs.len() - 1) as nat,
                CommReplyView { len: count, valid_bits: control & 0x07u8, back: drained(s.back, i, fs) },
            )
        }),
    decreases fs.len(),
{
    let (i, count) = match s.phase {
        CommPhase::Drain { i, count } => (i, count),
        _ => (0, 0),
    };
    let os = fs + seq![control];
    lemma_reads_of_split(os);
    let (s1, st) = comm_next(s, Ok(fs[0]));
    let rest = fs.drop_first();
    assert(os.drop_first() =~= rest + seq![control]);
    if fs.len() == 1 {
        let os2 = rest + seq![control];
        assert(os2 =~= seq![control]);
        lemma_reads_of_split(os2);
        assert(reads_of(os2).drop_first() =~= Seq::<RegOutcome>::empty());
        assert(drained(s.back, i as int, fs) =~= s.back.update(i as int, fs[0]));
        let (s2, st2) = comm_next(s1, Ok(control));
        assert(comm_run(s2, reads_of(os2).drop_first()).1 =~= Seq::<CommStepView>::empty());
        assert(comm_run(s1, reads_of(os2)).1 =~= seq![st2]);
        assert(comm_run(s, reads_of(os)).1 =~= seq![st, st2]);
        assert(comm_run(s, reads_of(os)).1 =~= drain_steps(
            0,
            CommReplyView { len: count as nat, valid_bits: control & 0x07u8, back: drained(s.back, i as int, fs) },
        ));
    } else {
        lemma_drain(s1, rest, control);
        assert(drained(s1.back, i + 1, rest) =~= drained(s.back, i as int, fs));
        assert(seq![st] + drain_steps(
            (rest.len() - 1) as nat,
            CommReplyView { len: count as nat, valid_bits: control & 0x07u8, back: drained(s.back, i as int, fs) },
        ) =~= drain_steps(
            (fs.len() - 1) as nat,
            CommReplyView { len: count as nat, valid_bits: control & 0x07u8, back: drained(s.back, i as int, fs) },
        ));
    }
}

/// A transceive that found no error takes the answer: with `fs` in the FIFO
/// and room for them in the buffer, it reads the FIFO once per byte, then
/// the control register, and ends with `fs.len()` bytes written over the
/// front of the buffer and the valid bits of the last one. With more bytes
/// than room it ends with `BufferTooSmall`, the buffer untouched.
pub proof fn law_exchange_takes_answer(s: CommState, fs: Seq<u8>, control: u8, level: u8)
    requires
        comm_wf(s),
        s.phase is Level,
        fs.len() < 256,
        fs.len() <= s.back.len(),
    ensures
        comm_run(s, reads_of(seq![fs.len() as u8] + fs + seq![control])).1 == drain_steps(
            fs.len(),
            CommReplyView { len: fs.len(), valid_bits: control & 0x07u8, back: drained(s.back, 0, fs) },
        ),
        level > s.back.len() ==> comm_next(s, Ok(level)).1 == CommStepView::Finish(
            Err(Rc522Error::BufferTooSmall),
        ) && comm_next(s, Ok(level)).0.back == s.back,
{
    let n = fs.len() as u8;
    let os = seq![n] + fs + seq![control];
    lemma_reads_of_split(os);
    assert(os.drop_first() =~= fs + seq![control]);
    let (s1, st) = comm_next(s, Ok(n));
    if fs.len() == 0 {
        let os2 = fs + seq![control];
        assert(os2 =~= seq![control]);
        lemma_reads_of_split(os2);
        assert(reads_of(os2).drop_first() =~= Seq::<RegOutcome>::empty());
        assert(drained(s.back, 0, fs) =~= s.back);
        let (s2, st2) = comm_next(s1, Ok(control));
        assert(comm_run(s2, reads_of(os2).drop_first()).1 =~= Seq::<CommStepView>::empty());
        assert(comm_run(s1, reads_of(os2)).1 =~= seq![st2]);
        assert(comm_run(s, reads_of(os)).1 =~= seq![st, st2]);
        assert(comm_run(s, reads_of(os)).1 =~= drain_steps(
            0,
            CommReplyView { len: 0, valid_bits: control & 0x07u8, back: drained(s.back, 0, fs) },
        ));
    } else {
        lemma_drain(s1, fs, control);
        assert(seq![st] + drain_steps(
            (fs.len() - 1) as nat,
            CommReplyView { len: fs.len(), valid_bits: control & 0x07u8, back: drained(s.back, 0, fs) },
        ) =~= drain_steps(
            fs.len(),
            CommReplyView { len: fs.len(), valid_bits: control & 0x07u8, back: drained(s.back, 0, fs) },
        ));
    }
}

proof fn lemma_run_split(s: CommState, a: Seq<RegOutcome>, b: Seq<RegOutcome>)
    ensures
        comm_run(s, a + b).0 == comm_run(comm_run(s, a).0, b).0,
        comm_run(s, a + b).1 == comm_run(s, a).1 + comm_run(comm_run(s, a).0, b).1,
    decreases a.len(),
{
    if a.len() == 0 {
        assert(a + b =~= b);
        assert(comm_run(s, a).1 + comm_run(s, b).1 =~= comm_run(s, b).1);
    } else {
        let (s1, st) = comm_next(s, a[0]);
        assert((a + b).drop_first() =~= a.drop_first() + b);
        assert((a + b)[0] == a[0]);
        lemma_run_split(s1, a.drop_first(), b);
        assert(seq![st] + (comm_run(s1, a.drop_first()).1 + comm_run(comm_run(s1, a.drop_first()).0, b).1)
            =~= (seq![st] + comm_run(s1, a.drop_first()).1) + comm_run(comm_run(s1, a.drop_first()).0, b).1);
    }
}

/// The writes that put `send[i..]` into the FIFO, then the one that starts
/// `command`.
pub open spec fn fill_steps(send: Seq<u8>, i: int, command: u8) -> Seq<CommStepView> {
    Seq::new(
        (send.len() - i) as nat,
        |j: int| CommStepView::Reg(RegReq::Write { reg: REG_FIFO_DATA, value: send[i + j] }),
    ).push(CommStepView::Reg(RegReq::Write { reg: REG_COMMAND, value: command }))
}

proof fn lemma_fill(s: CommState, vs: Seq<u8>)
    requires
        comm_wf(s),
        s.phase matches CommPhase::Fill { i } && vs.len() == s.send.len() - i,
    ensures
        ({
            let i = match s.phase {
                CommPhase::Fill { i } => i as int,
                _ => 0,
            };
            &&& comm_run(s, reads_of(vs)).1 == fill_steps(s.send, i + 1, s.command)
            &&& comm_run(s, reads_of(vs)).0 == (CommState { phase: CommPhase::Start, ..s })
        }),
    decreases vs.len(),
{
    let i = match s.phase {
        CommPhase::Fill { i } => i as int,
        _ => 0,
    };
    lemma_reads_of_split(vs);
    let (s1, st) = comm_next(s, Ok(vs[0]));
    let rest = vs.drop_first();
    if vs.len() == 1 {
        assert(reads_of(rest) =~= Seq::<RegOutcome>::empty());
        assert(comm_run(s1, reads_of(rest)).1 =~= Seq::<CommStepView>::empty());
        assert(comm_run(s, reads_of(vs)).1 =~= seq![st]);
        assert(fill_steps(s.send, i + 1, s.command) =~= seq![st]);
    } else {
        lemma_fill(s1, rest);
        assert(comm_run(s, reads_of(vs)).1 =~= seq![st] + comm_run(s1, reads_of(rest)).1);
        assert(seq![st] + fill_steps(s.send, i + 2, s.command) =~= fill_steps(s.send, i + 1, s.command));
    }
}

/// An exchange begins the same whatever it sends: after its first access
/// (enable the command's interrupts, `comm_first`) it reads and clears the
/// interrupt requests, flushes the FIFO, stops the chip, writes each byte of
/// the frame to the FIFO in order, and then starts the command.
pub proof fn law_exchange_prologue(s: CommState, vs: Seq<u8>)
    requires
        comm_wf(s),
        s.phase is EnableIrq,
        vs.len() == s.send.len() + 6,
    ensures
        comm_run(s, reads_of(vs)).1 == seq![
            CommStepView::Reg(RegReq::Read { reg: REG_COMM_IRQ }),
            CommStepView::Reg(RegReq::Write { reg: REG_COMM_IRQ, value: vs[1] & !0x80u8 }),
            CommStepView::Reg(RegReq::Read { reg: REG_FIFO_LEVEL }),
            CommStepView::Reg(RegReq::Write { reg: REG_FIFO_LEVEL, value: vs[3] | 0x80u8 }),
            CommStepView::Reg(RegReq::Write { reg: REG_COMMAND, value: CMD_IDLE }),
        ] + fill_steps(s.send, 0, s.command),
        comm_run(s, reads_of(vs)).0 == (CommState { phase: CommPhase::Start, ..s }),
{
    let head = vs.subrange(0, 6);
    let tail = vs.subrange(6, vs.len() as int);
    assert(vs =~= head + tail);
    assert(reads_of(vs) =~= reads_of(head) + reads_of(tail));
    lemma_run_split(s, reads_of(head), reads_of(tail));
    // The first six outcomes, one step each.
    let h = reads_of(head);
    let h1 = h.drop_first();
    let h2 = h1.drop_first();
    let h3 = h2.drop_first();
    let h4 = h3.drop_first();
    let h5 = h4.drop_first();
    let h6 = h5.drop_first();
    let r0 = comm_next(s, h[0]);
    let r1 = comm_next(r0.0, h1[0]);
    let r2 = comm_next(r1.0, h2[0]);
    let r3 = comm_next(r2.0, h3[0]);
    let r4 = comm_next(r3.0, h4[0]);
    let r5 = comm_next(r4.0, h5[0]);
    assert(h6 =~= Seq::<RegOutcome>::empty());
    assert(comm_run(r5.0, h6).1 =~= Seq::<CommStepView>::empty());
    assert(comm_run(r4.0, h5).1 =~= seq![r5.1]);
    assert(comm_run(r3.0, h4).1 =~= seq![r4.1, r5.1]);
    assert(comm_run(r2.0, h3).1 =~= seq![r3.1, r4.1, r5.1]);
    assert(comm_run(r1.0, h2).1 =~= seq![r2.1, r3.1, r4.1, r5.1]);
    assert(comm_run(r0.0, h1).1 =~= seq![r1.1, r2.1, r3.1, r4.1, r5.1]);
    assert(comm_run(s, h).1 =~= seq![r0.1, r1.1, r2.1, r3.1, r4.1, r5.1]);
    assert(comm_run(s, h).0 == r5.0);
    assert(h1[0] == h[1] && h2[0] == h[2] && h3[0] == h[3] && h4[0] == h[4] && h5[0] == h[5]);
    if s.send.len() == 0 {
        assert(reads_of(tail) =~= Seq::<RegOutcome>::empty());
        assert(comm_run(s, reads_of(vs)).1 =~= seq![
            CommStepView::Reg(RegReq::Read { reg: REG_COMM_IRQ }),
            CommStepView::Reg(RegReq::Write { reg: REG_COMM_IRQ, value: vs[1] & !0x80u8 }),
            CommStepView::Reg(RegReq::Read { reg: REG_FIFO_LEVEL }),
            CommStepView::Reg(RegReq::Write { reg: REG_FIFO_LEVEL, value: vs[3] | 0x80u8 }),
            CommStepView::Reg(RegReq::Write { reg: REG_COMMAND, value: CMD_IDLE }),
        ] + fill_steps(s.send, 0, s.command));
    } else {
        lemma_fill(r5.0, tail);
        assert(seq![r5.1] + fill_steps(s.send, 1, s.command) =~= fill_steps(s.send, 0, s.command));
        assert(comm_run(s, reads_of(vs)).1 =~= seq![
            CommStepView::Reg(RegReq::Read { reg: REG_COMM_IRQ }),
            CommStepView::Reg(RegReq::Write { reg: REG_COMM_IRQ, value: vs[1] & !0x80u8 }),
            CommStepView::Reg(RegReq::Read { reg: REG_FIFO_LEVEL }),
            CommStepView::Reg(RegReq::Write { reg: REG_FIFO_LEVEL, value: vs[3] | 0x80u8 }),
            CommStepView::Reg(RegReq::Write { reg: REG_COMMAND, value: CMD_IDLE }),
        ] + fill_steps(s.send, 0, s.command));
    }
}

/// After the wait the error register decides: a collision, parity or
/// overflow bit (0x13) ends the exchange with `Collision` when the collision
/// bit (0x08) is set, else with `Protocol`, before any FIFO read and with
/// the buffer untouched. Without them an authentication ends at once with
/// an empty answer, not reading the control register, and a transceive
/// goes on to read the FIFO level.
pub proof fn law_exchange_error_register(s: CommState, e: u8)
    requires
        comm_wf(s),
        s.phase is Error,
    ensures
        e & 0x13u8 != 0 ==> comm_next(s, Ok(e)).1 == CommStepView::Finish(
            Err(if e & 0x08u8 != 0 { Rc522Error::Collision } else { Rc522Error::Protocol }),
        ) && comm_next(s, Ok(e)).0.back == s.back,
        e & 0x13u8 == 0 && s.command == CMD_MF_AUTHENT ==> comm_next(s, Ok(e)).1 == CommStepView::Finish(
            Ok(CommReplyView { len: 0, valid_bits: 0, back: s.back }),
        ),
        e & 0x13u8 == 0 && s.command == CMD_TRANSCEIVE ==> comm_next(s, Ok(e)).1 == CommStepView::Reg(
            RegReq::Read { reg: REG_FIFO_LEVEL },
        ),
{
}

/// A CRC computation fed the outcomes `os` in turn: the state it reaches
/// and the step it takes after each outcome.
pub open spec fn crc_run(s: CrcState, os: Seq<RegOutcome>) -> (CrcState, Seq<CrcStep>)
    decreases os.len(),
{
    if os.len() == 0 {
        (s, Seq::empty())
    } else {
        let (s1, st) = crc_next(s, os[0]);
        let (s2, sts) = crc_run(s1, os.drop_first());
        (s2, seq![st] + sts)
    }
}

/// The CRC poll gives up after exactly the reads it has left: when no read
/// of the divider interrupts shows the CRC bit (0x04), the computation reads
/// them `left` times, then ends with `Timeout`. It enters the poll with
/// `CRC_POLL_LIMIT` reads left.
pub proof fn law_crc_poll_runs_out(s: CrcState, vs: Seq<u8>)
    requires
        crc_wf(s),
        s.phase matches CrcPhase::Poll { left } && vs.len() == left,
        forall|i: int| 0 <= i < vs.len() ==> #[trigger] (vs[i] & 0x04u8) == 0,
    ensures
        crc_run(s, reads_of(vs)).1 == Seq::new(
            (vs.len() - 1) as nat,
            |i: int| CrcStep::Reg(RegReq::Read { reg: REG_DIV_IRQ }),
        ).push(CrcStep::Finish(Err(Rc522Error::Timeout))),
    decreases vs.len(),
{
    lemma_reads_of_split(vs);
    assert(vs[0] & 0x04u8 == 0);
    let (s1, st) = crc_next(s, Ok(vs[0]));
    let rest = vs.drop_first();
    let f = |i: int| CrcStep::Reg(RegReq::Read { reg: REG_DIV_IRQ });
    if vs.len() == 1 {
        assert(reads_of(rest) =~= Seq::<RegOutcome>::empty());
        assert(crc_run(s1, reads_of(rest)).1 =~= Seq::<CrcStep>::empty());
        assert(crc_run(s, reads_of(vs)).1 =~= seq![st]);
        assert(Seq::new(0, f).push(CrcStep::Finish(Err(Rc522Error::Timeout))) =~= seq![st]);
    } else {
        assert forall|i: int| 0 <= i < rest.len() implies #[trigger] (rest[i] & 0x04u8) == 0 by {
            assert(vs[i + 1] & 0x04u8 == 0);
        }
        law_crc_poll_runs_out(s1, rest);
        assert(crc_run(s, reads_of(vs)).1 =~= seq![st] + crc_run(s1, reads_of(rest)).1);
        assert(seq![st] + Seq::new((rest.len() - 1) as nat, f).push(CrcStep::Finish(Err(Rc522Error::Timeout)))
            =~= Seq::new((vs.len() - 1) as nat, f).push(CrcStep::Finish(Err(Rc522Error::Timeout))));
    }
}

/// The exchange from `c`, fed `os`, asks for a register access after each
/// outcome but the last, and ends with `res` after the last.
pub open spec fn comm_ends(c: CommState, os: Seq<RegOutcome>, res: Result<CommReplyView, Rc522Error>) -> bool {
    &&& os.len() > 0
    &&& forall|i: int| 0 <= i < os.len() - 1 ==> (#[trigger] comm_run(c, os).1[i]) is Reg
    &&& comm_run(c, os).1[os.len() - 1] == CommStepView::Finish(res)
}

/// The CRC computation from `c`, fed `os`, asks for a register access after
/// each outcome but the last, and ends with `res` after the last.
pub open spec fn crc_ends(c: CrcState, os: Seq<RegOutcome>, res: Result<[u8; 2], Rc522Error>) -> bool {
    &&& os.len() > 0
    &&& forall|i: int| 0 <= i < os.len() - 1 ==> (#[trigger] crc_run(c, os).1[i]) is Reg
    &&& crc_run(c, os).1[os.len() - 1] == CrcStep::Finish(res)
}

pub(crate) proof fn lemma_comm_run_len(c: CommState, os: Seq<RegOutcome>)
    ensures
        comm_run(c, os).1.len() == os.len(),
    decreases os.len(),
{
    if os.len() > 0 {
        lemma_comm_run_len(comm_next(c, os[0]).0, os.drop_first());
    }
}

pub(crate) proof fn lemma_crc_run_len(c: CrcState, os: Seq<RegOutcome>)
    ensures
        crc_run(c, os).1.len() == os.len(),
    decreases os.len(),
{
    if os.len() > 0 {
        lemma_crc_run_len(crc_next(c, os[0]).0, os.drop_first());
    }
}

} // verus!
