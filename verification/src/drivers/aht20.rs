//! AHT20 temperature and humidity sensor on I2C (address 0x38).
//!
//! Temperature accuracy ±0.3 °C, humidity accuracy ±2 %RH. A measurement is
//! two 20-bit raw values; the firmware turns them into degrees and percent.

use vstd::prelude::*;
use crate::drivers::i2c::{I2cRequest, I2cStep, one_byte, reply_len};

verus! {

/// The sensor's I2C address.
pub const AHT20_ADDR: u8 = 0x38;
/// Command: calibrate.
pub const CMD_INITIALIZE: u8 = 0xBE;
/// Command: start a measurement.
pub const CMD_TRIGGER_MEASUREMENT: u8 = 0xAC;
/// Command: soft reset.
pub const CMD_SOFT_RESET: u8 = 0xBA;
/// Command: read the status byte.
pub const CMD_STATUS: u8 = 0x71;
/// Status bit: a measurement is under way.
pub const STATUS_BUSY_MASK: u8 = 0x80;
/// Status bit: the sensor is calibrated.
pub const STATUS_CALIBRATED_MASK: u8 = 0x08;
/// Status queries after the first one before a busy sensor is given up.
pub const MAX_BUSY_RETRIES: u32 = 100;
/// The largest raw temperature that lies in the sensor's range: it stands
/// for 100 °C.
pub const MAX_TEMPERATURE_RAW: u32 = 786432;

/// Why an AHT20 operation failed.
#[derive(Debug, Clone, Copy, PartialEq, Eq)]
pub enum Aht20Error {
    I2cError,
    NotCalibrated,
    Busy,
    InvalidData,
}

/// One measurement: 20-bit raw relative humidity (full scale 2^20 = 100 %RH)
/// and 20-bit raw temperature (full scale 2^20 = 200 °C, offset -50 °C).
#[derive(Debug, Clone, Copy, PartialEq, Eq)]
pub struct Aht20Sample {
    pub humidity_raw: u32,
    pub temperature_raw: u32,
}

/// How an AHT20 operation ended well.
#[derive(Debug, Clone, Copy, PartialEq, Eq)]
pub enum Aht20Done {
    /// `init` is over: the sensor was reset and is calibrated.
    Initialized,
    /// `read` is over with this measurement.
    Measured(Aht20Sample),
}

/// The outcome of an AHT20 operation.
pub type Aht20Outcome = Result<Aht20Done, Aht20Error>;

/// Where an AHT20 operation stands: which request it waits on the reply to.
#[derive(Debug, Clone, Copy, PartialEq, Eq)]
pub enum Aht20Phase {
    /// No operation under way.
    Idle,
    /// Soft reset command written.
    InitReset,
    /// Settling after the soft reset.
    InitResetDelay,
    /// Waiting before the calibration check.
    InitDelay,
    /// Status read for the calibration check.
    InitStatus,
    /// Calibration command written.
    InitCalibrate,
    /// Settling after calibration.
    InitCalibrateDelay,
    /// Measurement command written.
    ReadTrigger,
    /// Waiting for the measurement.
    ReadDelay,
    /// Status read; `retries` busy answers came before it.
    ReadPoll { retries: u32 },
    /// Waiting after the `retries`-th busy answer.
    ReadPollDelay { retries: u32 },
    /// Measurement bytes read.
    ReadData,
}

/// The humidity bits of a measurement frame: bytes 1, 2 and the high nibble
/// of byte 3.
pub open spec fn spec_humidity_raw(frame: Seq<u8>) -> nat {
    frame[1] as nat * 4096 + frame[2] as nat * 16 + frame[3] as nat / 16
}

/// The temperature bits of a measurement frame: the low nibble of byte 3,
/// bytes 4 and 5.
pub open spec fn spec_temperature_raw(frame: Seq<u8>) -> nat {
    (frame[3] as nat % 16) * 65536 + frame[4] as nat * 256 + frame[5] as nat
}

/// What a 7-byte measurement frame gives: the sample when its temperature
/// lies in range (at most 100 °C), else `InvalidData`. Humidity can never
/// leave 0-100 %RH and temperature never falls below -50 °C.
pub open spec fn spec_decode(frame: Seq<u8>) -> Result<Aht20Sample, Aht20Error> {
    if spec_temperature_raw(frame) > MAX_TEMPERATURE_RAW {
        Err(Aht20Error::InvalidData)
    } else {
        Ok(
            Aht20Sample {
                humidity_raw: spec_humidity_raw(frame) as u32,
                temperature_raw: spec_temperature_raw(frame) as u32,
            },
        )
    }
}

/// The status query.
pub open spec fn status_request() -> I2cRequest<Aht20Outcome> {
    I2cRequest::WriteRead { addr: AHT20_ADDR, bytes: seq![CMD_STATUS], read_len: 1 }
}

/// The request that starts `init`: the soft reset.
pub open spec fn init_request() -> I2cRequest<Aht20Outcome> {
    I2cRequest::Write { addr: AHT20_ADDR, bytes: seq![CMD_SOFT_RESET] }
}

/// The request that starts `read`: the measurement command.
pub open spec fn read_request() -> I2cRequest<Aht20Outcome> {
    I2cRequest::Write { addr: AHT20_ADDR, bytes: seq![CMD_TRIGGER_MEASUREMENT, 0x33, 0x00] }
}

/// One step of the protocol: from the phase and the reply to its request, the
/// next phase and the next request. A failed transaction ends the operation
/// with `I2cError`; `init` calibrates only when the status says it is not;
/// `read` queries the status until the sensor is not busy, and gives up with
/// `Busy` after the status was busy `MAX_BUSY_RETRIES + 1` times.
pub open spec fn aht20_next(p: Aht20Phase, reply: Option<Seq<u8>>) -> (
    Aht20Phase,
    I2cRequest<Aht20Outcome>,
) {
    let fail = (Aht20Phase::Idle, I2cRequest::Done(Err(Aht20Error::I2cError)));
    match p {
        Aht20Phase::Idle => (Aht20Phase::Idle, I2cRequest::Done(Err(Aht20Error::I2cError))),
        Aht20Phase::InitReset => if reply is None {
            fail
        } else {
            (Aht20Phase::InitResetDelay, I2cRequest::DelayMs(20))
        },
        Aht20Phase::InitResetDelay => (Aht20Phase::InitDelay, I2cRequest::DelayMs(20)),
        Aht20Phase::InitDelay => (Aht20Phase::InitStatus, status_request()),
        Aht20Phase::InitStatus => match reply {
            None => fail,
            Some(d) => if d[0] & STATUS_CALIBRATED_MASK == 0 {
                (
                    Aht20Phase::InitCalibrate,
                    I2cRequest::Write {
                        addr: AHT20_ADDR,
                        bytes: seq![CMD_INITIALIZE, 0x08, 0x00],
                    },
                )
            } else {
                (Aht20Phase::Idle, I2cRequest::Done(Ok(Aht20Done::Initialized)))
            },
        },
        Aht20Phase::InitCalibrate => if reply is None {
            fail
        } else {
            (Aht20Phase::InitCalibrateDelay, I2cRequest::DelayMs(10))
        },
        Aht20Phase::InitCalibrateDelay => (
            Aht20Phase::Idle,
            I2cRequest::Done(Ok(Aht20Done::Initialized)),
        ),
        Aht20Phase::ReadTrigger => if reply is None {
            fail
        } else {
            (Aht20Phase::ReadDelay, I2cRequest::DelayMs(80))
        },
        Aht20Phase::ReadDelay => (Aht20Phase::ReadPoll { retries: 0 }, status_request()),
        Aht20Phase::ReadPoll { retries } => match reply {
            None => fail,
            Some(d) => if d[0] & STATUS_BUSY_MASK == 0 {
                (Aht20Phase::ReadData, I2cRequest::Read { addr: AHT20_ADDR, read_len: 7 })
            } else if retries + 1 > MAX_BUSY_RETRIES {
                (Aht20Phase::Idle, I2cRequest::Done(Err(Aht20Error::Busy)))
            } else {
                (Aht20Phase::ReadPollDelay { retries: (retries + 1) as u32 }, I2cRequest::DelayMs(1))
            },
        },
        Aht20Phase::ReadPollDelay { retries } => (
            Aht20Phase::ReadPoll { retries },
            status_request(),
        ),
        Aht20Phase::ReadData => match reply {
            None => fail,
            Some(d) => (
                Aht20Phase::Idle,
                I2cRequest::Done(
                    match spec_decode(d) {
                        Ok(s) => Ok(Aht20Done::Measured(s)),
                        Err(e) => Err(e),
                    },
                ),
            ),
        },
    }
}

/// The request that a phase waits on the reply to.
pub open spec fn awaited_request(p: Aht20Phase) -> I2cRequest<Aht20Outcome> {
    match p {
        Aht20Phase::InitStatus => status_request(),
        Aht20Phase::ReadPoll { .. } => status_request(),
        Aht20Phase::ReadData => I2cRequest::Read { addr: AHT20_ADDR, read_len: 7 },
        _ => I2cRequest::DelayMs(0),
    }
}

/// Decodes a 7-byte measurement frame: status byte, 20 bits of humidity,
/// 20 bits of temperature, CRC.
pub fn decode_measurement(frame: &[u8]) -> (r: Result<Aht20Sample, Aht20Error>)
    requires
        frame@.len() == 7,
    ensures
        r == spec_decode(frame@),
{
    let b1 = frame[1] as u32;
    let b2 = frame[2] as u32;
    let b3 = frame[3] as u32;
    let b4 = frame[4] as u32;
    let b5 = frame[5] as u32;
    let humidity_raw = (b1 << 12) | (b2 << 4) | (b3 >> 4);
    let temperature_raw = ((b3 & 0x0F) << 16) | (b4 << 8) | b5;
    assert(humidity_raw == b1 * 4096 + b2 * 16 + b3 / 16) by (bit_vector)
        requires
            b1 < 256 && b2 < 256 && b3 < 256,
            humidity_raw == (b1 << 12) | (b2 << 4) | (b3 >> 4),
    ;
    assert(temperature_raw == (b3 % 16) * 65536 + b4 * 256 + b5) by (bit_vector)
        requires
            b3 < 256 && b4 < 256 && b5 < 256,
            temperature_raw == ((b3 & 0x0F) << 16) | (b4 << 8) | b5,
    ;
    if temperature_raw > MAX_TEMPERATURE_RAW {
        Err(Aht20Error::InvalidData)
    } else {
        Ok(Aht20Sample { humidity_raw, temperature_raw })
    }
}

/// AHT20 driver: the I2C bus and the operation under way.
pub struct Aht20<I2C> {
    i2c: I2C,
    phase: Aht20Phase,
}

impl<I2C> Aht20<I2C> {
    /// The bus.
    pub closed spec fn bus(&self) -> I2C {
        self.i2c
    }

    /// Where the operation under way stands.
    pub closed spec fn phase(&self) -> Aht20Phase {
        self.phase
    }

    /// Whether `reply` is a reply that the operation under way can take.
    pub open spec fn accepts(&self, reply: Option<Seq<u8>>) -> bool {
        &&& self.phase() != Aht20Phase::Idle
        &&& reply matches Some(d) ==> d.len() == reply_len(awaited_request(self.phase()))
    }

    /// A driver on `i2c`, with no operation under way.
    pub fn new(i2c: I2C) -> (s: Self)
        ensures
            s.bus() == i2c,
            s.phase() == Aht20Phase::Idle,
    {
        Self { i2c, phase: Aht20Phase::Idle }
    }

    /// Starts initialisation: soft reset, 40 ms of settling, then a status
    /// query, and calibration when the status says the sensor is not
    /// calibrated. Returns the first request.
    pub fn init(&mut self) -> (req: I2cStep<Aht20Outcome>)
        ensures
            final(self).bus() == old(self).bus(),
            final(self).phase() == Aht20Phase::InitReset,
            req@ == init_request(),
    {
        self.phase = Aht20Phase::InitReset;
        let req = I2cStep::Write { addr: AHT20_ADDR, bytes: one_byte(CMD_SOFT_RESET) };
        assert(req@ == init_request());
        req
    }

    /// Starts a measurement: measurement command, 80 ms of waiting, status
    /// queries until the sensor is not busy, then the 7-byte frame. Returns
    /// the first request.
    pub fn read(&mut self) -> (req: I2cStep<Aht20Outcome>)
        ensures
            final(self).bus() == old(self).bus(),
            final(self).phase() == Aht20Phase::ReadTrigger,
            req@ == read_request(),
    {
        self.phase = Aht20Phase::ReadTrigger;
        let req = I2cStep::Write {
            addr: AHT20_ADDR,
            bytes: vec![CMD_TRIGGER_MEASUREMENT, 0x33, 0x00],
        };
        assert(req@ == read_request());
        req
    }

    /// Whether an operation is under way.
    pub fn is_busy(&self) -> (b: bool)
        ensures
            b == (self.phase() != Aht20Phase::Idle),
    {
        !matches!(self.phase, Aht20Phase::Idle)
    }

    /// Takes the reply to the last request and returns the next request.
    pub fn step(&mut self, reply: Option<Vec<u8>>) -> (req: I2cStep<Aht20Outcome>)
        requires
            old(self).accepts(reply.deep_view()),
        ensures
            final(self).bus() == old(self).bus(),
            (final(self).phase(), req@) == aht20_next(old(self).phase(), reply.deep_view()),
    {
        let fail = I2cStep::Done(Err(Aht20Error::I2cError));
        match self.phase {
            Aht20Phase::Idle => {
                fail
            },
            Aht20Phase::InitReset => {
                if reply.is_none() {
                    self.phase = Aht20Phase::Idle;
                    fail
                } else {
                    self.phase = Aht20Phase::InitResetDelay;
                    I2cStep::DelayMs(20)
                }
            },
            Aht20Phase::InitResetDelay => {
                self.phase = Aht20Phase::InitDelay;
                I2cStep::DelayMs(20)
            },
            Aht20Phase::InitDelay => {
                self.phase = Aht20Phase::InitStatus;
                let req = I2cStep::WriteRead { addr: AHT20_ADDR, bytes: one_byte(CMD_STATUS), read_len: 1 };
                assert(req@ == status_request());
                req
            },
            Aht20Phase::InitStatus => {
                match reply {
                    None => {
                        self.phase = Aht20Phase::Idle;
                        fail
                    },
                    Some(d) => {
                        if d[0] & STATUS_CALIBRATED_MASK == 0 {
                            self.phase = Aht20Phase::InitCalibrate;
                            let req = I2cStep::Write {
                                addr: AHT20_ADDR,
                                bytes: vec![CMD_INITIALIZE, 0x08, 0x00],
                            };
                            assert(req@ == (I2cRequest::<Aht20Outcome>::Write { addr: AHT20_ADDR, bytes: seq![CMD_INITIALIZE, 0x08u8, 0x00u8] }));
                            req
                        } else {
                            self.phase = Aht20Phase::Idle;
                            I2cStep::Done(Ok(Aht20Done::Initialized))
                        }
                    },
                }
            },
            Aht20Phase::InitCalibrate => {
                if reply.is_none() {
                    self.phase = Aht20Phase::Idle;
                    fail
                } else {
                    self.phase = Aht20Phase::InitCalibrateDelay;
                    I2cStep::DelayMs(10)
                }
            },
            Aht20Phase::InitCalibrateDelay => {
                self.phase = Aht20Phase::Idle;
                I2cStep::Done(Ok(Aht20Done::Initialized))
            },
            Aht20Phase::ReadTrigger => {
                if reply.is_none() {
                    self.phase = Aht20Phase::Idle;
                    fail
                } else {
                    self.phase = Aht20Phase::ReadDelay;
                    I2cStep::DelayMs(80)
                }
            },
            Aht20Phase::ReadDelay => {
                self.phase = Aht20Phase::ReadPoll { retries: 0 };
                let req = I2cStep::WriteRead { addr: AHT20_ADDR, bytes: one_byte(CMD_STATUS), read_len: 1 };
                assert(req@ == status_request());
                req
            },
            Aht20Phase::ReadPoll { retries } => {
                match reply {
                    None => {
                        self.phase = Aht20Phase::Idle;
                        fail
                    },
                    Some(d) => {
                        if d[0] & STATUS_BUSY_MASK == 0 {
                            self.phase = Aht20Phase::ReadData;
                            I2cStep::Read { addr: AHT20_ADDR, read_len: 7 }
                        } else if retries >= MAX_BUSY_RETRIES {
                            self.phase = Aht20Phase::Idle;
                            I2cStep::Done(Err(Aht20Error::Busy))
                        } else {
                            self.phase = Aht20Phase::ReadPollDelay { retries: retries + 1 };
                            I2cStep::DelayMs(1)
                        }
                    },
                }
            },
            Aht20Phase::ReadPollDelay { retries } => {
                self.phase = Aht20Phase::ReadPoll { retries };
                let req = I2cStep::WriteRead { addr: AHT20_ADDR, bytes: one_byte(CMD_STATUS), read_len: 1 };
                assert(req@ == status_request());
                req
            },
            Aht20Phase::ReadData => {
                match reply {
                    None => {
                        self.phase = Aht20Phase::Idle;
                        fail
                    },
                    Some(d) => {
                        self.phase = Aht20Phase::Idle;
                        match decode_measurement(d.as_slice()) {
                            Ok(s) => I2cStep::Done(Ok(Aht20Done::Measured(s))),
                            Err(e) => I2cStep::Done(Err(e)),
                        }
                    },
                }
            },
        }
    }

    /// The bus, to perform the requested transactions on.
    pub fn bus_mut(&mut self) -> (r: &mut I2C)
        ensures
            *r == old(self).bus(),
            final(self).bus() == *final(r),
            final(self).phase() == old(self).phase(),
    {
        &mut self.i2c
    }

    /// Gives the bus back.
    pub fn release(self) -> (i2c: I2C)
        ensures
            i2c == self.bus(),
    {
        self.i2c
    }
}

/// Every measurement the driver reports lies in the sensor's range:
/// humidity raw below 2^20 (100 %RH), temperature raw at most
/// `MAX_TEMPERATURE_RAW` (100 °C); a frame beyond that is `InvalidData`.
pub proof fn law_measurement_in_range(p: Aht20Phase, reply: Option<Seq<u8>>)
    requires
        reply matches Some(d) ==> d.len() == reply_len(awaited_request(p)),
    ensures
        aht20_next(p, reply).1 matches I2cRequest::Done(Ok(Aht20Done::Measured(m))) ==> m.humidity_raw
            < 0x10_0000 && m.temperature_raw <= MAX_TEMPERATURE_RAW,
{
    if let Some(d) = reply {
        if p == Aht20Phase::ReadData {
            assert(spec_humidity_raw(d) < 0x10_0000) by (nonlinear_arith)
                requires
                    spec_humidity_raw(d) == d[1] as nat * 4096 + d[2] as nat * 16 + d[3] as nat / 16,
                    d[1] < 256,
                    d[2] < 256,
                    d[3] < 256,
            ;
        }
    }
}

/// The driver fed the replies `rs` in turn: the phase it reaches and the
/// request it makes after each reply.
pub open spec fn aht20_run(p: Aht20Phase, rs: Seq<Option<Seq<u8>>>) -> (Aht20Phase, Seq<I2cRequest<Aht20Outcome>>)
    decreases rs.len(),
{
    if rs.len() == 0 {
        (p, Seq::empty())
    } else {
        let (p1, q) = aht20_next(p, rs[0]);
        let (p2, qs) = aht20_run(p1, rs.drop_first());
        (p2, seq![q] + qs)
    }
}

/// The status answers `bs`, each but the last followed by the reply to the
/// 1 ms wait after it.
pub open spec fn status_answers(bs: Seq<u8>) -> Seq<Option<Seq<u8>>>
    decreases bs.len(),
{
    if bs.len() <= 1 {
        bs.map_values(|b: u8| Some(seq![b]))
    } else {
        seq![Some(seq![bs[0]]), Some(Seq::<u8>::empty())] + status_answers(bs.drop_first())
    }
}

/// `n` rounds of a 1 ms wait and a status query.
pub open spec fn busy_rounds(n: nat) -> Seq<I2cRequest<Aht20Outcome>> {
    Seq::new(2 * n, |i: int| if i % 2 == 0 { I2cRequest::DelayMs(1) } else { status_request() })
}

/// `read` waits a bounded time for a busy sensor: from the status query
/// after `retries` busy answers, while every answer is busy it waits 1 ms
/// and asks again, until the status was busy `MAX_BUSY_RETRIES + 1` times
/// in all; then it ends with `Busy`. From the first query (`retries` 0)
/// that is 101 status reads and 100 waits.
pub proof fn law_busy_wait_bounded(retries: u32, bs: Seq<u8>)
    requires
        retries <= MAX_BUSY_RETRIES,
        bs.len() == MAX_BUSY_RETRIES + 1 - retries,
        forall|i: int| 0 <= i < bs.len() ==> #[trigger] (bs[i] & STATUS_BUSY_MASK) != 0,
    ensures
        aht20_run(Aht20Phase::ReadPoll { retries }, status_answers(bs)).1 == busy_rounds(
            (bs.len() - 1) as nat,
        ).push(I2cRequest::Done(Err(Aht20Error::Busy))),
    decreases bs.len(),
{
    let p = Aht20Phase::ReadPoll { retries };
    let rs = status_answers(bs);
    assert(bs[0] & STATUS_BUSY_MASK != 0);
    if bs.len() == 1 {
        assert(rs =~= seq![Some(seq![bs[0]])]);
        assert(rs.drop_first() =~= Seq::<Option<Seq<u8>>>::empty());
        let (p1, q) = aht20_next(p, rs[0]);
        assert(aht20_run(p1, rs.drop_first()).1 =~= Seq::<I2cRequest<Aht20Outcome>>::empty());
        assert(aht20_run(p, rs).1 =~= seq![q]);
        assert(busy_rounds(0).push(I2cRequest::Done(Err(Aht20Error::Busy))) =~= seq![q]);
    } else {
        let rest = bs.drop_first();
        assert(rs[0] == Some(seq![bs[0]]));
        assert(rs.drop_first()[0] == Some(Seq::<u8>::empty()));
        assert(rs.drop_first().drop_first() =~= status_answers(rest));
        let (p1, q1) = aht20_next(p, rs[0]);
        let (p2, q2) = aht20_next(p1, rs.drop_first()[0]);
        assert(p2 == Aht20Phase::ReadPoll { retries: (retries + 1) as u32 });
        assert forall|i: int| 0 <= i < rest.len() implies #[trigger] (rest[i] & STATUS_BUSY_MASK) != 0 by {
            assert(bs[i + 1] & STATUS_BUSY_MASK != 0);
        }
        law_busy_wait_bounded((retries + 1) as u32, rest);
        assert(aht20_run(p1, rs.drop_first()).1 =~= seq![q2] + aht20_run(p2, status_answers(rest)).1);
        assert(aht20_run(p, rs).1 =~= seq![q1, q2] + aht20_run(p2, status_answers(rest)).1);
        assert(seq![q1, q2] + busy_rounds((rest.len() - 1) as nat).push(I2cRequest::Done(Err(Aht20Error::Busy)))
            =~= busy_rounds((bs.len() - 1) as nat).push(I2cRequest::Done(Err(Aht20Error::Busy))));
    }
}

/// `init` when every transaction succeeds: after the soft reset it waits
/// 20 ms twice and reads the status; a calibrated sensor is then ready, an
/// uncalibrated one gets the calibration command and 10 ms before it is.
pub proof fn law_init_sequence(status: u8)
    ensures
        status & STATUS_CALIBRATED_MASK != 0 ==> aht20_run(
            Aht20Phase::InitReset,
            seq![Some(Seq::<u8>::empty()), Some(Seq::<u8>::empty()), Some(Seq::<u8>::empty()), Some(seq![status])],
        ).1 == seq![
            I2cRequest::DelayMs(20),
            I2cRequest::DelayMs(20),
            status_request(),
            I2cRequest::Done(Ok(Aht20Done::Initialized)),
        ],
        status & STATUS_CALIBRATED_MASK == 0 ==> aht20_run(
            Aht20Phase::InitReset,
            seq![
                Some(Seq::<u8>::empty()),
                Some(Seq::<u8>::empty()),
                Some(Seq::<u8>::empty()),
                Some(seq![status]),
                Some(Seq::<u8>::empty()),
                Some(Seq::<u8>::empty()),
            ],
        ).1 == seq![
            I2cRequest::DelayMs(20),
            I2cRequest::DelayMs(20),
            status_request(),
            I2cRequest::Write { addr: AHT20_ADDR, bytes: seq![CMD_INITIALIZE, 0x08u8, 0x00u8] },
            I2cRequest::DelayMs(10),
            I2cRequest::Done(Ok(Aht20Done::Initialized)),
        ],
{
    let e = Some(Seq::<u8>::empty());
    let st = Some(seq![status]);
    let a = seq![e, e, e, st];
    let b = seq![e, e, e, st, e, e];
    assert(seq![status][0] == status);
    // Unfold the runs one reply at a time, from the end.
    let a1 = a.drop_first();
    let a2 = a1.drop_first();
    let a3 = a2.drop_first();
    assert(a3 =~= seq![st]);
    assert(a3.drop_first() =~= Seq::<Option<Seq<u8>>>::empty());
    let p1 = aht20_next(Aht20Phase::InitReset, e);
    let p2 = aht20_next(p1.0, e);
    let p3 = aht20_next(p2.0, e);
    let p4 = aht20_next(p3.0, st);
    assert(aht20_run(p4.0, a3.drop_first()).1 =~= Seq::<I2cRequest<Aht20Outcome>>::empty());
    assert(aht20_run(p3.0, a3).1 =~= seq![p4.1]);
    assert(aht20_run(p2.0, a2).1 =~= seq![p3.1, p4.1]);
    assert(aht20_run(p1.0, a1).1 =~= seq![p2.1, p3.1, p4.1]);
    assert(aht20_run(Aht20Phase::InitReset, a).1 =~= seq![p1.1, p2.1, p3.1, p4.1]);
    if status & STATUS_CALIBRATED_MASK == 0 {
        let b1 = b.drop_first();
        let b2 = b1.drop_first();
        let b3 = b2.drop_first();
        let b4 = b3.drop_first();
        let b5 = b4.drop_first();
        assert(b5 =~= seq![e]);
        assert(b5.drop_first() =~= Seq::<Option<Seq<u8>>>::empty());
        assert(b3[0] == st && b4[0] == e);
        let p5 = aht20_next(p4.0, e);
        let p6 = aht20_next(p5.0, e);
        assert(aht20_run(p6.0, b5.drop_first()).1 =~= Seq::<I2cRequest<Aht20Outcome>>::empty());
        assert(aht20_run(p5.0, b5).1 =~= seq![p6.1]);
        assert(aht20_run(p4.0, b4).1 =~= seq![p5.1, p6.1]);
        assert(aht20_run(p3.0, b3).1 =~= seq![p4.1, p5.1, p6.1]);
        assert(aht20_run(p2.0, b2).1 =~= seq![p3.1, p4.1, p5.1, p6.1]);
        assert(aht20_run(p1.0, b1).1 =~= seq![p2.1, p3.1, p4.1, p5.1, p6.1]);
        assert(aht20_run(Aht20Phase::InitReset, b).1 =~= seq![p1.1, p2.1, p3.1, p4.1, p5.1, p6.1]);
    }
}

/// A decoded measurement keeps every bit of the frame in place: the 20
/// humidity bits are byte 1, byte 2 and the high nibble of byte 3, most
/// significant first; the 20 temperature bits are the low nibble of byte 3,
/// byte 4 and byte 5. A frame whose temperature nibble is below 0xC always
/// decodes; one that does not decode is `InvalidData`.
pub proof fn law_frame_bits_in_place(frame: Seq<u8>)
    requires
        frame.len() == 7,
    ensures
        spec_decode(frame) matches Ok(m) ==> {
            &&& m.humidity_raw < 0x10_0000
            &&& m.humidity_raw >> 12u32 == frame[1] as u32
            &&& (m.humidity_raw >> 4u32) & 0xFF == frame[2] as u32
            &&& m.humidity_raw & 0x0F == (frame[3] >> 4u8) as u32
            &&& m.temperature_raw >> 16u32 == (frame[3] & 0x0F) as u32
            &&& (m.temperature_raw >> 8u32) & 0xFF == frame[4] as u32
            &&& m.temperature_raw & 0xFF == frame[5] as u32
        },
        frame[3] & 0x0F < 0x0C ==> spec_decode(frame) is Ok,
        spec_decode(frame) is Err ==> spec_decode(frame) == Err::<Aht20Sample, Aht20Error>(Aht20Error::InvalidData),
{
    let b1 = frame[1] as u32;
    let b2 = frame[2] as u32;
    let b3 = frame[3] as u32;
    let b4 = frame[4] as u32;
    let b5 = frame[5] as u32;
    let h: u32 = spec_humidity_raw(frame) as u32;
    let t: u32 = spec_temperature_raw(frame) as u32;
    assert(spec_humidity_raw(frame) < 0x10_0000) by (nonlinear_arith)
        requires
            spec_humidity_raw(frame) == frame[1] as nat * 4096 + frame[2] as nat * 16 + frame[3] as nat / 16,
            frame[1] < 256,
            frame[2] < 256,
            frame[3] < 256,
    ;
    assert(h == b1 * 4096 + b2 * 16 + b3 / 16);
    assert(t == (b3 % 16) * 65536 + b4 * 256 + b5);
    assert(h >> 12u32 == b1 && (h >> 4u32) & 0xFF == b2 && h & 0x0F == b3 >> 4u32) by (bit_vector)
        requires
            b1 < 256 && b2 < 256 && b3 < 256,
            h == b1 * 4096 + b2 * 16 + b3 / 16,
    ;
    assert(t >> 16u32 == b3 & 0x0F && (t >> 8u32) & 0xFF == b4 && t & 0xFF == b5) by (bit_vector)
        requires
            b3 < 256 && b4 < 256 && b5 < 256,
            t == (b3 % 16) * 65536 + b4 * 256 + b5,
    ;
    let f3 = frame[3];
    assert((f3 >> 4u8) as u32 == b3 >> 4u32 && (f3 & 0x0F) as u32 == b3 & 0x0F) by (bit_vector)
        requires
            b3 == f3 as u32,
    ;
    assert((f3 & 0x0F) < 0x0C ==> (b3 % 16) < 12) by (bit_vector)
        requires
            b3 == f3 as u32,
    ;
}

} // verus!
