//! BMP280 pressure and temperature sensor on I2C (address 0x76 or 0x77).
//!
//! Pressure range 300-1100 hPa, temperature range -40 to 85 °C. The integer
//! temperature compensation of the datasheet is done here; the pressure
//! compensation is floating point and is left to the firmware, which gets the
//! raw reading, `t_fine` and the calibration words for it.

use vstd::prelude::*;
use crate::drivers::i2c::{I2cRequest, I2cStep, one_byte, reply_len};

verus! {

/// The address with SDO tied to ground.
pub const BMP280_ADDR_LOW: u8 = 0x76;
/// The address with SDO tied to VDDIO.
pub const BMP280_ADDR_HIGH: u8 = 0x77;
/// First calibration register.
pub const REG_CALIBRATION: u8 = 0x88;
/// Chip identification register.
pub const REG_ID: u8 = 0xD0;
/// Reset register.
pub const REG_RESET: u8 = 0xE0;
/// Status register.
pub const REG_STATUS: u8 = 0xF3;
/// Measurement control register.
pub const REG_CTRL_MEAS: u8 = 0xF4;
/// Configuration register.
pub const REG_CONFIG: u8 = 0xF5;
/// First measurement register.
pub const REG_PRESSURE_MSB: u8 = 0xF7;
/// The chip identification of a BMP280.
pub const BMP280_ID: u8 = 0x58;
/// The value written to the reset register to reset the chip.
pub const RESET_VALUE: u8 = 0xB6;
/// Normal mode: measure continuously.
pub const MODE_NORMAL: u8 = 0x03;
/// 16 times oversampling.
pub const OVERSAMPLING_16X: u8 = 0x05;
/// IIR filter coefficient 4.
pub const FILTER_4: u8 = 0x02;
/// 125 ms between measurements.
pub const STANDBY_125MS: u8 = 0x02;

/// Why a BMP280 operation failed.
#[derive(Debug, Clone, Copy, PartialEq, Eq)]
pub enum Bmp280Error {
    I2cError,
    DeviceNotFound,
    InvalidCalibration,
    MeasurementNotReady,
}

/// The factory calibration words.
#[derive(Debug, Clone, Copy, PartialEq, Eq)]
pub struct CalibrationData {
    pub dig_t1: u16,
    pub dig_t2: i16,
    pub dig_t3: i16,
    pub dig_p1: u16,
    pub dig_p2: i16,
    pub dig_p3: i16,
    pub dig_p4: i16,
    pub dig_p5: i16,
    pub dig_p6: i16,
    pub dig_p7: i16,
    pub dig_p8: i16,
    pub dig_p9: i16,
}

/// One reading: the 20-bit raw values, the fine temperature that the
/// pressure compensation takes, and the temperature in hundredths of a degree.
#[derive(Debug, Clone, Copy, PartialEq, Eq)]
pub struct Bmp280Raw {
    pub pressure_raw: u32,
    pub temperature_raw: u32,
    pub t_fine: i32,
    pub temperature_centi: i32,
}

/// How a BMP280 operation ended well.
#[derive(Debug, Clone, Copy, PartialEq, Eq)]
pub enum Bmp280Done {
    /// `init` is over (whether a device answered is seen in `is_initialized`).
    Initialized,
    /// `read` is over with this reading.
    Measured(Bmp280Raw),
}

/// The outcome of a BMP280 operation.
pub type Bmp280Outcome = Result<Bmp280Done, Bmp280Error>;

/// Where a BMP280 operation stands: which request it waits on the reply to.
#[derive(Debug, Clone, Copy, PartialEq, Eq)]
pub enum Bmp280Phase {
    Idle,
    /// Chip identification read at the low (`high == false`) or high address.
    Detect { high: bool },
    /// Reset written.
    Reset,
    /// Waiting after the reset.
    ResetDelay,
    /// Calibration words read.
    Calibration,
    /// Configuration register written.
    ConfigFilter,
    /// Measurement control register written.
    ConfigMeasure,
    /// Measurement registers read.
    ReadData,
}

/// The little-endian unsigned 16-bit word of `lo`, `hi`.
pub open spec fn le_u16(lo: u8, hi: u8) -> u16 {
    (lo as nat + 256 * hi as nat) as u16
}

/// The little-endian two's-complement 16-bit word of `lo`, `hi`.
pub open spec fn le_i16(lo: u8, hi: u8) -> i16 {
    if hi < 128 {
        (lo as int + 256 * hi as int) as i16
    } else {
        (lo as int + 256 * hi as int - 65536) as i16
    }
}

/// The calibration words of the 24 calibration bytes, each little-endian.
pub open spec fn spec_calibration(b: Seq<u8>) -> CalibrationData {
    CalibrationData {
        dig_t1: le_u16(b[0], b[1]),
        dig_t2: le_i16(b[2], b[3]),
        dig_t3: le_i16(b[4], b[5]),
        dig_p1: le_u16(b[6], b[7]),
        dig_p2: le_i16(b[8], b[9]),
        dig_p3: le_i16(b[10], b[11]),
        dig_p4: le_i16(b[12], b[13]),
        dig_p5: le_i16(b[14], b[15]),
        dig_p6: le_i16(b[16], b[17]),
        dig_p7: le_i16(b[18], b[19]),
        dig_p8: le_i16(b[20], b[21]),
        dig_p9: le_i16(b[22], b[23]),
    }
}

/// A 20-bit raw value: `msb`, `lsb` and the high nibble of `xlsb`.
pub open spec fn spec_raw20(msb: u8, lsb: u8, xlsb: u8) -> u32 {
    (msb as nat * 4096 + lsb as nat * 16 + xlsb as nat / 16) as u32
}

/// The datasheet's fine temperature, with `i32` arithmetic that wraps as the
/// firmware's release build does.
pub open spec fn spec_t_fine(raw: u32, c: CalibrationData) -> i32 {
    let adc = raw as i32;
    let t1 = c.dig_t1 as i32;
    let var1 = vstd::wrapping::i32_specs::wrapping_mul(
        ((adc >> 3u32) - (t1 << 1u32)) as i32,
        c.dig_t2 as i32,
    ) >> 11u32;
    let d = ((adc >> 4u32) - t1) as i32;
    let var2 = vstd::wrapping::i32_specs::wrapping_mul(
        vstd::wrapping::i32_specs::wrapping_mul(d, d) >> 12u32,
        c.dig_t3 as i32,
    ) >> 14u32;
    (var1 + var2) as i32
}

/// The temperature in hundredths of a degree for a fine temperature.
pub open spec fn spec_centi_degrees(t_fine: i32) -> i32 {
    ((t_fine * 5 + 128) as i32) >> 8u32
}

/// The register value for standby time and filter.
pub open spec fn config_value() -> u8 {
    ((STANDBY_125MS << 5u8) | (FILTER_4 << 2u8)) as u8
}

/// The register value for oversampling and mode.
pub open spec fn ctrl_meas_value() -> u8 {
    ((OVERSAMPLING_16X << 5u8) | (OVERSAMPLING_16X << 2u8) | MODE_NORMAL) as u8
}

/// The chip identification query at `addr`.
pub open spec fn id_request(addr: u8) -> I2cRequest<Bmp280Outcome> {
    I2cRequest::WriteRead { addr, bytes: seq![REG_ID], read_len: 1 }
}

/// The address that `Detect { high }` queries.
pub open spec fn detect_addr(high: bool) -> u8 {
    if high {
        BMP280_ADDR_HIGH
    } else {
        BMP280_ADDR_LOW
    }
}

/// The reading that the six measurement bytes give with calibration `c`.
pub open spec fn spec_reading(d: Seq<u8>, c: CalibrationData) -> Bmp280Raw {
    let t_raw = spec_raw20(d[3], d[4], d[5]);
    Bmp280Raw {
        pressure_raw: spec_raw20(d[0], d[1], d[2]),
        temperature_raw: t_raw,
        t_fine: spec_t_fine(t_raw, c),
        temperature_centi: spec_centi_degrees(spec_t_fine(t_raw, c)),
    }
}

/// The driver's state as the protocol sees it.
pub struct Bmp280State {
    pub addr: u8,
    pub calibration: CalibrationData,
    pub t_fine: i32,
    pub is_initialized: bool,
    pub phase: Bmp280Phase,
}

/// One step of the protocol: from the state and the reply to its request, the
/// next state and the next request.
///
/// `init` asks for the chip identification at 0x76, then at 0x77; the first
/// address that answers 0x58 is kept. When neither does, `init` ends well and
/// the driver stays as it was. Otherwise it resets the chip, waits 100 ms,
/// reads the calibration, writes the configuration and the measurement
/// control, and marks the driver initialised. `read` reads the six
/// measurement bytes and compensates the temperature, keeping `t_fine`.
/// A failed transaction other than an identification query ends the
/// operation with `I2cError`.
pub open spec fn bmp280_next(s: Bmp280State, reply: Option<Seq<u8>>) -> (
    Bmp280State,
    I2cRequest<Bmp280Outcome>,
) {
    let fail = (
        Bmp280State { phase: Bmp280Phase::Idle, ..s },
        I2cRequest::Done(Err(Bmp280Error::I2cError)),
    );
    match s.phase {
        Bmp280Phase::Idle => fail,
        Bmp280Phase::Detect { high } => {
            if reply matches Some(d) && d[0] == BMP280_ID {
                (
                    Bmp280State { addr: detect_addr(high), phase: Bmp280Phase::Reset, ..s },
                    I2cRequest::Write { addr: detect_addr(high), bytes: seq![REG_RESET, RESET_VALUE] },
                )
            } else if !high {
                (
                    Bmp280State { phase: Bmp280Phase::Detect { high: true }, ..s },
                    id_request(BMP280_ADDR_HIGH),
                )
            } else {
                (
                    Bmp280State { phase: Bmp280Phase::Idle, ..s },
                    I2cRequest::Done(Ok(Bmp280Done::Initialized)),
                )
            }
        },
        Bmp280Phase::Reset => if reply is None {
            fail
        } else {
            (Bmp280State { phase: Bmp280Phase::ResetDelay, ..s }, I2cRequest::DelayMs(100))
        },
        Bmp280Phase::ResetDelay => (
            Bmp280State { phase: Bmp280Phase::Calibration, ..s },
            I2cRequest::WriteRead { addr: s.addr, bytes: seq![REG_CALIBRATION], read_len: 24 },
        ),
        Bmp280Phase::Calibration => match reply {
            None => fail,
            Some(d) => (
                Bmp280State {
                    calibration: spec_calibration(d),
                    phase: Bmp280Phase::ConfigFilter,
                    ..s
                },
                I2cRequest::Write { addr: s.addr, bytes: seq![REG_CONFIG, config_value()] },
            ),
        },
        Bmp280Phase::ConfigFilter => if reply is None {
            fail
        } else {
            (
                Bmp280State { phase: Bmp280Phase::ConfigMeasure, ..s },
                I2cRequest::Write { addr: s.addr, bytes: seq![REG_CTRL_MEAS, ctrl_meas_value()] },
            )
        },
        Bmp280Phase::ConfigMeasure => if reply is None {
            fail
        } else {
            (
                Bmp280State { is_initialized: true, phase: Bmp280Phase::Idle, ..s },
                I2cRequest::Done(Ok(Bmp280Done::Initialized)),
            )
        },
        Bmp280Phase::ReadData => match reply {
            None => fail,
            Some(d) => (
                Bmp280State {
                    t_fine: spec_reading(d, s.calibration).t_fine,
                    phase: Bmp280Phase::Idle,
                    ..s
                },
                I2cRequest::Done(Ok(Bmp280Done::Measured(spec_reading(d, s.calibration)))),
            ),
        },
    }
}

/// The request that a phase waits on the reply to, as far as its length goes.
pub open spec fn awaited_len(p: Bmp280Phase) -> nat {
    match p {
        Bmp280Phase::Detect { .. } => 1,
        Bmp280Phase::Calibration => 24,
        Bmp280Phase::ReadData => 6,
        _ => 0,
    }
}

/// The little-endian unsigned word of two bytes.
pub fn u16_from_le(lo: u8, hi: u8) -> (w: u16)
    ensures
        w == le_u16(lo, hi),
{
    let w = (lo as u16) | ((hi as u16) << 8u16);
    assert(w == lo as u16 + 256 * (hi as u16)) by (bit_vector)
        requires
            w == (lo as u16) | ((hi as u16) << 8u16),
    ;
    w
}

/// The little-endian two's-complement word of two bytes.
pub fn i16_from_le(lo: u8, hi: u8) -> (w: i16)
    ensures
        w == le_i16(lo, hi),
{
    let u = u16_from_le(lo, hi);
    let w = u as i16;
    assert(w == if u < 32768 { u as int } else { u as int - 65536 }) by (bit_vector)
        requires
            w == u as i16,
    ;
    w
}

/// Parses the 24 calibration bytes.
pub fn parse_calibration(b: &[u8]) -> (c: CalibrationData)
    requires
        b@.len() == 24,
    ensures
        c == spec_calibration(b@),
{
    CalibrationData {
        dig_t1: u16_from_le(b[0], b[1]),
        dig_t2: i16_from_le(b[2], b[3]),
        dig_t3: i16_from_le(b[4], b[5]),
        dig_p1: u16_from_le(b[6], b[7]),
        dig_p2: i16_from_le(b[8], b[9]),
        dig_p3: i16_from_le(b[10], b[11]),
        dig_p4: i16_from_le(b[12], b[13]),
        dig_p5: i16_from_le(b[14], b[15]),
        dig_p6: i16_from_le(b[16], b[17]),
        dig_p7: i16_from_le(b[18], b[19]),
        dig_p8: i16_from_le(b[20], b[21]),
        dig_p9: i16_from_le(b[22], b[23]),
    }
}

/// A 20-bit raw value from its three register bytes.
pub fn raw20(msb: u8, lsb: u8, xlsb: u8) -> (r: u32)
    ensures
        r == spec_raw20(msb, lsb, xlsb),
        r < 0x10_0000,
{
    let a = msb as u32;
    let b = lsb as u32;
    let c = xlsb as u32;
    let r = (a << 12) | (b << 4) | (c >> 4);
    assert(r == a * 4096 + b * 16 + c / 16) by (bit_vector)
        requires
            a < 256 && b < 256 && c < 256,
            r == (a << 12) | (b << 4) | (c >> 4),
    ;
    r
}

/// The datasheet's temperature compensation: the fine temperature of a raw
/// temperature, and from it the temperature in hundredths of a degree.
pub fn compensate_temperature(raw: u32, c: &CalibrationData) -> (r: (i32, i32))
    requires
        raw < 0x10_0000,
    ensures
        r.0 == spec_t_fine(raw, *c),
        r.1 == spec_centi_degrees(r.0),
{
    let adc = raw as i32;
    let t1 = c.dig_t1 as i32;
    assert(adc >> 3u32 <= 0x2_0000 && adc >> 3u32 >= 0 && adc >> 4u32 <= 0x1_0000 && adc >> 4u32 >= 0) by (bit_vector)
        requires
            0 <= adc < 0x10_0000,
    ;
    assert(t1 << 1u32 == 2 * t1) by (bit_vector)
        requires
            0 <= t1 < 0x1_0000,
    ;
    let var1 = ((adc >> 3u32) - (t1 << 1u32)).wrapping_mul(c.dig_t2 as i32) >> 11u32;
    let d = (adc >> 4u32) - t1;
    let var2 = (d.wrapping_mul(d) >> 12u32).wrapping_mul(c.dig_t3 as i32) >> 14u32;
    let x = ((adc >> 3u32) - (t1 << 1u32)).wrapping_mul(c.dig_t2 as i32);
    let y = (d.wrapping_mul(d) >> 12u32).wrapping_mul(c.dig_t3 as i32);
    assert(-0x10_0000 <= x >> 11u32 <= 0x10_0000 && -0x2_0000 <= y >> 14u32 <= 0x2_0000) by (bit_vector);
    let t_fine = var1 + var2;
    let centi = (t_fine * 5 + 128) >> 8u32;
    (t_fine, centi)
}

/// BMP280 driver: the I2C bus, the address the chip answered at, its
/// calibration, the last fine temperature, and the operation under way.
pub struct Bmp280<I2C> {
    i2c: I2C,
    addr: u8,
    calibration: CalibrationData,
    t_fine: i32,
    is_initialized: bool,
    phase: Bmp280Phase,
}

impl<I2C> Bmp280<I2C> {
    /// The bus.
    pub closed spec fn bus(&self) -> I2C {
        self.i2c
    }

    /// The protocol state.
    pub closed spec fn state(&self) -> Bmp280State {
        Bmp280State {
            addr: self.addr,
            calibration: self.calibration,
            t_fine: self.t_fine,
            is_initialized: self.is_initialized,
            phase: self.phase,
        }
    }

    /// Whether `reply` is a reply that the operation under way can take.
    pub open spec fn accepts(&self, reply: Option<Seq<u8>>) -> bool {
        &&& self.state().phase != Bmp280Phase::Idle
        &&& reply matches Some(d) ==> d.len() == awaited_len(self.state().phase)
    }

    /// A driver on `i2c` at address 0x76, with zero calibration, not
    /// initialised.
    pub fn new(i2c: I2C) -> (s: Self)
        ensures
            s.bus() == i2c,
            s.state() == (Bmp280State {
                addr: BMP280_ADDR_LOW,
                calibration: CalibrationData {
                    dig_t1: 0,
                    dig_t2: 0,
                    dig_t3: 0,
                    dig_p1: 0,
                    dig_p2: 0,
                    dig_p3: 0,
                    dig_p4: 0,
                    dig_p5: 0,
                    dig_p6: 0,
                    dig_p7: 0,
                    dig_p8: 0,
                    dig_p9: 0,
                },
                t_fine: 0,
                is_initialized: false,
                phase: Bmp280Phase::Idle,
            }),
    {
        Self {
            i2c,
            addr: BMP280_ADDR_LOW,
            calibration: CalibrationData {
                dig_t1: 0,
                dig_t2: 0,
                dig_t3: 0,
                dig_p1: 0,
                dig_p2: 0,
                dig_p3: 0,
                dig_p4: 0,
                dig_p5: 0,
                dig_p6: 0,
                dig_p7: 0,
                dig_p8: 0,
                dig_p9: 0,
            },
            t_fine: 0,
            is_initialized: false,
            phase: Bmp280Phase::Idle,
        }
    }

    /// Starts initialisation with the chip identification query at 0x76.
    pub fn init(&mut self) -> (req: I2cStep<Bmp280Outcome>)
        ensures
            final(self).bus() == old(self).bus(),
            final(self).state() == (Bmp280State {
                phase: Bmp280Phase::Detect { high: false },
                ..old(self).state()
            }),
            req@ == id_request(BMP280_ADDR_LOW),
    {
        self.phase = Bmp280Phase::Detect { high: false };
        let req = I2cStep::WriteRead { addr: BMP280_ADDR_LOW, bytes: one_byte(REG_ID), read_len: 1 };
        assert(req@ == id_request(BMP280_ADDR_LOW));
        req
    }

    /// Starts a reading: `DeviceNotFound` at once when the driver is not
    /// initialised, else the read of the six measurement bytes.
    pub fn read(&mut self) -> (req: I2cStep<Bmp280Outcome>)
        ensures
            final(self).bus() == old(self).bus(),
            !old(self).state().is_initialized ==> final(self).state() == (Bmp280State {
                phase: Bmp280Phase::Idle,
                ..old(self).state()
            }) && req@ == I2cRequest::<Bmp280Outcome>::Done(Err(Bmp280Error::DeviceNotFound)),
            old(self).state().is_initialized ==> final(self).state() == (Bmp280State {
                phase: Bmp280Phase::ReadData,
                ..old(self).state()
            }) && req@ == (I2cRequest::<Bmp280Outcome>::WriteRead {
                addr: old(self).state().addr,
                bytes: seq![REG_PRESSURE_MSB],
                read_len: 6,
            }),
    {
        if !self.is_initialized {
            self.phase = Bmp280Phase::Idle;
            return I2cStep::Done(Err(Bmp280Error::DeviceNotFound));
        }
        self.phase = Bmp280Phase::ReadData;
        I2cStep::WriteRead { addr: self.addr, bytes: one_byte(REG_PRESSURE_MSB), read_len: 6 }
    }

    /// Whether an operation is under way.
    pub fn is_busy(&self) -> (b: bool)
        ensures
            b == (self.state().phase != Bmp280Phase::Idle),
    {
        !matches!(self.phase, Bmp280Phase::Idle)
    }

    /// Whether `init` found the chip and configured it.
    pub fn is_initialized(&self) -> (b: bool)
        ensures
            b == self.state().is_initialized,
    {
        self.is_initialized
    }

    /// The calibration words read by `init`.
    pub fn calibration(&self) -> (c: CalibrationData)
        ensures
            c == self.state().calibration,
    {
        self.calibration
    }

    /// The fine temperature of the last reading.
    pub fn t_fine(&self) -> (t: i32)
        ensures
            t == self.state().t_fine,
    {
        self.t_fine
    }

    /// Takes the reply to the last request and returns the next request.
    pub fn step(&mut self, reply: Option<Vec<u8>>) -> (req: I2cStep<Bmp280Outcome>)
        requires
            old(self).accepts(reply.deep_view()),
        ensures
            final(self).bus() == old(self).bus(),
            (final(self).state(), req@) == bmp280_next(old(self).state(), reply.deep_view()),
    {
        match self.phase {
            Bmp280Phase::Idle => I2cStep::Done(Err(Bmp280Error::I2cError)),
            Bmp280Phase::Detect { high } => {
                let found = match &reply {
                    Some(d) => d[0] == BMP280_ID,
                    None => false,
                };
                if found {
                    let addr = if high { BMP280_ADDR_HIGH } else { BMP280_ADDR_LOW };
                    self.addr = addr;
                    self.phase = Bmp280Phase::Reset;
                    let req = I2cStep::Write { addr, bytes: vec![REG_RESET, RESET_VALUE] };
                    assert(req@ == (I2cRequest::<Bmp280Outcome>::Write { addr, bytes: seq![REG_RESET, RESET_VALUE] }));
                    req
                } else if !high {
                    self.phase = Bmp280Phase::Detect { high: true };
                    let req = I2cStep::WriteRead { addr: BMP280_ADDR_HIGH, bytes: one_byte(REG_ID), read_len: 1 };
                    assert(req@ == id_request(BMP280_ADDR_HIGH));
                    req
                } else {
                    self.phase = Bmp280Phase::Idle;
                    I2cStep::Done(Ok(Bmp280Done::Initialized))
                }
            },
            Bmp280Phase::Reset => {
                if reply.is_none() {
                    self.phase = Bmp280Phase::Idle;
                    I2cStep::Done(Err(Bmp280Error::I2cError))
                } else {
                    self.phase = Bmp280Phase::ResetDelay;
                    I2cStep::DelayMs(100)
                }
            },
            Bmp280Phase::ResetDelay => {
                self.phase = Bmp280Phase::Calibration;
                let req = I2cStep::WriteRead { addr: self.addr, bytes: one_byte(REG_CALIBRATION), read_len: 24 };
                assert(req@ == (I2cRequest::<Bmp280Outcome>::WriteRead { addr: self.addr, bytes: seq![REG_CALIBRATION], read_len: 24 }));
                req
            },
            Bmp280Phase::Calibration => {
                match reply {
                    None => {
                        self.phase = Bmp280Phase::Idle;
                        I2cStep::Done(Err(Bmp280Error::I2cError))
                    },
                    Some(d) => {
                        self.calibration = parse_calibration(d.as_slice());
                        self.phase = Bmp280Phase::ConfigFilter;
                        let config = (STANDBY_125MS << 5u8) | (FILTER_4 << 2u8);
                        let req = I2cStep::Write { addr: self.addr, bytes: vec![REG_CONFIG, config] };
                        assert(req@ == (I2cRequest::<Bmp280Outcome>::Write { addr: self.addr, bytes: seq![REG_CONFIG, config_value()] }));
                        req
                    },
                }
            },
            Bmp280Phase::ConfigFilter => {
                if reply.is_none() {
                    self.phase = Bmp280Phase::Idle;
                    I2cStep::Done(Err(Bmp280Error::I2cError))
                } else {
                    self.phase = Bmp280Phase::ConfigMeasure;
                    let ctrl = (OVERSAMPLING_16X << 5u8) | (OVERSAMPLING_16X << 2u8) | MODE_NORMAL;
                    let req = I2cStep::Write { addr: self.addr, bytes: vec![REG_CTRL_MEAS, ctrl] };
                    assert(req@ == (I2cRequest::<Bmp280Outcome>::Write { addr: self.addr, bytes: seq![REG_CTRL_MEAS, ctrl_meas_value()] }));
                    req
                }
            },
            Bmp280Phase::ConfigMeasure => {
                if reply.is_none() {
                    self.phase = Bmp280Phase::Idle;
                    I2cStep::Done(Err(Bmp280Error::I2cError))
                } else {
                    self.is_initialized = true;
                    self.phase = Bmp280Phase::Idle;
                    I2cStep::Done(Ok(Bmp280Done::Initialized))
                }
            },
            Bmp280Phase::ReadData => {
                match reply {
                    None => {
                        self.phase = Bmp280Phase::Idle;
                        I2cStep::Done(Err(Bmp280Error::I2cError))
                    },
                    Some(d) => {
                        let pressure_raw = raw20(d[0], d[1], d[2]);
                        let temperature_raw = raw20(d[3], d[4], d[5]);
                        let (t_fine, temperature_centi) = compensate_temperature(temperature_raw, &self.calibration);
                        self.t_fine = t_fine;
                        self.phase = Bmp280Phase::Idle;
                        I2cStep::Done(Ok(Bmp280Done::Measured(Bmp280Raw {
                            pressure_raw,
                            temperature_raw,
                            t_fine,
                            temperature_centi,
                        })))
                    },
                }
            },
        }
    }

    /// The bus, to perform the requested transactions on.
    pub fn bus_mut(&mut self) -> (r: &mut I2C)
        ensures
            *r == old(self).bus(),
            final(self).bus() == *final(r),
            final(self).state() == old(self).state(),
    {
        &mut self.i2c
    }

    /// Gives the bus back.
    pub fn release(self) -> (i2c: I2C)
        ensures
            i2c == self.bus(),
    {
        self.i2c
    }
}

/// Only a chip that answers the BMP280's identity 0x58 is reset and set up,
/// at the address where it answered.
pub proof fn law_only_bmp280_is_set_up(s: Bmp280State, reply: Option<Seq<u8>>)
    requires
        s.phase is Detect,
    ensures
        bmp280_next(s, reply).1 is Write ==> (reply matches Some(d) && d[0] == BMP280_ID),
        bmp280_next(s, reply).1 is Write ==> bmp280_next(s, reply).0.addr == detect_addr(
            s.phase->high,
        ),
{
}

/// A raw 20-bit measurement lies below 2^20.
pub proof fn law_raw20_in_range(msb: u8, lsb: u8, xlsb: u8)
    ensures
        (msb as nat * 4096 + lsb as nat * 16 + xlsb as nat / 16) < 0x10_0000,
        spec_raw20(msb, lsb, xlsb) == msb as nat * 4096 + lsb as nat * 16 + xlsb as nat / 16,
{
}

/// The temperature in hundredths of a degree is `(5 * t_fine + 128) / 256`
/// rounded down: it has the sign of the fine temperature (below -26 it is
/// negative, from 0 on it is not), and a higher fine temperature never
/// gives a lower temperature. Fine temperatures lie well inside the bound
/// (see `law_fine_temperature_range`).
pub proof fn law_centi_degrees_floor(t: i32, u: i32)
    requires
        -0x0100_0000 <= t <= 0x0100_0000,
        -0x0100_0000 <= u <= 0x0100_0000,
    ensures
        spec_centi_degrees(t) * 256 <= 5 * t + 128 < spec_centi_degrees(t) * 256 + 256,
        t < -26 ==> spec_centi_degrees(t) < 0,
        t >= 0 ==> spec_centi_degrees(t) >= 0,
        t <= u ==> spec_centi_degrees(t) <= spec_centi_degrees(u),
{
    let x: i32 = (t * 5 + 128) as i32;
    let y: i32 = (u * 5 + 128) as i32;
    assert(x == 5 * t + 128);
    assert(y == 5 * u + 128);
    assert((x >> 8u32) * 256 <= x && x < (x >> 8u32) * 256 + 256) by (bit_vector);
    assert((y >> 8u32) * 256 <= y && y < (y >> 8u32) * 256 + 256) by (bit_vector);
}

/// The fine temperature of any 20-bit raw temperature, whatever the
/// calibration, lies within +-0x12_0000.
pub proof fn law_fine_temperature_range(raw: u32, c: CalibrationData)
    requires
        raw < 0x10_0000,
    ensures
        -0x12_0000 <= spec_t_fine(raw, c) <= 0x12_0000,
{
    let adc = raw as i32;
    let t1 = c.dig_t1 as i32;
    let x = vstd::wrapping::i32_specs::wrapping_mul(((adc >> 3u32) - (t1 << 1u32)) as i32, c.dig_t2 as i32);
    let d = ((adc >> 4u32) - t1) as i32;
    let y = vstd::wrapping::i32_specs::wrapping_mul(
        vstd::wrapping::i32_specs::wrapping_mul(d, d) >> 12u32,
        c.dig_t3 as i32,
    );
    assert(-0x10_0000 <= x >> 11u32 <= 0x10_0000 && -0x2_0000 <= y >> 14u32 <= 0x2_0000) by (bit_vector);
}

/// Every calibration word is little-endian: word `k` has byte `2k` as its
/// low byte and byte `2k + 1` as its high byte (for the signed words, the
/// high byte is the two's-complement high half).
pub proof fn law_calibration_little_endian(b: Seq<u8>)
    requires
        b.len() == 24,
    ensures
        ({
            let c = spec_calibration(b);
            &&& c.dig_t1 % 256 == b[0] && c.dig_t1 / 256 == b[1]
            &&& low_byte(c.dig_t2) == b[2] && high_byte(c.dig_t2) == b[3]
            &&& low_byte(c.dig_t3) == b[4] && high_byte(c.dig_t3) == b[5]
            &&& c.dig_p1 % 256 == b[6] && c.dig_p1 / 256 == b[7]
            &&& low_byte(c.dig_p2) == b[8] && high_byte(c.dig_p2) == b[9]
            &&& low_byte(c.dig_p3) == b[10] && high_byte(c.dig_p3) == b[11]
            &&& low_byte(c.dig_p4) == b[12] && high_byte(c.dig_p4) == b[13]
            &&& low_byte(c.dig_p5) == b[14] && high_byte(c.dig_p5) == b[15]
            &&& low_byte(c.dig_p6) == b[16] && high_byte(c.dig_p6) == b[17]
            &&& low_byte(c.dig_p7) == b[18] && high_byte(c.dig_p7) == b[19]
            &&& low_byte(c.dig_p8) == b[20] && high_byte(c.dig_p8) == b[21]
            &&& low_byte(c.dig_p9) == b[22] && high_byte(c.dig_p9) == b[23]
        }),
{
    lemma_signed_word_bytes(b[2], b[3]);
    lemma_signed_word_bytes(b[4], b[5]);
    lemma_signed_word_bytes(b[8], b[9]);
    lemma_signed_word_bytes(b[10], b[11]);
    lemma_signed_word_bytes(b[12], b[13]);
    lemma_signed_word_bytes(b[14], b[15]);
    lemma_signed_word_bytes(b[16], b[17]);
    lemma_signed_word_bytes(b[18], b[19]);
    lemma_signed_word_bytes(b[20], b[21]);
    lemma_signed_word_bytes(b[22], b[23]);
}

/// The low byte of a two's-complement 16-bit word.
pub open spec fn low_byte(w: i16) -> int {
    w as int % 256
}

/// The high byte of a two's-complement 16-bit word.
pub open spec fn high_byte(w: i16) -> int {
    ((w as int - low_byte(w)) / 256) % 256
}

proof fn lemma_signed_word_bytes(lo: u8, hi: u8)
    ensures
        low_byte(le_i16(lo, hi)) == lo,
        high_byte(le_i16(lo, hi)) == hi,
{
    let v = le_i16(lo, hi) as int;
    if hi < 128 {
        assert(v == lo + 256 * hi);
        assert(v % 256 == lo);
        assert((v - lo) / 256 == hi);
    } else {
        assert(v == lo + 256 * hi - 65536);
        assert(v % 256 == lo);
        assert((v - lo) / 256 == hi - 256);
        assert((hi - 256) % 256 == hi);
    }
}

} // verus!
