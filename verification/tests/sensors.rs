use rfid_stm32h750::dht11::{Dht11, DhtError, PinStep};
use rfid_stm32h750::drivers::aht20::{decode_measurement, Aht20, Aht20Done, Aht20Error, Aht20Sample};
use rfid_stm32h750::drivers::bmp280::{
    compensate_temperature, parse_calibration, Bmp280, Bmp280Done, Bmp280Error, CalibrationData,
};
use rfid_stm32h750::drivers::I2cStep;

/// Runs an I2C step machine against `device`, which answers each
/// transaction; returns the outcome and the transactions seen.
fn run_i2c<T: Copy>(
    mut req: I2cStep<T>,
    mut step: impl FnMut(Option<Vec<u8>>) -> I2cStep<T>,
    mut device: impl FnMut(&I2cStep<T>) -> Option<Vec<u8>>,
) -> (T, usize) {
    let mut n = 0;
    loop {
        if let I2cStep::Done(t) = req {
            return (t, n);
        }
        n += 1;
        assert!(n < 10_000);
        let reply = device(&req);
        req = step(reply);
    }
}

fn aht20_frame(humidity: u32, temperature: u32) -> Vec<u8> {
    vec![
        0x1C,
        (humidity >> 12) as u8,
        (humidity >> 4) as u8,
        (((humidity & 0xF) << 4) | (temperature >> 16)) as u8,
        (temperature >> 8) as u8,
        temperature as u8,
        0x00,
    ]
}

#[test]
fn aht20_decodes_raw_values() {
    let frame = aht20_frame(0x8_0000, 0x6_0000);
    assert_eq!(
        decode_measurement(&frame),
        Ok(Aht20Sample { humidity_raw: 0x8_0000, temperature_raw: 0x6_0000 })
    );
    let edge = aht20_frame(0xF_FFFF, 786_432);
    assert_eq!(
        decode_measurement(&edge),
        Ok(Aht20Sample { humidity_raw: 0xF_FFFF, temperature_raw: 786_432 })
    );
    assert_eq!(decode_measurement(&aht20_frame(0, 786_433)), Err(Aht20Error::InvalidData));
}

#[test]
fn aht20_init_skips_calibration_when_calibrated() {
    let mut s = Aht20::new(());
    let first = s.init();
    let mut writes = 0;
    let (out, _) = run_i2c(first, |r| s.step(r), |req| match req {
        I2cStep::Write { .. } => {
            writes += 1;
            Some(vec![])
        }
        I2cStep::WriteRead { read_len, .. } => Some(vec![0x18; *read_len]),
        I2cStep::Read { read_len, .. } => Some(vec![0; *read_len]),
        _ => Some(vec![]),
    });
    assert_eq!(out, Ok(Aht20Done::Initialized));
    assert_eq!(writes, 1);
}

#[test]
fn aht20_init_calibrates_when_needed() {
    let mut s = Aht20::new(());
    let first = s.init();
    let mut calibrate = None;
    let (out, _) = run_i2c(first, |r| s.step(r), |req| match req {
        I2cStep::Write { bytes, .. } => {
            if bytes[0] == 0xBE {
                calibrate = Some(bytes.clone());
            }
            Some(vec![])
        }
        I2cStep::WriteRead { read_len, .. } => Some(vec![0x10; *read_len]),
        _ => Some(vec![]),
    });
    assert_eq!(out, Ok(Aht20Done::Initialized));
    assert_eq!(calibrate, Some(vec![0xBE, 0x08, 0x00]));
}

#[test]
fn aht20_read_waits_while_busy() {
    let mut s = Aht20::new(());
    let first = s.read();
    let mut polls = 0;
    let (out, _) = run_i2c(first, |r| s.step(r), |req| match req {
        I2cStep::WriteRead { .. } => {
            polls += 1;
            Some(vec![if polls < 4 { 0x80 } else { 0x00 }])
        }
        I2cStep::Read { .. } => Some(aht20_frame(0x4_0000, 0x5_0000)),
        _ => Some(vec![]),
    });
    assert_eq!(
        out,
        Ok(Aht20Done::Measured(Aht20Sample { humidity_raw: 0x4_0000, temperature_raw: 0x5_0000 }))
    );
    assert_eq!(polls, 4);
}

#[test]
fn aht20_read_gives_up_when_always_busy() {
    let mut s = Aht20::new(());
    let first = s.read();
    let mut polls = 0;
    let (out, _) = run_i2c(first, |r| s.step(r), |req| match req {
        I2cStep::WriteRead { .. } => {
            polls += 1;
            Some(vec![0x80])
        }
        _ => Some(vec![]),
    });
    assert_eq!(out, Err(Aht20Error::Busy));
    assert_eq!(polls, 101);
}

#[test]
fn aht20_bus_error_is_i2c_error() {
    let mut s = Aht20::new(());
    let first = s.read();
    let (out, n) = run_i2c(first, |r| s.step(r), |_| None);
    assert_eq!(out, Err(Aht20Error::I2cError));
    assert_eq!(n, 1);
    assert!(!s.is_busy());
}

fn bmp280_calibration_bytes() -> Vec<u8> {
    let words: [u16; 12] = [
        27504, 26435, (-1000i16) as u16, 36477, (-10685i16) as u16, 3024, 2855, 140,
        (-7i16) as u16, 15500, (-14600i16) as u16, 6000,
    ];
    words.iter().flat_map(|w| w.to_le_bytes()).collect()
}

#[test]
fn bmp280_parses_calibration_little_endian() {
    let c = parse_calibration(&bmp280_calibration_bytes());
    assert_eq!(c.dig_t1, 27504);
    assert_eq!(c.dig_t2, 26435);
    assert_eq!(c.dig_t3, -1000);
    assert_eq!(c.dig_p1, 36477);
    assert_eq!(c.dig_p2, -10685);
    assert_eq!(c.dig_p9, 6000);
}

#[test]
fn bmp280_datasheet_temperature() {
    let c = parse_calibration(&bmp280_calibration_bytes());
    assert_eq!(compensate_temperature(519_888, &c), (128_422, 2508));
}

#[test]
fn bmp280_init_finds_chip_at_high_address_and_reads() {
    let mut s = Bmp280::new(());
    let first = s.init();
    let cal = bmp280_calibration_bytes();
    let mut config = Vec::new();
    let (out, _) = run_i2c(first, |r| s.step(r), |req| match req {
        I2cStep::WriteRead { addr, bytes, .. } if bytes[0] == 0xD0 => {
            if *addr == 0x77 {
                Some(vec![0x58])
            } else {
                None
            }
        }
        I2cStep::WriteRead { bytes, .. } if bytes[0] == 0x88 => Some(cal.clone()),
        I2cStep::Write { addr, bytes } => {
            assert_eq!(*addr, 0x77);
            config.push(bytes.clone());
            Some(vec![])
        }
        _ => Some(vec![]),
    });
    assert_eq!(out, Ok(Bmp280Done::Initialized));
    assert!(s.is_initialized());
    assert_eq!(config, vec![vec![0xE0, 0xB6], vec![0xF5, 0x48], vec![0xF4, 0xB7]]);
    assert_eq!(s.calibration().dig_t1, 27504);

    let first = s.read();
    let (out, _) = run_i2c(first, |r| s.step(r), |req| match req {
        I2cStep::WriteRead { addr, bytes, read_len } => {
            assert_eq!((*addr, bytes[0], *read_len), (0x77, 0xF7, 6));
            Some(vec![0x65, 0x5A, 0xC0, 0x7E, 0xED, 0x00])
        }
        _ => Some(vec![]),
    });
    match out {
        Ok(Bmp280Done::Measured(r)) => {
            assert_eq!(r.pressure_raw, 415_148);
            assert_eq!(r.temperature_raw, 519_888);
            assert_eq!(r.t_fine, 128_422);
            assert_eq!(r.temperature_centi, 2508);
        }
        other => panic!("unexpected {:?}", other),
    }
    assert_eq!(s.t_fine(), 128_422);
}

#[test]
fn bmp280_without_chip_is_not_initialized() {
    let mut s = Bmp280::new(());
    let first = s.init();
    let (out, _) = run_i2c(first, |r| s.step(r), |_| Some(vec![0x60]));
    assert_eq!(out, Ok(Bmp280Done::Initialized));
    assert!(!s.is_initialized());
    let first = s.read();
    let (out, n) = run_i2c(first, |r| s.step(r), |_| Some(vec![]));
    assert_eq!(out, Err(Bmp280Error::DeviceNotFound));
    assert_eq!(n, 0);
    let _: CalibrationData = s.calibration();
}

#[test]
fn bmp280_bus_error_after_detection() {
    let mut s = Bmp280::new(());
    let first = s.init();
    let (out, _) = run_i2c(first, |r| s.step(r), |req| match req {
        I2cStep::WriteRead { .. } => Some(vec![0x58]),
        _ => None,
    });
    assert_eq!(out, Err(Bmp280Error::I2cError));
    assert!(!s.is_initialized());
}

/// Runs a DHT11 reading against a sensor that sends `bits`.
fn dht_read(bits: &[bool]) -> (Result<[u8; 5], DhtError>, usize) {
    let mut d = Dht11::new(());
    let mut req = d.read_raw();
    let mut k = 0;
    let mut sample_next = false;
    let mut in_one = false;
    let mut n = 0;
    loop {
        n += 1;
        assert!(n < 100_000);
        let reply = match req {
            PinStep::Done(out) => return (out, k),
            PinStep::DelayUs(28) => {
                sample_next = true;
                None
            }
            PinStep::IsHigh => {
                if sample_next {
                    sample_next = false;
                    let b = bits[k];
                    k += 1;
                    in_one = b;
                    Some(b)
                } else if in_one {
                    in_one = false;
                    Some(false)
                } else {
                    Some(false)
                }
            }
            PinStep::IsLow => Some(false),
            _ => None,
        };
        req = d.step(reply);
    }
}

fn dht_bits(bytes: [u8; 5]) -> Vec<bool> {
    bytes.iter().flat_map(|b| (0..8).rev().map(move |i| (b >> i) & 1 == 1)).collect()
}

#[test]
fn dht11_reads_bytes_with_checksum() {
    let bytes = [55, 0, 24, 3, 82];
    let (out, used) = dht_read(&dht_bits(bytes));
    assert_eq!(out, Ok(bytes));
    assert_eq!(used, 40);
}

#[test]
fn dht11_checksum_wraps() {
    let bytes = [200, 100, 0, 0, 44];
    assert_eq!(dht_read(&dht_bits(bytes)).0, Ok(bytes));
}

#[test]
fn dht11_checksum_mismatch() {
    let bytes = [55, 0, 24, 3, 83];
    assert_eq!(dht_read(&dht_bits(bytes)).0, Err(DhtError::ChecksumMismatch));
}

#[test]
fn dht11_timeout_when_no_answer() {
    let mut d = Dht11::new(());
    let mut req = d.read_raw();
    assert_eq!(req, PinStep::SetLow);
    let mut queries = 0;
    loop {
        let reply = match req {
            PinStep::Done(out) => {
                assert_eq!(out, Err(DhtError::Timeout));
                break;
            }
            PinStep::IsHigh | PinStep::IsLow => {
                queries += 1;
                Some(true)
            }
            _ => None,
        };
        req = d.step(reply);
    }
    assert_eq!(queries, 1000);
}
