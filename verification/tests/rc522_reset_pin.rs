use rfid_stm32h750::rc522::{ReaderOutput, ReaderRequest, RC522};
use rfid_stm32h750::types::{CardType, Error, KeyType};
use std::collections::VecDeque;

/// CRC_A of ISO/IEC 14443-3, low byte first.
fn crc_a(bytes: &[u8]) -> [u8; 2] {
    let mut crc: u16 = 0x6363;
    for &byte in bytes {
        let mut b = byte ^ (crc & 0xFF) as u8;
        b ^= b << 4;
        crc = (crc >> 8) ^ ((b as u16) << 8) ^ ((b as u16) << 3) ^ ((b as u16) >> 4);
    }
    [(crc & 0xFF) as u8, (crc >> 8) as u8]
}

/// A simulated reader: registers by number, addressed as the chip expects.
struct Reader {
    regs: [u8; 64],
    fifo: VecDeque<u8>,
    answers: VecDeque<Vec<u8>>,
    sent: Vec<Vec<u8>>,
    frames: Vec<[u8; 2]>,
    writes: Vec<(u8, u8)>,
    rst: Vec<bool>,
    irq_never: bool,
    crc_never: bool,
}

impl Reader {
    fn new() -> Self {
        Reader {
            regs: [0; 64],
            fifo: VecDeque::new(),
            answers: VecDeque::new(),
            sent: Vec::new(),
            frames: Vec::new(),
            writes: Vec::new(),
            rst: Vec::new(),
            irq_never: false,
            crc_never: false,
        }
    }

    fn handle(&mut self, req: &ReaderRequest<u8>) -> Result<[u8; 2], u8> {
        match req {
            ReaderRequest::RstLow => {
                self.rst.push(false);
                Ok([0, 0])
            }
            ReaderRequest::RstHigh => {
                self.rst.push(true);
                Ok([0, 0])
            }
            ReaderRequest::DelayCycles(_) => Ok([0, 0]),
            ReaderRequest::Transfer([a, v]) => {
                self.frames.push([*a, *v]);
                assert_eq!(a & 0x01, 0, "bit 0 of an address byte is clear");
                let reg = (a >> 1) & 0x3F;
                if a & 0x80 != 0 {
                    let value = match reg {
                        0x09 => self.fifo.pop_front().unwrap_or(0),
                        0x0A => self.fifo.len() as u8,
                        _ => self.regs[reg as usize],
                    };
                    Ok([0, value])
                } else {
                    self.writes.push((reg, *v));
                    match (reg, *v) {
                        (0x09, v) => self.fifo.push_back(v),
                        (0x0A, v) if v & 0x80 != 0 => self.fifo.clear(),
                        (0x01, 0x03) => {
                            let data: Vec<u8> = self.fifo.iter().copied().collect();
                            let [lo, hi] = crc_a(&data);
                            self.regs[0x22] = lo;
                            self.regs[0x21] = hi;
                            if !self.crc_never {
                                self.regs[0x05] |= 0x04;
                            }
                        }
                        (0x01, 0x0E) => {
                            self.sent.push(self.fifo.drain(..).collect());
                            if !self.irq_never {
                                self.regs[0x04] |= 0x01;
                            }
                        }
                        (0x0D, v) if v & 0x80 != 0 => {
                            self.sent.push(self.fifo.drain(..).collect());
                            self.fifo = self.answers.pop_front().unwrap_or_default().into_iter().collect();
                            if !self.irq_never {
                                self.regs[0x04] |= 0x01;
                            }
                        }
                        (r, v) => self.regs[r as usize] = v,
                    }
                    Ok([0, 0])
                }
            }
            ReaderRequest::Done(_) => unreachable!(),
        }
    }
}

fn run(rc: &mut RC522<(), ()>, reader: &mut Reader, mut req: ReaderRequest<u8>) -> Result<ReaderOutput, Error<u8>> {
    let mut n = 0;
    loop {
        if let ReaderRequest::Done(out) = req {
            assert!(!rc.is_busy());
            return out;
        }
        n += 1;
        assert!(n < 100_000);
        let reply = reader.handle(&req);
        req = rc.step(reply);
    }
}

#[test]
fn new_pulses_reset_and_switches_antenna_on() {
    let mut reader = Reader::new();
    let (mut rc, first) = RC522::<(), ()>::new::<u8>((), ());
    assert_eq!(first, ReaderRequest::RstLow);
    assert_eq!(run(&mut rc, &mut reader, first), Ok(ReaderOutput::Unit));
    assert_eq!(reader.rst, vec![false, true]);
    assert_eq!(reader.writes, vec![(0x01, 0x0F), (0x02, 0x7F), (0x03, 0x00), (0x14, 0x03)]);
    assert_eq!(reader.frames, vec![[0x02, 0x0F], [0x04, 0x7F], [0x06, 0x00], [0x28, 0x03]]);
}

#[test]
fn request_frames_follow_the_address_rule() {
    let mut reader = Reader::new();
    reader.answers.push_back(vec![0x04, 0x00]);
    let (mut rc, _) = RC522::<(), ()>::new::<u8>((), ());
    let first = rc.request::<u8>();
    assert_eq!(first, ReaderRequest::Transfer([0x1A, 0x07]));
    assert_eq!(run(&mut rc, &mut reader, first), Ok(ReaderOutput::Card(CardType::MifareUltralight)));
    assert_eq!(
        reader.frames[..7],
        [[0x1A, 0x07], [0x02, 0x00], [0x12, 0x52], [0x02, 0x0C], [0x1A, 0x87], [0x88, 0x00], [0x8C, 0x00]]
    );
}

#[test]
fn reset_pin_error_is_spi_error() {
    let (mut rc, first) = RC522::<(), ()>::new::<u8>((), ());
    assert_eq!(first, ReaderRequest::RstLow);
    assert_eq!(rc.step::<u8>(Err(9)), ReaderRequest::Done(Err(Error::Spi(9))));
}

#[test]
fn request_names_the_card() {
    for (atqa, card) in [
        ([0x02, 0x00], CardType::Mifare1K),
        ([0x04, 0x00], CardType::MifareUltralight),
        ([0x02, 0x04], CardType::Mifare4K),
        ([0x44, 0x00], CardType::Unknown),
    ] {
        let mut reader = Reader::new();
        reader.answers.push_back(atqa.to_vec());
        let (mut rc, _) = RC522::<(), ()>::new::<u8>((), ());
        let first = rc.request::<u8>();
        assert_eq!(run(&mut rc, &mut reader, first), Ok(ReaderOutput::Card(card)));
        assert_eq!(reader.sent, vec![vec![0x52]]);
    }
}

#[test]
fn request_without_two_bytes_is_no_card() {
    let mut reader = Reader::new();
    reader.answers.push_back(vec![0x04]);
    let (mut rc, _) = RC522::<(), ()>::new::<u8>((), ());
    let first = rc.request::<u8>();
    assert_eq!(run(&mut rc, &mut reader, first), Err(Error::NoCard));
}

#[test]
fn request_collision() {
    let mut reader = Reader::new();
    reader.answers.push_back(vec![0x04, 0x00]);
    reader.regs[0x06] = 0x08;
    let (mut rc, _) = RC522::<(), ()>::new::<u8>((), ());
    let first = rc.request::<u8>();
    assert_eq!(run(&mut rc, &mut reader, first), Err(Error::Collision));
}

#[test]
fn request_times_out_after_a_thousand_polls() {
    let mut reader = Reader::new();
    reader.irq_never = true;
    let (mut rc, _) = RC522::<(), ()>::new::<u8>((), ());
    let first = rc.request::<u8>();
    assert_eq!(run(&mut rc, &mut reader, first), Err(Error::Timeout));
    let polls = reader.frames.iter().filter(|f| **f == [0x88, 0x00]).count();
    assert_eq!(polls, 1000);
}

#[test]
fn anticoll_keeps_four_of_five_bytes() {
    let mut reader = Reader::new();
    reader.answers.push_back(vec![9, 8, 7, 6, 5]);
    let (mut rc, _) = RC522::<(), ()>::new::<u8>((), ());
    let first = rc.anticoll::<u8>();
    assert_eq!(run(&mut rc, &mut reader, first), Ok(ReaderOutput::Uid([9, 8, 7, 6])));
    assert_eq!(reader.sent, vec![vec![0x93, 0x20]]);
    let mut reader = Reader::new();
    reader.answers.push_back(vec![9, 8, 7, 6]);
    let first = rc.anticoll::<u8>();
    assert_eq!(run(&mut rc, &mut reader, first), Err(Error::Collision));
}

#[test]
fn authenticate_sends_key_and_uid() {
    let mut reader = Reader::new();
    let (mut rc, _) = RC522::<(), ()>::new::<u8>((), ());
    let first = rc.authenticate::<u8>(4, KeyType::KeyA, &[1, 2, 3, 4, 5, 6], &[7, 8, 9, 10]);
    assert_eq!(run(&mut rc, &mut reader, first), Ok(ReaderOutput::Unit));
    assert_eq!(reader.sent, vec![vec![0x60, 4, 1, 2, 3, 4, 5, 6, 7, 8, 9, 10]]);
    let mut reader = Reader::new();
    reader.regs[0x07] = 0x08;
    let first = rc.authenticate::<u8>(4, KeyType::KeyB, &[0; 6], &[0; 4]);
    assert_eq!(run(&mut rc, &mut reader, first), Err(Error::Timeout));
    assert_eq!(reader.sent[0][0], 0x61);
}

#[test]
fn read_wants_eighteen_bytes() {
    let mut reader = Reader::new();
    let answer: Vec<u8> = (10..28).collect();
    reader.answers.push_back(answer);
    let (mut rc, _) = RC522::<(), ()>::new::<u8>((), ());
    let first = rc.read::<u8>(8);
    let mut block = [0u8; 16];
    for (i, b) in block.iter_mut().enumerate() {
        *b = 10 + i as u8;
    }
    assert_eq!(run(&mut rc, &mut reader, first), Ok(ReaderOutput::Block(block)));
    let [lo, hi] = crc_a(&[0x30, 8]);
    assert_eq!(reader.sent, vec![vec![0x30, 8, lo, hi]]);
    let mut reader = Reader::new();
    reader.answers.push_back(vec![0; 17]);
    let first = rc.read::<u8>(8);
    assert_eq!(run(&mut rc, &mut reader, first), Err(Error::NoCard));
}

#[test]
fn read_frame_carries_crc_a() {
    assert_eq!(crc_a(&[0x00, 0x00]), [0xA0, 0x1E]);
    let mut reader = Reader::new();
    reader.answers.push_back(vec![0; 18]);
    let (mut rc, _) = RC522::<(), ()>::new::<u8>((), ());
    let first = rc.read::<u8>(0x04);
    assert_eq!(first, ReaderRequest::Transfer([0x02, 0x00]));
    assert_eq!(run(&mut rc, &mut reader, first), Ok(ReaderOutput::Block([0; 16])));
    let sent = &reader.sent[0];
    assert_eq!(sent.len(), 4);
    assert_eq!(sent[..2], [0x30, 0x04]);
    assert_eq!(sent[2..], crc_a(&[0x30, 0x04]));
}

#[test]
fn read_times_out_when_the_crc_never_comes() {
    let mut reader = Reader::new();
    reader.crc_never = true;
    let (mut rc, _) = RC522::<(), ()>::new::<u8>((), ());
    let first = rc.read::<u8>(8);
    assert_eq!(run(&mut rc, &mut reader, first), Err(Error::Timeout));
    assert!(reader.sent.is_empty());
    let polls = reader.frames.iter().filter(|f| **f == [0x8A, 0x00]).count();
    assert_eq!(polls, 1 + 255);
}

#[test]
fn write_needs_ack_then_sends_data() {
    let mut reader = Reader::new();
    reader.regs[0x0C] = 0x04;
    reader.answers.push_back(vec![0x0A]);
    reader.answers.push_back(vec![]);
    let (mut rc, _) = RC522::<(), ()>::new::<u8>((), ());
    let data = [3u8; 16];
    let first = rc.write::<u8>(9, &data);
    assert_eq!(run(&mut rc, &mut reader, first), Ok(ReaderOutput::Unit));
    let mut cmd = vec![0xA0, 9];
    cmd.extend_from_slice(&crc_a(&cmd));
    let mut body = data.to_vec();
    body.extend_from_slice(&crc_a(&data));
    assert_eq!(reader.sent, vec![cmd, body]);
    let mut reader = Reader::new();
    reader.regs[0x0C] = 0x04;
    reader.answers.push_back(vec![0x04]);
    let first = rc.write::<u8>(9, &data);
    assert_eq!(run(&mut rc, &mut reader, first), Err(Error::Collision));
}

#[test]
fn write_ack_needs_four_valid_bits() {
    let data = [7u8; 16];
    let (mut rc, _) = RC522::<(), ()>::new::<u8>((), ());
    let mut reader = Reader::new();
    reader.regs[0x0C] = 0x00;
    reader.answers.push_back(vec![0x0A]);
    let first = rc.write::<u8>(1, &data);
    assert_eq!(run(&mut rc, &mut reader, first), Err(Error::Collision));
    assert_eq!(reader.sent.len(), 1);
    let mut reader = Reader::new();
    reader.regs[0x0C] = 0x04;
    reader.answers.push_back(vec![0x1A]);
    reader.answers.push_back(vec![]);
    let first = rc.write::<u8>(1, &data);
    assert_eq!(run(&mut rc, &mut reader, first), Ok(ReaderOutput::Unit));
    assert_eq!(reader.sent.len(), 2);
}
