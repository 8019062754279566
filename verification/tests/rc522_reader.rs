use rfid_stm32h750::drivers::rc522::{MifareKeyType, Rc522, Rc522Output, Rc522Request};
use rfid_stm32h750::drivers::rc522_link::{read_address, write_address, Rc522Error};
use std::collections::VecDeque;

/// A simulated RC522 with a card in front of it.
struct Chip {
    regs: [u8; 64],
    fifo: VecDeque<u8>,
    command: u8,
    answers: VecDeque<(Vec<u8>, u8)>,
    sent: Vec<Vec<u8>>,
    crc_inputs: Vec<Vec<u8>>,
    auth_ok: bool,
    cs_low: bool,
    fail_transfer_at: Option<usize>,
    transfers: usize,
    reg_writes: Vec<(u8, u8)>,
    reg_reads: Vec<u8>,
    crc_never: bool,
    silent: bool,
}

impl Chip {
    fn new() -> Self {
        Chip {
            regs: [0; 64],
            fifo: VecDeque::new(),
            command: 0,
            answers: VecDeque::new(),
            sent: Vec::new(),
            crc_inputs: Vec::new(),
            auth_ok: true,
            cs_low: false,
            fail_transfer_at: None,
            transfers: 0,
            reg_writes: Vec::new(),
            reg_reads: Vec::new(),
            crc_never: false,
            silent: false,
        }
    }

    fn write(&mut self, reg: u8, v: u8) {
        self.reg_writes.push((reg, v));
        match reg {
            0x09 => self.fifo.push_back(v),
            0x0A => {
                if v & 0x80 != 0 {
                    self.fifo.clear();
                }
            }
            0x01 => {
                self.command = v;
                match v {
                    0x03 => {
                        self.crc_inputs.push(self.fifo.drain(..).collect());
                        self.regs[0x22] = 0xC1;
                        self.regs[0x21] = 0xC2;
                        if !self.crc_never {
                            self.regs[0x05] |= 0x04;
                        }
                    }
                    0x0E => {
                        self.sent.push(self.fifo.drain(..).collect());
                        self.regs[0x04] |= 0x10;
                        if self.auth_ok {
                            self.regs[0x08] |= 0x08;
                        }
                    }
                    _ => {}
                }
            }
            0x0D => {
                self.regs[0x0D] = v;
                if v & 0x80 != 0 && self.command == 0x0C {
                    self.sent.push(self.fifo.drain(..).collect());
                    let (answer, bits) = self.answers.pop_front().unwrap_or((vec![], 0));
                    if self.silent {
                    } else if answer.is_empty() {
                        self.regs[0x04] |= 0x01;
                    } else {
                        self.regs[0x04] |= 0x30;
                    }
                    self.fifo = answer.into_iter().collect();
                    self.regs[0x0C] = bits;
                }
            }
            _ => self.regs[reg as usize] = v,
        }
    }

    fn read(&mut self, reg: u8) -> u8 {
        self.reg_reads.push(reg);
        match reg {
            0x09 => self.fifo.pop_front().unwrap_or(0),
            0x0A => self.fifo.len() as u8,
            _ => self.regs[reg as usize],
        }
    }

    fn handle(&mut self, req: Rc522Request) -> Option<[u8; 2]> {
        match req {
            Rc522Request::CsLow => {
                assert!(!self.cs_low);
                self.cs_low = true;
                Some([0, 0])
            }
            Rc522Request::CsHigh => {
                self.cs_low = false;
                Some([0, 0])
            }
            Rc522Request::Write([a, v]) | Rc522Request::Transfer([a, v]) => {
                assert!(self.cs_low);
                self.transfers += 1;
                if Some(self.transfers) == self.fail_transfer_at {
                    return None;
                }
                let reg = (a >> 1) & 0x3F;
                if a & 0x80 == 0 {
                    self.write(reg, v);
                    Some([0, 0])
                } else {
                    Some([0, self.read(reg)])
                }
            }
            Rc522Request::DelayMs(_) => Some([0, 0]),
            Rc522Request::Done(_) => unreachable!(),
        }
    }
}

fn run(rc: &mut Rc522<(), ()>, chip: &mut Chip, mut req: Rc522Request) -> Result<Rc522Output, Rc522Error> {
    let mut n = 0;
    loop {
        if let Rc522Request::Done(out) = req {
            assert!(!chip.cs_low);
            assert!(!rc.is_busy());
            return out;
        }
        n += 1;
        assert!(n < 200_000);
        let reply = chip.handle(req);
        req = rc.step(reply);
    }
}

#[test]
fn register_address_bytes() {
    assert_eq!(write_address(0x01), 0x02);
    assert_eq!(read_address(0x01), 0x82);
    assert_eq!(write_address(0x37), 0x6E);
    assert_eq!(read_address(0x37), 0xEE);
    assert_eq!(write_address(0x3F), 0x7E);
}

#[test]
fn init_sets_up_timer_and_antenna() {
    let mut chip = Chip::new();
    let mut rc = Rc522::new((), ());
    let first = rc.init();
    assert_eq!(first, Rc522Request::CsLow);
    assert_eq!(run(&mut rc, &mut chip, first), Ok(Rc522Output::Unit));
    assert_eq!(
        chip.reg_writes,
        vec![
            (0x01, 0x0F),
            (0x2A, 0x8D),
            (0x2B, 0x3E),
            (0x2D, 30),
            (0x2C, 0),
            (0x12, 0),
            (0x13, 0),
            (0x11, 0x3D),
            (0x14, 0x03),
        ]
    );
    let mut chip2 = Chip::new();
    chip2.regs[0x14] = 0x83;
    let first = rc.init();
    assert_eq!(run(&mut rc, &mut chip2, first), Ok(Rc522Output::Unit));
    assert_eq!(chip2.reg_writes.len(), 8);
}

#[test]
fn version_reads_register() {
    let mut chip = Chip::new();
    chip.regs[0x37] = 0x92;
    let mut rc = Rc522::new((), ());
    let first = rc.version();
    assert_eq!(run(&mut rc, &mut chip, first), Ok(Rc522Output::Version(0x92)));
}

#[test]
fn request_a_returns_atqa() {
    let mut chip = Chip::new();
    chip.answers.push_back((vec![0x04, 0x00], 0));
    let mut rc = Rc522::new((), ());
    let first = rc.request_a();
    assert_eq!(run(&mut rc, &mut chip, first), Ok(Rc522Output::Atqa([0x04, 0x00])));
    assert_eq!(chip.sent, vec![vec![0x26]]);
}

#[test]
fn request_a_without_card_times_out() {
    let mut chip = Chip::new();
    let mut rc = Rc522::new((), ());
    let first = rc.request_a();
    assert_eq!(run(&mut rc, &mut chip, first), Err(Rc522Error::Timeout));
}

#[test]
fn request_a_wrong_length_is_protocol_error() {
    let mut chip = Chip::new();
    chip.answers.push_back((vec![0x04], 0));
    let mut rc = Rc522::new((), ());
    let first = rc.request_a();
    assert_eq!(run(&mut rc, &mut chip, first), Err(Rc522Error::Protocol));
}

#[test]
fn anticollision_checks_bcc() {
    let mut chip = Chip::new();
    chip.answers.push_back((vec![0xDE, 0xAD, 0xBE, 0xEF, 0xDE ^ 0xAD ^ 0xBE ^ 0xEF], 0));
    let mut rc = Rc522::new((), ());
    let first = rc.anticollision_cl1();
    assert_eq!(run(&mut rc, &mut chip, first), Ok(Rc522Output::Uid([0xDE, 0xAD, 0xBE, 0xEF])));
    assert_eq!(chip.sent, vec![vec![0x93, 0x20]]);

    let mut chip = Chip::new();
    chip.answers.push_back((vec![0xDE, 0xAD, 0xBE, 0xEF, 0x00], 0));
    let first = rc.anticollision_cl1();
    assert_eq!(run(&mut rc, &mut chip, first), Err(Rc522Error::Crc));

    let mut chip = Chip::new();
    chip.answers.push_back((vec![0xDE, 0xAD, 0xBE, 0xEF], 0));
    let first = rc.anticollision_cl1();
    assert_eq!(run(&mut rc, &mut chip, first), Err(Rc522Error::Protocol));
}

#[test]
fn collision_error_register() {
    let mut chip = Chip::new();
    chip.answers.push_back((vec![1, 2, 3, 4, 4], 0));
    chip.regs[0x06] = 0x08;
    let mut rc = Rc522::new((), ());
    let first = rc.anticollision_cl1();
    assert_eq!(run(&mut rc, &mut chip, first), Ok(Rc522Output::Uid([1, 2, 3, 4])));
    let mut chip = Chip::new();
    chip.answers.push_back((vec![1, 2, 3, 4, 4], 0));
    chip.regs[0x06] = 0x09;
    let first = rc.anticollision_cl1();
    assert_eq!(run(&mut rc, &mut chip, first), Err(Rc522Error::Collision));
    let mut chip = Chip::new();
    chip.answers.push_back((vec![1, 2, 3, 4, 4], 0));
    chip.regs[0x06] = 0x02;
    let first = rc.anticollision_cl1();
    assert_eq!(run(&mut rc, &mut chip, first), Err(Rc522Error::Protocol));
}

#[test]
fn answer_larger_than_buffer() {
    let mut chip = Chip::new();
    chip.answers.push_back((vec![0; 17], 0));
    let mut rc = Rc522::new((), ());
    let first = rc.request_a();
    assert_eq!(run(&mut rc, &mut chip, first), Err(Rc522Error::BufferTooSmall));
}

#[test]
fn select_sends_uid_bcc_and_crc() {
    let mut chip = Chip::new();
    chip.answers.push_back((vec![0x08], 0));
    let mut rc = Rc522::new((), ());
    let uid = [0x11, 0x22, 0x33, 0x44];
    let first = rc.select_cl1(uid);
    assert_eq!(run(&mut rc, &mut chip, first), Ok(Rc522Output::Sak(0x08)));
    let bcc = 0x11 ^ 0x22 ^ 0x33 ^ 0x44;
    assert_eq!(chip.crc_inputs, vec![vec![0x93, 0x70, 0x11, 0x22, 0x33, 0x44, bcc]]);
    assert_eq!(chip.sent, vec![vec![0x93, 0x70, 0x11, 0x22, 0x33, 0x44, bcc, 0xC1, 0xC2]]);
}

#[test]
fn authenticate_checks_crypto_bit() {
    let mut chip = Chip::new();
    let mut rc = Rc522::new((), ());
    let key = [0xFF; 6];
    let uid = [1, 2, 3, 4];
    let first = rc.authenticate(MifareKeyType::B, 7, key, uid);
    assert_eq!(run(&mut rc, &mut chip, first), Ok(Rc522Output::Unit));
    assert_eq!(chip.sent, vec![vec![0x61, 7, 0xFF, 0xFF, 0xFF, 0xFF, 0xFF, 0xFF, 1, 2, 3, 4]]);

    let mut chip = Chip::new();
    chip.auth_ok = false;
    let first = rc.authenticate(MifareKeyType::A, 7, key, uid);
    assert_eq!(run(&mut rc, &mut chip, first), Err(Rc522Error::Authentication));
    assert_eq!(chip.sent[0][0], 0x60);
}

#[test]
fn stop_crypto_clears_bit() {
    let mut chip = Chip::new();
    chip.regs[0x08] = 0x09;
    let mut rc = Rc522::new((), ());
    let first = rc.stop_crypto();
    assert_eq!(run(&mut rc, &mut chip, first), Ok(Rc522Output::Unit));
    assert_eq!(chip.regs[0x08], 0x01);
}

#[test]
fn read_block_returns_sixteen_bytes() {
    let mut chip = Chip::new();
    let data: Vec<u8> = (0..16).collect();
    let mut answer = data.clone();
    answer.extend([0xAA, 0xBB]);
    chip.answers.push_back((answer, 0));
    let mut rc = Rc522::new((), ());
    let first = rc.read_block(4);
    let out = run(&mut rc, &mut chip, first);
    assert_eq!(out, Err(Rc522Error::Protocol));

    let mut chip = Chip::new();
    chip.answers.push_back((data.clone(), 0));
    let first = rc.read_block(4);
    let mut block = [0u8; 16];
    block.copy_from_slice(&data);
    assert_eq!(run(&mut rc, &mut chip, first), Ok(Rc522Output::Block(block)));
    assert_eq!(chip.crc_inputs, vec![vec![0x30, 4]]);
    assert_eq!(chip.sent, vec![vec![0x30, 4, 0xC1, 0xC2]]);
}

#[test]
fn write_block_needs_two_acks() {
    let mut chip = Chip::new();
    chip.answers.push_back((vec![0x0A], 4));
    chip.answers.push_back((vec![0x0A], 4));
    let mut rc = Rc522::new((), ());
    let data = [7u8; 16];
    let first = rc.write_block(5, data);
    assert_eq!(run(&mut rc, &mut chip, first), Ok(Rc522Output::Unit));
    let mut payload = vec![7u8; 16];
    payload.extend([0xC1, 0xC2]);
    assert_eq!(chip.sent, vec![vec![0xA0, 5, 0xC1, 0xC2], payload]);

    let mut chip = Chip::new();
    chip.answers.push_back((vec![0x04], 4));
    let first = rc.write_block(5, data);
    assert_eq!(run(&mut rc, &mut chip, first), Err(Rc522Error::Protocol));
    assert_eq!(chip.sent.len(), 1);
}

#[test]
fn halt_ignores_card_answer() {
    let mut chip = Chip::new();
    let mut rc = Rc522::new((), ());
    let first = rc.halt();
    assert_eq!(run(&mut rc, &mut chip, first), Ok(Rc522Output::Unit));
    assert_eq!(chip.sent, vec![vec![0x50, 0x00, 0xC1, 0xC2]]);
}

#[test]
fn bus_and_pin_errors() {
    let mut chip = Chip::new();
    chip.fail_transfer_at = Some(1);
    let mut rc = Rc522::new((), ());
    let first = rc.version();
    assert_eq!(run(&mut rc, &mut chip, first), Err(Rc522Error::Spi));

    let mut rc = Rc522::new((), ());
    let first = rc.version();
    assert_eq!(first, Rc522Request::CsLow);
    assert_eq!(rc.step(None), Rc522Request::Done(Err(Rc522Error::Pin)));
    let first = rc.version();
    assert_eq!(first, Rc522Request::CsLow);
    assert_eq!(rc.step(Some([0, 0])), Rc522Request::Transfer([0xEE, 0x00]));
    assert_eq!(rc.step(Some([0, 0x92])), Rc522Request::CsHigh);
    assert_eq!(rc.step(None), Rc522Request::Done(Err(Rc522Error::Pin)));
    assert_eq!(rc.step(None), Rc522Request::Done(Err(Rc522Error::Protocol)));
    let (spi, cs) = rc.release();
    assert_eq!((spi, cs), ((), ()));
}

#[test]
fn crc_gives_up_after_its_polls() {
    let mut chip = Chip::new();
    chip.crc_never = true;
    let mut rc = Rc522::new((), ());
    let first = rc.read_block(1);
    assert_eq!(run(&mut rc, &mut chip, first), Err(Rc522Error::Timeout));
    let div_irq_reads = chip.reg_writes.iter().filter(|w| w.0 == 0x05).count();
    assert_eq!(div_irq_reads, 1);
    assert!(chip.sent.is_empty());
}

#[test]
fn halt_needs_its_crc() {
    let mut chip = Chip::new();
    chip.crc_never = true;
    let mut rc = Rc522::new((), ());
    let first = rc.halt();
    assert_eq!(run(&mut rc, &mut chip, first), Err(Rc522Error::Timeout));
}

#[test]
fn exchange_polls_exactly_its_limit() {
    let mut chip = Chip::new();
    chip.silent = true;
    let mut rc = Rc522::new((), ());
    let first = rc.request_a();
    assert_eq!(run(&mut rc, &mut chip, first), Err(Rc522Error::Timeout));
    let irq_reads = chip.reg_reads.iter().filter(|r| **r == 0x04).count();
    assert_eq!(irq_reads, 1 + 2500);
    assert!(!chip.reg_reads.contains(&0x06));
    assert!(!chip.reg_reads.contains(&0x09));
}

#[test]
fn crc_polls_exactly_its_limit() {
    let mut chip = Chip::new();
    chip.crc_never = true;
    let mut rc = Rc522::new((), ());
    let first = rc.read_block(1);
    assert_eq!(run(&mut rc, &mut chip, first), Err(Rc522Error::Timeout));
    let div_irq_reads = chip.reg_reads.iter().filter(|r| **r == 0x05).count();
    assert_eq!(div_irq_reads, 1 + 255);
}
