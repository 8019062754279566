//! DHT11 temperature and humidity sensor on a single open-drain data line.
//!
//! Protocol: the host pulls the line low for at least 18 ms and releases it;
//! the sensor answers low for 80 µs, then high for 80 µs, then sends 40 bits:
//! humidity integer and fraction, temperature integer and fraction, checksum.
//! Each bit starts with 50 µs low; a high level still present 28 µs later
//! is a one. The data line needs a 4.7-10 kΩ pull-up.
//!
//! Reading takes about 5 ms; readings should be at least 2 s apart.

use vstd::prelude::*;

verus! {

/// Why a DHT11 reading failed.
#[derive(Debug, Clone, Copy, PartialEq, Eq)]
pub enum DhtError {
    /// The sensor did not answer, or a level lasted too long.
    Timeout,
    /// The checksum byte does not match the data.
    ChecksumMismatch,
}

/// What the driver asks of the data pin next, or that the reading is over.
///
/// After `IsHigh` or `IsLow` the firmware hands back `Some` of the answer or
/// `None` when the pin reported an error; after the other requests, `None`.
#[derive(Debug, PartialEq, Eq)]
pub enum PinStep<T> {
    SetLow,
    SetHigh,
    DelayMs(u32),
    DelayUs(u32),
    IsHigh,
    IsLow,
    Done(T),
}

/// The outcome of a reading: the five raw bytes.
pub type DhtOutcome = Result<[u8; 5], DhtError>;

/// How many level queries a wait makes before it gives up.
pub const WAIT_LIMIT: u32 = 1000;

/// Where a reading stands: which request it waits on the answer to.
#[derive(Debug, Clone, Copy, PartialEq, Eq)]
pub enum DhtPhase {
    Idle,
    /// Line pulled low.
    StartLow,
    /// Holding the line low for 20 ms.
    StartLowDelay,
    /// Line released.
    StartHigh,
    /// Waiting 40 µs after the release.
    StartHighDelay,
    /// Level query of the sensor's answer: stage 0 waits for it to go low,
    /// stage 1 for it to go high, stage 2 for it to go low again;
    /// `timeout` queries are left.
    Response { stage: u8, timeout: u32 },
    /// Waiting 1 µs between two queries of a stage.
    ResponseDelay { stage: u8, timeout: u32 },
    /// Level query for the end of a bit's low start.
    BitLow { timeout: u32 },
    /// Waiting 1 µs between two such queries.
    BitLowDelay { timeout: u32 },
    /// Waiting 28 µs into the bit.
    BitSettle,
    /// Level query that tells a one from a zero.
    BitSample,
    /// Level query for the end of a one's high level.
    BitHigh { timeout: u32 },
    /// Waiting 1 µs between two such queries.
    BitHighDelay { timeout: u32 },
}

/// The reading's state as the protocol sees it: the phase, the bytes
/// received, and the byte and bit count being received.
pub struct DhtState {
    pub phase: DhtPhase,
    pub data: Seq<u8>,
    pub byte: u8,
    pub bit: u32,
}

/// The five bytes are consistent: the checksum is the low 8 bits of the sum
/// of the four data bytes.
pub open spec fn checksum_ok(d: Seq<u8>) -> bool {
    (d[0] as nat + d[1] as nat + d[2] as nat + d[3] as nat) % 256 == d[4] as nat
}

/// The outcome of the five bytes received.
pub open spec fn spec_finish(d: Seq<u8>) -> DhtOutcome {
    if checksum_ok(d) {
        Ok([d[0], d[1], d[2], d[3], d[4]])
    } else {
        Err(DhtError::ChecksumMismatch)
    }
}

/// The query that a response stage makes.
pub open spec fn stage_query(stage: u8) -> PinStep<DhtOutcome> {
    if stage == 1 {
        PinStep::IsLow
    } else {
        PinStep::IsHigh
    }
}

/// The answer of a query, an error read as `default`.
pub open spec fn level_or(reply: Option<bool>, default: bool) -> bool {
    match reply {
        Some(b) => b,
        None => default,
    }
}

/// The state after the bit that made `byte`: the next bit, the next byte, or
/// the end of the reading.
pub open spec fn after_bit(s: DhtState, byte: u8) -> (DhtState, PinStep<DhtOutcome>) {
    if s.bit + 1 < 8 {
        (
            DhtState { phase: DhtPhase::BitLow { timeout: WAIT_LIMIT }, byte, bit: (s.bit + 1) as u32, ..s },
            PinStep::IsLow,
        )
    } else if s.data.len() + 1 < 5 {
        (
            DhtState {
                phase: DhtPhase::BitLow { timeout: WAIT_LIMIT },
                data: s.data.push(byte),
                byte: 0,
                bit: 0,
            },
            PinStep::IsLow,
        )
    } else {
        (
            DhtState { phase: DhtPhase::Idle, data: s.data.push(byte), byte: 0, bit: 0 },
            PinStep::Done(spec_finish(s.data.push(byte))),
        )
    }
}

/// One step of a reading, from the state and the answer to its request.
///
/// The start signal pulls the line low for 20 ms and releases it for 40 µs.
/// Each wait queries the level until it changes, 1 µs apart, and ends the
/// reading with `Timeout` when the level has not changed after
/// `WAIT_LIMIT` queries. A pin error reads as the level being unchanged in
/// the response waits and in the wait for a bit's low start, and as low when
/// the bit is sampled and in the wait for the end of a one.
pub open spec fn dht_next(s: DhtState, reply: Option<bool>) -> (DhtState, PinStep<DhtOutcome>) {
    let timed_out = (DhtState { phase: DhtPhase::Idle, ..s }, PinStep::Done(Err(DhtError::Timeout)));
    match s.phase {
        DhtPhase::Idle => timed_out,
        DhtPhase::StartLow => (DhtState { phase: DhtPhase::StartLowDelay, ..s }, PinStep::DelayMs(20)),
        DhtPhase::StartLowDelay => (DhtState { phase: DhtPhase::StartHigh, ..s }, PinStep::SetHigh),
        DhtPhase::StartHigh => (DhtState { phase: DhtPhase::StartHighDelay, ..s }, PinStep::DelayUs(40)),
        DhtPhase::StartHighDelay => (
            DhtState { phase: DhtPhase::Response { stage: 0, timeout: WAIT_LIMIT }, ..s },
            PinStep::IsHigh,
        ),
        DhtPhase::Response { stage, timeout } => if level_or(reply, true) {
            if timeout - 1 == 0 {
                timed_out
            } else {
                (
                    DhtState { phase: DhtPhase::ResponseDelay { stage, timeout: (timeout - 1) as u32 }, ..s },
                    PinStep::DelayUs(1),
                )
            }
        } else if stage < 2 {
            (
                DhtState { phase: DhtPhase::Response { stage: (stage + 1) as u8, timeout: WAIT_LIMIT }, ..s },
                stage_query((stage + 1) as u8),
            )
        } else {
            (
                DhtState {
                    phase: DhtPhase::BitLow { timeout: WAIT_LIMIT },
                    data: Seq::empty(),
                    byte: 0,
                    bit: 0,
                },
                PinStep::IsLow,
            )
        },
        DhtPhase::ResponseDelay { stage, timeout } => (
            DhtState { phase: DhtPhase::Response { stage, timeout }, ..s },
            stage_query(stage),
        ),
        DhtPhase::BitLow { timeout } => if level_or(reply, true) {
            if timeout - 1 == 0 {
                timed_out
            } else {
                (
                    DhtState { phase: DhtPhase::BitLowDelay { timeout: (timeout - 1) as u32 }, ..s },
                    PinStep::DelayUs(1),
                )
            }
        } else {
            (DhtState { phase: DhtPhase::BitSettle, ..s }, PinStep::DelayUs(28))
        },
        DhtPhase::BitLowDelay { timeout } => (
            DhtState { phase: DhtPhase::BitLow { timeout }, ..s },
            PinStep::IsLow,
        ),
        DhtPhase::BitSettle => (DhtState { phase: DhtPhase::BitSample, ..s }, PinStep::IsHigh),
        DhtPhase::BitSample => if level_or(reply, false) {
            (
                DhtState {
                    phase: DhtPhase::BitHigh { timeout: WAIT_LIMIT },
                    byte: (s.byte * 2 + 1) as u8,
                    ..s
                },
                PinStep::IsHigh,
            )
        } else {
            after_bit(s, (s.byte * 2) as u8)
        },
        DhtPhase::BitHigh { timeout } => if level_or(reply, false) {
            if timeout - 1 == 0 {
                timed_out
            } else {
                (
                    DhtState { phase: DhtPhase::BitHighDelay { timeout: (timeout - 1) as u32 }, ..s },
                    PinStep::DelayUs(1),
                )
            }
        } else {
            after_bit(s, s.byte)
        },
        DhtPhase::BitHighDelay { timeout } => (
            DhtState { phase: DhtPhase::BitHigh { timeout }, ..s },
            PinStep::IsHigh,
        ),
    }
}

/// The invariant of a reading: every count of queries left is between 1 and
/// `WAIT_LIMIT`, response stages run 0 to 2, fewer than five bytes have been
/// received and fewer than eight bits of the current one, whose value fits in
/// the bits received.
pub open spec fn dht_wf(s: DhtState) -> bool {
    &&& s.data.len() < 5
    &&& s.bit < 8
    &&& (s.byte as nat) < vstd::arithmetic::power2::pow2(s.bit as nat)
        || (s.phase is BitHigh || s.phase is BitHighDelay) && (s.byte as nat) < vstd::arithmetic::power2::pow2((s.bit + 1) as nat)
    &&& match s.phase {
        DhtPhase::Response { stage, timeout } => stage <= 2 && 1 <= timeout <= WAIT_LIMIT,
        DhtPhase::ResponseDelay { stage, timeout } => stage <= 2 && 1 <= timeout <= WAIT_LIMIT,
        DhtPhase::BitLow { timeout } => 1 <= timeout <= WAIT_LIMIT,
        DhtPhase::BitLowDelay { timeout } => 1 <= timeout <= WAIT_LIMIT,
        DhtPhase::BitHigh { timeout } => 1 <= timeout <= WAIT_LIMIT,
        DhtPhase::BitHighDelay { timeout } => 1 <= timeout <= WAIT_LIMIT,
        _ => true,
    }
}

/// Whether the five bytes pass the checksum.
pub fn checksum_matches(data: &[u8; 5]) -> (ok: bool)
    ensures
        ok == checksum_ok(data@),
{
    let sum = data[0].wrapping_add(data[1]).wrapping_add(data[2]).wrapping_add(data[3]);
    sum == data[4]
}

/// DHT11 driver: the data pin and the reading under way.
pub struct Dht11<Pin> {
    pin: Pin,
    phase: DhtPhase,
    data: Vec<u8>,
    byte: u8,
    bit: u32,
}

impl<Pin> Dht11<Pin> {
    /// The data pin.
    pub closed spec fn pin(&self) -> Pin {
        self.pin
    }

    /// The protocol state.
    pub closed spec fn state(&self) -> DhtState {
        DhtState { phase: self.phase, data: self.data@, byte: self.byte, bit: self.bit }
    }

    /// A driver on `pin` (configured as open-drain output), with no reading
    /// under way.
    pub fn new(pin: Pin) -> (s: Self)
        ensures
            s.pin() == pin,
            s.state().phase == DhtPhase::Idle,
            dht_wf(s.state()),
    {
        proof {
            vstd::arithmetic::power2::lemma2_to64();
        }
        Self { pin, phase: DhtPhase::Idle, data: Vec::new(), byte: 0, bit: 0 }
    }

    /// Starts a reading of the five raw bytes with the start signal: the line
    /// is pulled low first.
    pub fn read_raw(&mut self) -> (req: PinStep<DhtOutcome>)
        ensures
            final(self).pin() == old(self).pin(),
            final(self).state() == (DhtState {
                phase: DhtPhase::StartLow,
                data: Seq::empty(),
                byte: 0,
                bit: 0,
            }),
            dht_wf(final(self).state()),
            req == PinStep::<DhtOutcome>::SetLow,
    {
        self.phase = DhtPhase::StartLow;
        self.data = Vec::new();
        self.byte = 0;
        self.bit = 0;
        proof {
            vstd::arithmetic::power2::lemma2_to64();
        }
        PinStep::SetLow
    }

    /// Whether a reading is under way.
    pub fn is_busy(&self) -> (b: bool)
        ensures
            b == (self.state().phase != DhtPhase::Idle),
    {
        !matches!(self.phase, DhtPhase::Idle)
    }

    /// The state after the bit that made `byte`.
    fn finish_bit(&mut self, byte: u8) -> (req: PinStep<DhtOutcome>)
        requires
            old(self).bit < 8,
            old(self).data@.len() < 5,
        ensures
            final(self).pin == old(self).pin,
            (final(self).state(), req) == after_bit(old(self).state(), byte),
    {
        if self.bit + 1 < 8 {
            self.phase = DhtPhase::BitLow { timeout: WAIT_LIMIT };
            self.byte = byte;
            self.bit = self.bit + 1;
            PinStep::IsLow
        } else {
            self.data.push(byte);
            self.byte = 0;
            self.bit = 0;
            if self.data.len() < 5 {
                self.phase = DhtPhase::BitLow { timeout: WAIT_LIMIT };
                PinStep::IsLow
            } else {
                self.phase = DhtPhase::Idle;
                let d = [self.data[0], self.data[1], self.data[2], self.data[3], self.data[4]];
                assert(d@ =~= self.data@);
                if checksum_matches(&d) {
                    PinStep::Done(Ok(d))
                } else {
                    PinStep::Done(Err(DhtError::ChecksumMismatch))
                }
            }
        }
    }

    /// Takes the answer to the last request and returns the next request.
    pub fn step(&mut self, reply: Option<bool>) -> (req: PinStep<DhtOutcome>)
        requires
            old(self).state().phase != DhtPhase::Idle,
            dht_wf(old(self).state()),
        ensures
            final(self).pin() == old(self).pin(),
            (final(self).state(), req) == dht_next(old(self).state(), reply),
            final(self).state().phase != DhtPhase::Idle ==> dht_wf(final(self).state()),
    {
        proof {
            vstd::arithmetic::power2::lemma2_to64();
        }
        let timed_out = PinStep::Done(Err(DhtError::Timeout));
        match self.phase {
            DhtPhase::Idle => timed_out,
            DhtPhase::StartLow => {
                self.phase = DhtPhase::StartLowDelay;
                PinStep::DelayMs(20)
            },
            DhtPhase::StartLowDelay => {
                self.phase = DhtPhase::StartHigh;
                PinStep::SetHigh
            },
            DhtPhase::StartHigh => {
                self.phase = DhtPhase::StartHighDelay;
                PinStep::DelayUs(40)
            },
            DhtPhase::StartHighDelay => {
                self.phase = DhtPhase::Response { stage: 0, timeout: WAIT_LIMIT };
                PinStep::IsHigh
            },
            DhtPhase::Response { stage, timeout } => {
                let unchanged = match reply {
                    Some(b) => b,
                    None => true,
                };
                if unchanged {
                    if timeout - 1 == 0 {
                        self.phase = DhtPhase::Idle;
                        timed_out
                    } else {
                        self.phase = DhtPhase::ResponseDelay { stage, timeout: timeout - 1 };
                        PinStep::DelayUs(1)
                    }
                } else if stage < 2 {
                    self.phase = DhtPhase::Response { stage: stage + 1, timeout: WAIT_LIMIT };
                    if stage + 1 == 1 {
                        PinStep::IsLow
                    } else {
                        PinStep::IsHigh
                    }
                } else {
                    self.phase = DhtPhase::BitLow { timeout: WAIT_LIMIT };
                    self.data = Vec::new();
                    self.byte = 0;
                    self.bit = 0;
                    PinStep::IsLow
                }
            },
            DhtPhase::ResponseDelay { stage, timeout } => {
                self.phase = DhtPhase::Response { stage, timeout };
                if stage == 1 {
                    PinStep::IsLow
                } else {
                    PinStep::IsHigh
                }
            },
            DhtPhase::BitLow { timeout } => {
                let still_low = match reply {
                    Some(b) => b,
                    None => true,
                };
                if still_low {
                    if timeout - 1 == 0 {
                        self.phase = DhtPhase::Idle;
                        timed_out
                    } else {
                        self.phase = DhtPhase::BitLowDelay { timeout: timeout - 1 };
                        PinStep::DelayUs(1)
                    }
                } else {
                    self.phase = DhtPhase::BitSettle;
                    PinStep::DelayUs(28)
                }
            },
            DhtPhase::BitLowDelay { timeout } => {
                self.phase = DhtPhase::BitLow { timeout };
                PinStep::IsLow
            },
            DhtPhase::BitSettle => {
                self.phase = DhtPhase::BitSample;
                PinStep::IsHigh
            },
            DhtPhase::BitSample => {
                let high = match reply {
                    Some(b) => b,
                    None => false,
                };
                if high {
                    self.phase = DhtPhase::BitHigh { timeout: WAIT_LIMIT };
                    self.byte = self.byte * 2 + 1;
                    PinStep::IsHigh
                } else {
                    let b = self.byte * 2;
                    self.finish_bit(b)
                }
            },
            DhtPhase::BitHigh { timeout } => {
                let still_high = match reply {
                    Some(b) => b,
                    None => false,
                };
                if still_high {
                    if timeout - 1 == 0 {
                        self.phase = DhtPhase::Idle;
                        timed_out
                    } else {
                        self.phase = DhtPhase::BitHighDelay { timeout: timeout - 1 };
                        PinStep::DelayUs(1)
                    }
                } else {
                    let b = self.byte;
                    self.finish_bit(b)
                }
            },
            DhtPhase::BitHighDelay { timeout } => {
                self.phase = DhtPhase::BitHigh { timeout };
                PinStep::IsHigh
            },
        }
    }

    /// The pin, to perform the requested operations on.
    pub fn pin_mut(&mut self) -> (r: &mut Pin)
        ensures
            *r == old(self).pin(),
            final(self).pin() == *final(r),
            final(self).state() == old(self).state(),
    {
        &mut self.pin
    }
}

/// A reading ends well only with five bytes whose last is the checksum of
/// the other four.
pub proof fn law_reading_checksum(s: DhtState, reply: Option<bool>)
    requires
        dht_wf(s),
    ensures
        dht_next(s, reply).1 matches PinStep::Done(Ok(b)) ==> (b[0] as nat + b[1] as nat + b[2] as nat
            + b[3] as nat) % 256 == b[4] as nat,
{
}

/// A reading fed the answers `rs` in turn: the state it reaches and the
/// request it makes after each answer.
pub open spec fn dht_run(s: DhtState, rs: Seq<Option<bool>>) -> (DhtState, Seq<PinStep<DhtOutcome>>)
    decreases rs.len(),
{
    if rs.len() == 0 {
        (s, Seq::empty())
    } else {
        let (s1, q) = dht_next(s, rs[0]);
        let (s2, qs) = dht_run(s1, rs.drop_first());
        (s2, seq![q] + qs)
    }
}

/// `n` rounds of a 1 µs wait and the level query of response stage `stage`.
pub open spec fn response_rounds(n: nat, stage: u8) -> Seq<PinStep<DhtOutcome>> {
    Seq::new(2 * n, |i: int| if i % 2 == 0 { PinStep::DelayUs(1) } else { stage_query(stage) })
}

/// Waiting for the sensor's answer gives up after the queries it has left:
/// while the level has not changed (a pin error counts as unchanged), a
/// response stage with `timeout` queries left waits 1 µs and queries again,
/// `timeout` queries in all, then ends the reading with `Timeout`. A stage
/// starts with `WAIT_LIMIT` queries.
pub proof fn law_response_wait_bounded(s: DhtState, rs: Seq<Option<bool>>)
    requires
        dht_wf(s),
        s.phase matches DhtPhase::Response { stage, timeout } && rs.len() == 2 * timeout - 1,
        forall|i: int| 0 <= i < rs.len() ==> level_or(#[trigger] rs[i], true),
    ensures
        ({
            let (stage, timeout) = match s.phase {
                DhtPhase::Response { stage, timeout } => (stage, timeout as int),
                _ => (0u8, 0int),
            };
            dht_run(s, rs).1 == response_rounds((timeout - 1) as nat, stage).push(
                PinStep::Done(Err(DhtError::Timeout)),
            )
        }),
    decreases rs.len(),
{
    let (stage, timeout) = match s.phase {
        DhtPhase::Response { stage, timeout } => (stage, timeout),
        _ => (0u8, 0u32),
    };
    assert(level_or(rs[0], true));
    let (s1, q1) = dht_next(s, rs[0]);
    if timeout == 1 {
        assert(rs.drop_first() =~= Seq::<Option<bool>>::empty());
        assert(dht_run(s1, rs.drop_first()).1 =~= Seq::<PinStep<DhtOutcome>>::empty());
        assert(dht_run(s, rs).1 =~= seq![q1]);
        assert(response_rounds(0, stage).push(PinStep::Done(Err(DhtError::Timeout))) =~= seq![q1]);
    } else {
        let r1 = rs.drop_first();
        let (s2, q2) = dht_next(s1, r1[0]);
        let rest = r1.drop_first();
        assert(s2.phase == DhtPhase::Response { stage, timeout: (timeout - 1) as u32 });
        assert forall|i: int| 0 <= i < rest.len() implies level_or(#[trigger] rest[i], true) by {
            assert(level_or(rs[i + 2], true));
        }
        law_response_wait_bounded(s2, rest);
        assert(dht_run(s1, r1).1 =~= seq![q2] + dht_run(s2, rest).1);
        assert(dht_run(s, rs).1 =~= seq![q1, q2] + dht_run(s2, rest).1);
        assert(seq![q1, q2] + response_rounds((timeout - 2) as nat, stage).push(PinStep::Done(Err(DhtError::Timeout)))
            =~= response_rounds((timeout - 1) as nat, stage).push(PinStep::Done(Err(DhtError::Timeout))));
    }
}

/// Waiting for a bit's low start gives up after the queries it has left:
/// while the line stays high (a pin error counts as high), the wait queries
/// it `timeout` times, 1 µs apart, then ends the reading with `Timeout`.
/// Each wait starts with `WAIT_LIMIT` queries.
pub proof fn law_bit_wait_bounded(s: DhtState, rs: Seq<Option<bool>>)
    requires
        dht_wf(s),
        s.phase matches DhtPhase::BitLow { timeout } && rs.len() == 2 * timeout - 1,
        forall|i: int| 0 <= i < rs.len() ==> level_or(#[trigger] rs[i], true),
    ensures
        ({
            let timeout = match s.phase {
                DhtPhase::BitLow { timeout } => timeout as int,
                _ => 0int,
            };
            dht_run(s, rs).1 == Seq::new(
                (2 * (timeout - 1)) as nat,
                |i: int| if i % 2 == 0 { PinStep::<DhtOutcome>::DelayUs(1) } else { PinStep::IsLow },
            ).push(PinStep::Done(Err(DhtError::Timeout)))
        }),
    decreases rs.len(),
{
    let timeout = match s.phase {
        DhtPhase::BitLow { timeout } => timeout,
        _ => 0u32,
    };
    let f = |i: int| if i % 2 == 0 { PinStep::<DhtOutcome>::DelayUs(1) } else { PinStep::IsLow };
    assert(level_or(rs[0], true));
    let (s1, q1) = dht_next(s, rs[0]);
    if timeout == 1 {
        assert(rs.drop_first() =~= Seq::<Option<bool>>::empty());
        assert(dht_run(s1, rs.drop_first()).1 =~= Seq::<PinStep<DhtOutcome>>::empty());
        assert(dht_run(s, rs).1 =~= seq![q1]);
        assert(Seq::new(0, f).push(PinStep::Done(Err(DhtError::Timeout))) =~= seq![q1]);
    } else {
        let r1 = rs.drop_first();
        let (s2, q2) = dht_next(s1, r1[0]);
        let rest = r1.drop_first();
        assert(s2.phase == DhtPhase::BitLow { timeout: (timeout - 1) as u32 });
        assert forall|i: int| 0 <= i < rest.len() implies level_or(#[trigger] rest[i], true) by {
            assert(level_or(rs[i + 2], true));
        }
        law_bit_wait_bounded(s2, rest);
        assert(dht_run(s1, r1).1 =~= seq![q2] + dht_run(s2, rest).1);
        assert(dht_run(s, rs).1 =~= seq![q1, q2] + dht_run(s2, rest).1);
        assert(seq![q1, q2] + Seq::new((2 * (timeout - 2)) as nat, f).push(PinStep::Done(Err(DhtError::Timeout)))
            =~= Seq::new((2 * (timeout - 1)) as nat, f).push(PinStep::Done(Err(DhtError::Timeout))));
    }
}

/// One bit: the line goes low (the bit starts), 28 µs pass, and the line is
/// sampled. High is a one: the reading then waits for the line to go low and
/// shifts in a 1. Low, or a pin error, is a zero, shifted in at once. The
/// new bit goes below the bits already received.
pub proof fn law_bit_read(s: DhtState, settle: Option<bool>, sample: Option<bool>)
    requires
        dht_wf(s),
        s.phase is BitLow,
    ensures
        !level_or(sample, false) ==> dht_run(s, seq![Some(false), settle, sample]) == (
            after_bit(s, (s.byte * 2) as u8).0,
            seq![PinStep::DelayUs(28), PinStep::IsHigh, after_bit(s, (s.byte * 2) as u8).1],
        ),
        level_or(sample, false) ==> dht_run(s, seq![Some(false), settle, sample, Some(false)]) == (
            after_bit(s, (s.byte * 2 + 1) as u8).0,
            seq![PinStep::DelayUs(28), PinStep::IsHigh, PinStep::IsHigh, after_bit(s, (s.byte * 2 + 1) as u8).1],
        ),
        s.byte * 2 + 1 < 256,
{
    vstd::arithmetic::power2::lemma2_to64();
    assert(s.bit <= 7);
    if s.bit < 7 {
        vstd::arithmetic::power2::lemma_pow2_strictly_increases(s.bit as nat, 7);
    }
    let a = seq![Some(false), settle, sample];
    let b = seq![Some(false), settle, sample, Some(false)];
    let (s1, q1) = dht_next(s, Some(false));
    let (s2, q2) = dht_next(s1, settle);
    let (s3, q3) = dht_next(s2, sample);
    assert(a.drop_first() =~= seq![settle, sample]);
    assert(a.drop_first().drop_first() =~= seq![sample]);
    assert(a.drop_first().drop_first().drop_first() =~= Seq::<Option<bool>>::empty());
    assert(dht_run(s3, a.drop_first().drop_first().drop_first()).1 =~= Seq::<PinStep<DhtOutcome>>::empty());
    assert(dht_run(s2, a.drop_first().drop_first()).1 =~= seq![q3]);
    assert(dht_run(s1, a.drop_first()).1 =~= seq![q2, q3]);
    assert(dht_run(s, a).1 =~= seq![q1, q2, q3]);
    if level_or(sample, false) {
        let (s4, q4) = dht_next(s3, Some(false));
        assert(b.drop_first() =~= seq![settle, sample, Some(false)]);
        assert(b.drop_first().drop_first() =~= seq![sample, Some(false)]);
        assert(b.drop_first().drop_first().drop_first() =~= seq![Some(false)]);
        assert(b.drop_first().drop_first().drop_first().drop_first() =~= Seq::<Option<bool>>::empty());
        assert(dht_run(s4, b.drop_first().drop_first().drop_first().drop_first()).1 =~= Seq::<PinStep<DhtOutcome>>::empty());
        assert(dht_run(s3, b.drop_first().drop_first().drop_first()).1 =~= seq![q4]);
        assert(dht_run(s2, b.drop_first().drop_first()).1 =~= seq![q3, q4]);
        assert(dht_run(s1, b.drop_first()).1 =~= seq![q2, q3, q4]);
        assert(dht_run(s, b).1 =~= seq![q1, q2, q3, q4]);
        assert(after_bit(s3, s3.byte) == after_bit(s, (s.byte * 2 + 1) as u8));
    }
}

/// The value of the bits `bits` shifted in below `v`, first bit first: the
/// first bit received ends up the most significant.
pub open spec fn shift_in(v: nat, bits: Seq<bool>) -> nat
    decreases bits.len(),
{
    if bits.len() == 0 {
        v
    } else {
        shift_in(v * 2 + if bits[0] { 1nat } else { 0nat }, bits.drop_first())
    }
}

/// The answers that send `bits`: per bit, the line going low, any answer
/// during the 28 µs, the sample, and for a one the line going low again.
pub open spec fn bit_answers(bits: Seq<bool>) -> Seq<Option<bool>>
    decreases bits.len(),
{
    if bits.len() == 0 {
        Seq::empty()
    } else if bits[0] {
        seq![Some(false), Some(true), Some(true), Some(false)] + bit_answers(bits.drop_first())
    } else {
        seq![Some(false), Some(true), Some(false)] + bit_answers(bits.drop_first())
    }
}

proof fn lemma_dht_run_split(s: DhtState, a: Seq<Option<bool>>, b: Seq<Option<bool>>)
    ensures
        dht_run(s, a + b).0 == dht_run(dht_run(s, a).0, b).0,
    decreases a.len(),
{
    if a.len() == 0 {
        assert(a + b =~= b);
    } else {
        let (s1, st) = dht_next(s, a[0]);
        assert((a + b).drop_first() =~= a.drop_first() + b);
        assert((a + b)[0] == a[0]);
        lemma_dht_run_split(s1, a.drop_first(), b);
    }
}

/// A byte is read most significant bit first: from the start of a byte
/// that is not the last, the answers that send eight bits leave the byte
/// `shift_in(0, bits)` appended to the data and the reading at the start of
/// the next byte.
pub proof fn law_byte_msb_first(s: DhtState, bits: Seq<bool>)
    requires
        dht_wf(s),
        s.phase is BitLow,
        s.bit == 0,
        s.byte == 0,
        s.data.len() + 1 < 5,
        bits.len() == 8,
    ensures
        shift_in(0, bits) < 256,
        dht_run(s, bit_answers(bits)).0 == (DhtState {
            phase: DhtPhase::BitLow { timeout: WAIT_LIMIT },
            data: s.data.push(shift_in(0, bits) as u8),
            byte: 0,
            bit: 0,
        }),
{
    lemma_bits_run(s, bits);
}

proof fn lemma_bits_run(s: DhtState, bits: Seq<bool>)
    requires
        dht_wf(s),
        s.phase is BitLow,
        s.bit + bits.len() == 8,
        bits.len() >= 1,
        s.data.len() + 1 < 5,
    ensures
        shift_in(s.byte as nat, bits) < 256,
        dht_run(s, bit_answers(bits)).0 == (DhtState {
            phase: DhtPhase::BitLow { timeout: WAIT_LIMIT },
            data: s.data.push(shift_in(s.byte as nat, bits) as u8),
            byte: 0,
            bit: 0,
        }),
    decreases bits.len(),
{
    let b0 = bits[0];
    let rest = bits.drop_first();
    let one = if b0 { seq![Some(false), Some(true), Some(true), Some(false)] } else { seq![Some(false), Some(true), Some(false)] };
    assert(bit_answers(bits) == one + bit_answers(rest));
    lemma_dht_run_split(s, one, bit_answers(rest));
    law_bit_read(s, Some(true), if b0 { Some(true) } else { Some(false) });
    let v: u8 = if b0 { (s.byte * 2 + 1) as u8 } else { (s.byte * 2) as u8 };
    assert(v as nat == s.byte as nat * 2 + if b0 { 1nat } else { 0nat });
    let s1 = after_bit(s, v).0;
    assert(dht_run(s, one).0 == s1);
    assert(shift_in(s.byte as nat, bits) == shift_in(v as nat, rest));
    vstd::arithmetic::power2::lemma2_to64();
    if bits.len() == 1 {
        assert(rest =~= Seq::<bool>::empty());
        assert(bit_answers(rest) =~= Seq::<Option<bool>>::empty());
        assert(dht_run(s1, bit_answers(rest)).0 == s1);
    } else {
        assert((v as nat) < vstd::arithmetic::power2::pow2((s.bit + 1) as nat)) by {
            vstd::arithmetic::power2::lemma_pow2_unfold((s.bit + 1) as nat);
        }
        assert(s.bit + 1 < 8);
        if s.bit + 1 < 7 {
            vstd::arithmetic::power2::lemma_pow2_strictly_increases((s.bit + 1) as nat, 7);
        }
        lemma_bits_run(s1, rest);
    }
}

} // verus!
