//! The decisions of the monitor's main loop: on which frames the sensors are
//! read and the heartbeat LED blinks, what a failed AHT20 read shows, and
//! how a reading joins the six-slot history.

use vstd::prelude::*;
use crate::drivers::aht20::{Aht20Done, Aht20Error, Aht20Outcome};

verus! {

/// The sensors are read once more than this many frames have passed.
pub const READ_INTERVAL: u32 = 300;
/// The heartbeat LED toggles on every frame number divisible by this.
pub const HEARTBEAT_PERIOD: u32 = 60;
/// Readings the history keeps.
pub const HISTORY_SLOTS: usize = 6;

/// The loop's counters: the frame number and the frame of the last sensor
/// read. Both start at 0.
#[derive(Debug, Clone, Copy, PartialEq, Eq)]
pub struct LoopState {
    pub frame_count: u32,
    pub last_sensor_read: u32,
}

/// What a frame does besides drawing its number.
#[derive(Debug, Clone, Copy, PartialEq, Eq)]
pub struct FrameAction {
    pub read_sensors: bool,
    pub heartbeat: bool,
}

/// `n + 1`, wrapping to 0 after `u32::MAX`.
pub open spec fn wrapping_succ(n: u32) -> u32 {
    if n == u32::MAX {
        0
    } else {
        (n + 1) as u32
    }
}

/// The frames from `from` to `to` on a counter that wraps.
pub open spec fn frames_between(from: u32, to: u32) -> int {
    if to >= from {
        to - from
    } else {
        to - from + 0x1_0000_0000
    }
}

/// The next frame: the count goes up by one, the sensors are read when more
/// than `READ_INTERVAL` frames passed since the last read, and the
/// heartbeat comes on multiples of `HEARTBEAT_PERIOD`.
pub open spec fn frame_next(s: LoopState) -> (LoopState, FrameAction) {
    let frame = wrapping_succ(s.frame_count);
    let read = frames_between(s.last_sensor_read, frame) > READ_INTERVAL;
    (
        LoopState { frame_count: frame, last_sensor_read: if read { frame } else { s.last_sensor_read } },
        FrameAction { read_sensors: read, heartbeat: frame % HEARTBEAT_PERIOD == 0 },
    )
}

/// The counters before the first frame.
pub fn loop_start() -> (s: LoopState)
    ensures
        s == (LoopState { frame_count: 0, last_sensor_read: 0 }),
{
    LoopState { frame_count: 0, last_sensor_read: 0 }
}

/// Advances the loop by one frame and says what the frame does.
pub fn next_frame(s: LoopState) -> (r: (LoopState, FrameAction))
    ensures
        r == frame_next(s),
{
    let frame = s.frame_count.wrapping_add(1);
    let read = frame.wrapping_sub(s.last_sensor_read) > READ_INTERVAL;
    let last = if read { frame } else { s.last_sensor_read };
    (LoopState { frame_count: frame, last_sensor_read: last }, FrameAction { read_sensors: read, heartbeat: frame % HEARTBEAT_PERIOD == 0 })
}

/// The second line of the screen after an AHT20 read that gave no
/// measurement.
pub open spec fn read_error_text(outcome: Aht20Outcome) -> Seq<char> {
    match outcome {
        Err(Aht20Error::I2cError) => "I2C ERROR"@,
        Err(Aht20Error::NotCalibrated) => "NOT CALIBRATED"@,
        Err(Aht20Error::Busy) => "SENSOR BUSY"@,
        _ => "INVALID DATA"@,
    }
}

/// The message for an AHT20 read that gave no measurement.
pub fn read_error_message(outcome: &Aht20Outcome) -> (m: &'static str)
    ensures
        m@ == read_error_text(*outcome),
{
    match outcome {
        Err(Aht20Error::I2cError) => "I2C ERROR",
        Err(Aht20Error::NotCalibrated) => "NOT CALIBRATED",
        Err(Aht20Error::Busy) => "SENSOR BUSY",
        _ => "INVALID DATA",
    }
}

/// Adds `value` to the history: into the next free slot while fewer than
/// six are used, else the oldest leaves and `value` comes last.
pub fn push_history<T: Copy>(history: &mut [T; 6], count: &mut usize, value: T)
    ensures
        *old(count) < 6 ==> final(history)@ == old(history)@.update(*old(count) as int, value)
            && *final(count) == *old(count) + 1,
        *old(count) >= 6 ==> final(history)@ == old(history)@.subrange(1, 6).push(value)
            && *final(count) == *old(count),
{
    if *count < HISTORY_SLOTS {
        history[*count] = value;
        *count = *count + 1;
    } else {
        let mut i: usize = 0;
        while i < 5
            invariant
                i <= 5,
                history@.len() == 6,
                forall|j: int| 0 <= j < i ==> history@[j] == old(history)@[j + 1],
                forall|j: int| i <= j < 6 ==> history@[j] == old(history)@[j],
            decreases 5 - i,
        {
            let next = history[i + 1];
            history[i] = next;
            i = i + 1;
        }
        history[5] = value;
        assert(history@ =~= old(history)@.subrange(1, 6).push(value));
    }
}

/// Reads come every `READ_INTERVAL + 1` frames, the counter wrapping or
/// not: after a read on the frame of `s`, the next `READ_INTERVAL` frames
/// read nothing and the one after reads.
pub proof fn law_read_interval(s: LoopState, k: int)
    requires
        s.frame_count == s.last_sensor_read,
        1 <= k <= READ_INTERVAL + 1,
    ensures
        frame_next(
            LoopState { frame_count: ((s.frame_count + k - 1) % 0x1_0000_0000) as u32, ..s },
        ).1.read_sensors == (k == READ_INTERVAL + 1),
{
}

/// What happened that the screen and the LED answer.
#[derive(Debug, Clone, Copy, PartialEq, Eq)]
pub enum MonitorEvent {
    /// The AHT20's start-up ended, well or not.
    Aht20Init(bool),
    /// The BMP280's start-up ended, well or not.
    Bmp280Init(bool),
    /// An AHT20 read gave a measurement, or this other outcome.
    Aht20Read(Aht20Outcome),
}

/// A screen of centred messages.
#[derive(Debug, Clone, Copy, PartialEq, Eq)]
pub enum Notice {
    Aht20InitSuccess,
    Aht20InitFailed,
    Bmp280InitFailed,
    /// A read that gave no measurement, with its outcome.
    Aht20ReadError(Aht20Outcome),
}

/// What the screen shows next.
#[derive(Debug, Clone, Copy, PartialEq, Eq)]
pub enum Show {
    /// What it shows now.
    Keep,
    /// The three sensor cards.
    Cards,
    /// A message screen.
    Message(Notice),
}

/// What the LED does: `Blink(n)` lights it `n` times for 100 ms with
/// 100 ms pauses; `Toggle(n)` toggles it `n` times, waiting 100 ms after
/// each when there are several.
#[derive(Debug, Clone, Copy, PartialEq, Eq)]
pub enum Led {
    Blink(u32),
    Toggle(u32),
}

/// The screen and the LED's answer to an event.
#[derive(Debug, Clone, Copy, PartialEq, Eq)]
pub struct Feedback {
    pub show: Show,
    pub led: Led,
}

/// The answer to each event: a start-up that went well shows a message (the
/// AHT20) or nothing (the BMP280) and blinks once or twice; a failed one
/// shows what failed and blinks three or four times. A measurement shows
/// the cards and toggles the LED once; a read without one shows the error
/// and toggles three times.
pub open spec fn feedback_of(e: MonitorEvent) -> Feedback {
    match e {
        MonitorEvent::Aht20Init(true) => Feedback { show: Show::Message(Notice::Aht20InitSuccess), led: Led::Blink(1) },
        MonitorEvent::Aht20Init(false) => Feedback { show: Show::Message(Notice::Aht20InitFailed), led: Led::Blink(3) },
        MonitorEvent::Bmp280Init(true) => Feedback { show: Show::Keep, led: Led::Blink(2) },
        MonitorEvent::Bmp280Init(false) => Feedback { show: Show::Message(Notice::Bmp280InitFailed), led: Led::Blink(4) },
        MonitorEvent::Aht20Read(o) => if o matches Ok(Aht20Done::Measured(_)) {
            Feedback { show: Show::Cards, led: Led::Toggle(1) }
        } else {
            Feedback { show: Show::Message(Notice::Aht20ReadError(o)), led: Led::Toggle(3) }
        },
    }
}

/// The screen and the LED's answer to `e`.
pub fn feedback(e: MonitorEvent) -> (f: Feedback)
    ensures
        f == feedback_of(e),
{
    match e {
        MonitorEvent::Aht20Init(true) => Feedback { show: Show::Message(Notice::Aht20InitSuccess), led: Led::Blink(1) },
        MonitorEvent::Aht20Init(false) => Feedback { show: Show::Message(Notice::Aht20InitFailed), led: Led::Blink(3) },
        MonitorEvent::Bmp280Init(true) => Feedback { show: Show::Keep, led: Led::Blink(2) },
        MonitorEvent::Bmp280Init(false) => Feedback { show: Show::Message(Notice::Bmp280InitFailed), led: Led::Blink(4) },
        MonitorEvent::Aht20Read(o) => match o {
            Ok(Aht20Done::Measured(_)) => Feedback { show: Show::Cards, led: Led::Toggle(1) },
            _ => Feedback { show: Show::Message(Notice::Aht20ReadError(o)), led: Led::Toggle(3) },
        },
    }
}

/// The first line of a message screen: its row and its text.
pub open spec fn notice_title(n: Notice) -> (i32, Seq<char>) {
    match n {
        Notice::Aht20InitSuccess => (80, "AHT20 INIT SUCCESS"@),
        Notice::Aht20InitFailed => (100, "AHT20 INIT FAILED"@),
        Notice::Bmp280InitFailed => (80, "BMP280 INIT FAILED"@),
        Notice::Aht20ReadError(_) => (80, "AHT20 READ ERROR"@),
    }
}

/// The second line of a message screen, if it has one.
pub open spec fn notice_detail(n: Notice) -> Option<(i32, Seq<char>)> {
    match n {
        Notice::Aht20InitSuccess => None,
        Notice::Aht20InitFailed => Some((130, "Check I2C Connection"@)),
        Notice::Bmp280InitFailed => Some((110, "Check I2C Wiring"@)),
        Notice::Aht20ReadError(o) => Some((110, read_error_text(o))),
    }
}

/// The lines of a message screen, top first: row and text.
pub fn notice_lines(n: Notice) -> (lines: Vec<(i32, &'static str)>)
    ensures
        lines@.len() >= 1,
        lines@[0].0 == notice_title(n).0 && lines@[0].1@ == notice_title(n).1,
        match notice_detail(n) {
            None => lines@.len() == 1,
            Some(d) => lines@.len() == 2 && lines@[1].0 == d.0 && lines@[1].1@ == d.1,
        },
{
    let mut lines: Vec<(i32, &'static str)> = Vec::new();
    match n {
        Notice::Aht20InitSuccess => {
            lines.push((80, "AHT20 INIT SUCCESS"));
        },
        Notice::Aht20InitFailed => {
            lines.push((100, "AHT20 INIT FAILED"));
            lines.push((130, "Check I2C Connection"));
        },
        Notice::Bmp280InitFailed => {
            lines.push((80, "BMP280 INIT FAILED"));
            lines.push((110, "Check I2C Wiring"));
        },
        Notice::Aht20ReadError(o) => {
            lines.push((80, "AHT20 READ ERROR"));
            lines.push((110, read_error_message(&o)));
        },
    }
    lines
}

} // verus!
