use rfid_stm32h750::drivers::aht20::{Aht20Done, Aht20Error, Aht20Sample};
use rfid_stm32h750::monitor::{
    feedback, loop_start, next_frame, notice_lines, push_history, read_error_message, Led, LoopState, MonitorEvent,
    Notice, Show,
};

#[test]
fn sensors_are_read_every_three_hundred_and_one_frames() {
    let mut s = loop_start();
    let mut reads = Vec::new();
    let mut beats = Vec::new();
    for _ in 0..700 {
        let (next, action) = next_frame(s);
        s = next;
        if action.read_sensors {
            reads.push(s.frame_count);
        }
        if action.heartbeat {
            beats.push(s.frame_count);
        }
    }
    assert_eq!(reads, vec![301, 602]);
    assert_eq!(beats[..3], [60, 120, 180]);
    assert_eq!(s.last_sensor_read, 602);
}

#[test]
fn frame_counter_wraps() {
    let s = LoopState { frame_count: u32::MAX, last_sensor_read: u32::MAX - 10 };
    let (next, action) = next_frame(s);
    assert_eq!(next.frame_count, 0);
    assert!(!action.read_sensors);
    assert!(action.heartbeat);
    let s = LoopState { frame_count: u32::MAX, last_sensor_read: u32::MAX - 300 };
    let (next, action) = next_frame(s);
    assert!(action.read_sensors);
    assert_eq!(next.last_sensor_read, 0);
}

#[test]
fn aht20_read_errors_have_messages() {
    assert_eq!(read_error_message(&Err(Aht20Error::I2cError)), "I2C ERROR");
    assert_eq!(read_error_message(&Err(Aht20Error::NotCalibrated)), "NOT CALIBRATED");
    assert_eq!(read_error_message(&Err(Aht20Error::Busy)), "SENSOR BUSY");
    assert_eq!(read_error_message(&Err(Aht20Error::InvalidData)), "INVALID DATA");
    assert_eq!(read_error_message(&Ok(Aht20Done::Initialized)), "INVALID DATA");
    let sample = Aht20Sample { humidity_raw: 0, temperature_raw: 0 };
    assert_eq!(read_error_message(&Ok(Aht20Done::Measured(sample))), "INVALID DATA");
}

#[test]
fn history_fills_then_shifts() {
    let mut history = [0i32; 6];
    let mut count = 0usize;
    for v in 1..=6 {
        push_history(&mut history, &mut count, v);
    }
    assert_eq!(history, [1, 2, 3, 4, 5, 6]);
    assert_eq!(count, 6);
    push_history(&mut history, &mut count, 7);
    push_history(&mut history, &mut count, 8);
    assert_eq!(history, [3, 4, 5, 6, 7, 8]);
    assert_eq!(count, 6);
}

#[test]
fn events_choose_screen_and_led() {
    let f = feedback(MonitorEvent::Aht20Init(true));
    assert_eq!(f.show, Show::Message(Notice::Aht20InitSuccess));
    assert_eq!(f.led, Led::Blink(1));
    let f = feedback(MonitorEvent::Aht20Init(false));
    assert_eq!(f.show, Show::Message(Notice::Aht20InitFailed));
    assert_eq!(f.led, Led::Blink(3));
    let f = feedback(MonitorEvent::Bmp280Init(true));
    assert_eq!(f.show, Show::Keep);
    assert_eq!(f.led, Led::Blink(2));
    let f = feedback(MonitorEvent::Bmp280Init(false));
    assert_eq!(f.show, Show::Message(Notice::Bmp280InitFailed));
    assert_eq!(f.led, Led::Blink(4));
    let sample = Aht20Sample { humidity_raw: 1, temperature_raw: 2 };
    let f = feedback(MonitorEvent::Aht20Read(Ok(Aht20Done::Measured(sample))));
    assert_eq!(f.show, Show::Cards);
    assert_eq!(f.led, Led::Toggle(1));
    let f = feedback(MonitorEvent::Aht20Read(Err(Aht20Error::Busy)));
    assert_eq!(f.show, Show::Message(Notice::Aht20ReadError(Err(Aht20Error::Busy))));
    assert_eq!(f.led, Led::Toggle(3));
}

#[test]
fn notices_have_their_lines() {
    assert_eq!(notice_lines(Notice::Aht20InitSuccess), vec![(80, "AHT20 INIT SUCCESS")]);
    assert_eq!(
        notice_lines(Notice::Aht20InitFailed),
        vec![(100, "AHT20 INIT FAILED"), (130, "Check I2C Connection")]
    );
    assert_eq!(notice_lines(Notice::Bmp280InitFailed), vec![(80, "BMP280 INIT FAILED"), (110, "Check I2C Wiring")]);
    assert_eq!(
        notice_lines(Notice::Aht20ReadError(Err(Aht20Error::NotCalibrated))),
        vec![(80, "AHT20 READ ERROR"), (110, "NOT CALIBRATED")]
    );
}
