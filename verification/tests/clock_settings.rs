use rbshell::clock::{
    clock_tick, format_date, format_time, millis_until_next_minute, Clock, ClockMessage,
};
use rbshell::settings_tray::{SettingsTray, SettingsTrayMessage, StatusIcons};

#[test]
fn time_formatting_is_twelve_hour_and_zero_padded() {
    assert_eq!(format_time(0, 5), "12:05 AM");
    assert_eq!(format_time(11, 59), "11:59 AM");
    assert_eq!(format_time(12, 0), "12:00 PM");
    assert_eq!(format_time(13, 7), "01:07 PM");
    assert_eq!(format_time(23, 30), "11:30 PM");
}

#[test]
fn date_formatting_is_zero_padded() {
    assert_eq!(format_date(2024, 7, 9), "2024-07-09");
    assert_eq!(format_date(999, 12, 31), "0999-12-31");
    assert_eq!(format_date(0, 1, 1), "0000-01-01");
}

#[test]
fn next_minute_is_strictly_ahead_and_on_a_boundary() {
    assert_eq!(millis_until_next_minute(0), 60000);
    assert_eq!(millis_until_next_minute(1), 59999);
    assert_eq!(millis_until_next_minute(59999), 1);
    assert_eq!(millis_until_next_minute(60000), 60000);
    assert_eq!(millis_until_next_minute(90000), 30000);
    assert_eq!(millis_until_next_minute(-1), 1);
    assert_eq!(millis_until_next_minute(-60000), 60000);
    assert_eq!(millis_until_next_minute(-90000), 30000);
}

#[test]
fn clock_starts_empty_and_takes_refreshes_over() {
    let mut clock = Clock::new();
    assert_eq!(clock.time, "");
    assert_eq!(clock.date, "");
    clock.handle_message(ClockMessage::UpdateClock("01:07 PM".to_string(), "2024-07-09".to_string()));
    assert_eq!(clock.time, "01:07 PM");
    assert_eq!(clock.date, "2024-07-09");
}

#[test]
fn settings_tray_routes_clock_messages() {
    let mut tray = SettingsTray::new();
    assert_eq!(tray.clock.time, "");
    tray.handle_message(SettingsTrayMessage::Clock(ClockMessage::UpdateClock(
        "11:30 PM".to_string(),
        "1999-01-02".to_string(),
    )));
    assert_eq!(tray.clock.time, "11:30 PM");
    assert_eq!(tray.clock.date, "1999-01-02");
    let _ = StatusIcons::new();
}

#[test]
fn clock_tick_reads_the_real_clock() {
    // Runs against the real wall clock: the tick yields a well-shaped
    // refresh and a sleep within one minute.
    let (message, sleep) = clock_tick();
    assert!(0 < sleep && sleep <= 60000);
    match message {
        Some(ClockMessage::UpdateClock(time, date)) => {
            assert_eq!(time.len(), 8);
            assert_eq!(&time[2..3], ":");
            assert!(time.ends_with(" AM") || time.ends_with(" PM"));
            assert_eq!(date.len(), 10);
            assert_eq!(&date[4..5], "-");
            assert_eq!(&date[7..8], "-");
        }
        None => panic!("the local year is within four digits"),
    }
}
