use mogger::{
    Config, Format, Level, LevelFormatType, Mogger, OutputType, TimeFormatType, Timestamp,
};

const YELLOW: &str = "\x1b[38;5;11m";
const RESET: &str = "\x1b[0m";

fn at(year: i32, month: u32, day: u32, hour: u32, minute: u32) -> Timestamp {
    Timestamp { year, month, day, hour, minute }
}

fn logger(time: Option<TimeFormatType>, level: Option<LevelFormatType>) -> Mogger {
    let config = Config::builder().timeformat(time).level_format(level).build();
    Mogger::new(config, Format::PlainText)
}

#[test]
fn warning_line_with_clock_and_date() {
    let m = logger(Some(TimeFormatType::ClockDateMonthYear), Some(LevelFormatType::Default));
    let line = m.console_write(Level::Warning, "disk nearly full", &at(2024, 3, 5, 14, 7), YELLOW);
    assert_eq!(line, "\x1b[38;5;11m[Warning] \x1b[0m[14:07 05/03/2024] disk nearly full\n");
}

#[test]
fn builder_starts_empty_and_writes_to_console() {
    let c = Config::builder().build();
    assert_eq!(c.time_option, None);
    assert_eq!(c.level_option, None);
    assert_eq!(c.output, OutputType::Console);
}

#[test]
fn builder_keeps_both_settings() {
    let c = Config::builder()
        .timeformat(Some(TimeFormatType::Default))
        .level_format(Some(LevelFormatType::Default))
        .build();
    assert_eq!(c.time_option, Some(TimeFormatType::Default));
    assert_eq!(c.level_option, Some(LevelFormatType::Default));
}

#[test]
fn default_logger_shows_level_and_date() {
    let m = Mogger::default();
    assert_eq!(m.config.time_option, Some(TimeFormatType::ClockDateMonthYear));
    assert_eq!(m.config.level_option, Some(LevelFormatType::Default));
    assert_eq!(m.config.output, OutputType::Console);
    assert_eq!(m.output_format, Format::PlainText);
}

#[test]
fn new_keeps_config_and_format() {
    let config = Config::builder().timeformat(Some(TimeFormatType::Default)).build();
    let m = Mogger::new(config, Format::PlainText);
    assert_eq!(m.config, config);
    assert_eq!(m.output_format, Format::PlainText);
}

#[test]
fn level_prefix_debug_has_no_color() {
    let m = logger(None, Some(LevelFormatType::Default));
    assert_eq!(m.console_write_level(Level::Debug, YELLOW), "[Debug] \x1b[0m");
}

#[test]
fn level_prefix_info_is_white() {
    let m = logger(None, Some(LevelFormatType::Default));
    let fg = "\x1b[38;5;15m";
    assert_eq!(m.console_write_level(Level::Info, fg), format!("{fg}[Info] {RESET}"));
}

#[test]
fn level_prefix_warning_is_yellow() {
    let m = logger(None, Some(LevelFormatType::Default));
    assert_eq!(m.console_write_level(Level::Warning, YELLOW), format!("{YELLOW}[Warning] {RESET}"));
}

#[test]
fn level_prefix_error_is_red() {
    let m = logger(None, Some(LevelFormatType::Default));
    let fg = "\x1b[38;5;9m";
    assert_eq!(m.console_write_level(Level::Error, fg), format!("{fg}[Error] {RESET}"));
}

#[test]
fn level_display_off_writes_no_prefix_or_reset() {
    let m = logger(Some(TimeFormatType::Default), None);
    assert_eq!(m.console_write_level(Level::Error, "\x1b[38;5;9m"), "");
    let line = m.console_write(Level::Error, "boom", &at(2024, 3, 5, 14, 7), "\x1b[38;5;9m");
    assert_eq!(line, "[14:07] boom\n");
    assert!(!line.contains('\x1b'));
}

#[test]
fn time_display_off_writes_no_stamp() {
    let m = logger(None, Some(LevelFormatType::Default));
    assert_eq!(m.console_write_time(&at(2024, 3, 5, 14, 7)), "");
    assert_eq!(m.get_time(&at(2024, 3, 5, 14, 7)), "");
    let line = m.console_write(Level::Debug, "hi", &at(2024, 3, 5, 14, 7), "");
    assert_eq!(line, "[Debug] \x1b[0mhi\n");
}

#[test]
fn both_off_is_message_and_newline() {
    let m = logger(None, None);
    assert_eq!(m.console_write(Level::Info, "plain", &at(2024, 3, 5, 14, 7), ""), "plain\n");
}

#[test]
fn clock_is_zero_padded() {
    let m = logger(Some(TimeFormatType::Default), None);
    assert_eq!(m.get_time(&at(2000, 1, 2, 3, 4)), "03:04");
    assert_eq!(m.console_write_time(&at(2000, 1, 2, 23, 59)), "[23:59] ");
}

#[test]
fn clock_date_is_zero_padded() {
    let m = logger(Some(TimeFormatType::ClockDateMonthYear), None);
    assert_eq!(m.get_time(&at(2000, 1, 2, 3, 4)), "03:04 02/01/2000");
    assert_eq!(m.get_time(&at(1970, 12, 31, 0, 0)), "00:00 31/12/1970");
}

#[test]
fn years_past_9999_carry_a_sign() {
    assert_eq!(at(12345, 6, 7, 8, 9).clock_date(), "08:09 07/06/+12345");
    assert_eq!(at(262142, 12, 31, 23, 59).clock_date(), "23:59 31/12/+262142");
    assert_eq!(at(9999, 12, 31, 23, 59).clock_date(), "23:59 31/12/9999");
}

#[test]
fn same_inputs_give_same_line() {
    let m = Mogger::default();
    let t = at(2024, 3, 5, 14, 7);
    let a = m.console_write(Level::Info, "again", &t, "\x1b[38;5;15m");
    let b = m.console_write(Level::Info, "again", &t, "\x1b[38;5;15m");
    assert_eq!(a, b);
}

#[test]
fn lines_differ_only_in_stamp() {
    let m = Mogger::default();
    let a = m.console_write(Level::Error, "x", &at(2024, 3, 5, 14, 7), "\x1b[38;5;9m");
    let b = m.console_write(Level::Error, "x", &at(2025, 11, 30, 9, 41), "\x1b[38;5;9m");
    assert_eq!(a.len(), b.len());
    assert_eq!(a.replace("14:07 05/03/2024", "09:41 30/11/2025"), b);
}
