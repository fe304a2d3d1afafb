use mogger::{AlreadyInitialized, Config, Format, Level, LevelFormatType, Mogger, Registry, TimeFormatType};

fn is_stamp(s: &str) -> bool {
    let b = s.as_bytes();
    b.len() == 16
        && [0usize, 1, 3, 4, 6, 7, 9, 10, 12, 13, 14, 15].iter().all(|&i| b[i].is_ascii_digit())
        && b[2] == b':'
        && b[5] == b' '
        && b[8] == b'/'
        && b[11] == b'/'
}

#[test]
fn log_renders_level_stamp_and_message() {
    let m = Mogger::default();
    let line = m.log(Level::Warning, "disk nearly full");
    assert!(line.starts_with("\x1b["));
    let (color, rest) = line.split_at(line.find("[Warning] ").unwrap());
    assert!(color == "\x1b[38;5;11m" || color == "\x1b[m");
    let rest = rest.strip_prefix("[Warning] \x1b[0m[").unwrap();
    let (stamp, tail) = rest.split_at(16);
    assert!(is_stamp(stamp), "{stamp}");
    assert_eq!(tail, "] disk nearly full\n");
}

#[test]
fn log_debug_has_no_color_switch() {
    let m = Mogger::default();
    let line = m.log(Level::Debug, "d");
    assert!(line.starts_with("[Debug] \x1b[0m["));
    assert!(line.ends_with("] d\n"));
}

#[test]
fn log_clock_only() {
    let config = Config::builder().timeformat(Some(TimeFormatType::Default)).build();
    let m = Mogger::new(config, Format::PlainText);
    let line = m.log(Level::Error, "e");
    let b = line.as_bytes();
    assert_eq!(line.len(), 10);
    assert_eq!(b[0], b'[');
    assert!(b[1].is_ascii_digit() && b[2].is_ascii_digit() && b[4].is_ascii_digit() && b[5].is_ascii_digit());
    assert_eq!(&line[3..4], ":");
    assert_eq!(&line[6..], "] e\n");
}

#[test]
fn log_with_everything_off() {
    let m = Mogger::new(Config::builder().build(), Format::PlainText);
    assert_eq!(m.log(Level::Info, "only this"), "only this\n");
}

#[test]
fn log_info_switches_color() {
    let m = Mogger::new(
        Config::builder().level_format(Some(LevelFormatType::Default)).build(),
        Format::PlainText,
    );
    let line = m.log(Level::Info, "i");
    assert!(line == "\x1b[38;5;15m[Info] \x1b[0mi\n" || line == "\x1b[m[Info] \x1b[0mi\n", "{line:?}");
}

#[test]
fn registry_takes_first_install_only() {
    let mut r = Registry::new();
    assert!(r.get().is_none());
    let first = Mogger::default();
    let second = Mogger::new(Config::builder().build(), Format::PlainText);
    assert_eq!(r.install(first), Ok(()));
    assert_eq!(r.install(second), Err(AlreadyInitialized));
    assert_eq!(r.install(first), Err(AlreadyInitialized));
    assert_eq!(r.get(), Some(&first));
}
