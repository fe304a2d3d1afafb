//! The logger: renders a leveled, timestamped line for each message.

use vstd::prelude::*;

use crate::clock::{
    clock_date_text, clock_text, is_digit, lemma_padded_digits, now_utc, padded, year_text, Timestamp,
};
use crate::config::{Config, LevelFormatType, OutputType, TimeFormatType};
use crate::style::{foreground, is_foreground_sequence, reset, reset_sequence, TermColor};

verus! {

/// The severity of a message.
#[derive(Clone, Copy, Debug, PartialEq, Eq)]
pub enum Level {
    Debug,
    Info,
    Warning,
    Error,
}

/// The encoding of a rendered line.
#[derive(Clone, Copy, Debug, PartialEq, Eq)]
pub enum Format {
    PlainText,
}

/// A logger: its settings and its output encoding.
#[derive(Clone, Copy, Debug, PartialEq, Eq)]
pub struct Mogger {
    pub config: Config,
    pub output_format: Format,
}

/// The name of a level, as it stands between the brackets.
pub open spec fn level_name(l: Level) -> Seq<char> {
    match l {
        Level::Debug => seq!['D', 'e', 'b', 'u', 'g'],
        Level::Info => seq!['I', 'n', 'f', 'o'],
        Level::Warning => seq!['W', 'a', 'r', 'n', 'i', 'n', 'g'],
        Level::Error => seq!['E', 'r', 'r', 'o', 'r'],
    }
}

/// The foreground color of a level's prefix; `Debug` keeps the terminal's own.
pub open spec fn level_color(l: Level) -> Option<TermColor> {
    match l {
        Level::Debug => None,
        Level::Info => Some(TermColor::White),
        Level::Warning => Some(TermColor::Yellow),
        Level::Error => Some(TermColor::Red),
    }
}

/// `fg` may be what switches to the level's color (anything, for a level without one).
pub open spec fn fits_level(l: Level, fg: Seq<char>) -> bool {
    match level_color(l) {
        Some(c) => is_foreground_sequence(c, fg),
        None => true,
    }
}

/// `[<name>] `
pub open spec fn bracketed(s: Seq<char>) -> Seq<char> {
    seq!['['] + s + seq![']', ' ']
}

/// The level prefix: with level display on, the color switch `fg` (for a level with
/// a color), `[<name>] `, and the color reset; with it off, nothing.
pub open spec fn level_text(c: Config, l: Level, fg: Seq<char>) -> Seq<char> {
    match c.level_option {
        Some(_) => {
            let color = if level_color(l) is Some {
                fg
            } else {
                Seq::empty()
            };
            color + bracketed(level_name(l)) + reset_sequence()
        },
        None => Seq::empty(),
    }
}

/// The instant in the chosen time format.
pub open spec fn stamp_text(k: TimeFormatType, t: Timestamp) -> Seq<char> {
    match k {
        TimeFormatType::Default => clock_text(t),
        TimeFormatType::ClockDateMonthYear => clock_date_text(t),
    }
}

/// What `get_time` returns: the stamp, or nothing with time display off.
pub open spec fn time_of(c: Config, t: Timestamp) -> Seq<char> {
    match c.time_option {
        Some(k) => stamp_text(k, t),
        None => Seq::empty(),
    }
}

/// The time prefix: `[<stamp>] `, or nothing with time display off.
pub open spec fn time_text(c: Config, t: Timestamp) -> Seq<char> {
    match c.time_option {
        Some(k) => bracketed(stamp_text(k, t)),
        None => Seq::empty(),
    }
}

/// A whole console line: level prefix, time prefix, the message, a newline.
pub open spec fn line_text(
    c: Config,
    l: Level,
    msg: Seq<char>,
    t: Timestamp,
    fg: Seq<char>,
) -> Seq<char> {
    level_text(c, l, fg) + time_text(c, t) + msg + seq!['\n']
}

fn level_label(level: Level) -> (r: &'static str)
    ensures
        r@ == bracketed(level_name(level)),
{
    proof {
        reveal_strlit("[Debug] ");
        reveal_strlit("[Info] ");
        reveal_strlit("[Warning] ");
        reveal_strlit("[Error] ");
    }
    match level {
        Level::Debug => {
            assert("[Debug] "@ =~= bracketed(level_name(level)));
            "[Debug] "
        },
        Level::Info => {
            assert("[Info] "@ =~= bracketed(level_name(level)));
            "[Info] "
        },
        Level::Warning => {
            assert("[Warning] "@ =~= bracketed(level_name(level)));
            "[Warning] "
        },
        Level::Error => {
            assert("[Error] "@ =~= bracketed(level_name(level)));
            "[Error] "
        },
    }
}

fn color_of(level: Level) -> (r: Option<TermColor>)
    ensures
        r == level_color(level),
{
    match level {
        Level::Debug => None,
        Level::Info => Some(TermColor::White),
        Level::Warning => Some(TermColor::Yellow),
        Level::Error => Some(TermColor::Red),
    }
}

impl Mogger {
    /// A logger with the given settings and encoding.
    pub fn new(config: Config, output_format: Format) -> (m: Mogger)
        ensures
            m.config == config,
            m.output_format == output_format,
    {
        Mogger { config, output_format }
    }

    /// A logger that shows the level and the instant with its date, in plain text.
    pub fn default() -> (m: Mogger)
        ensures
            m.config.time_option == Some(TimeFormatType::ClockDateMonthYear),
            m.config.level_option == Some(LevelFormatType::Default),
            m.config.output == OutputType::Console,
            m.output_format == Format::PlainText,
    {
        let config = Config::builder()
            .timeformat(Some(TimeFormatType::ClockDateMonthYear))
            .level_format(Some(LevelFormatType::Default))
            .build();
        Mogger { config, output_format: Format::PlainText }
    }

    /// The level prefix, with `fg` as the switch to the level's color.
    pub fn console_write_level(&self, level: Level, fg: &str) -> (r: String)
        ensures
            r@ == level_text(self.config, level, fg@),
    {
        match self.config.level_option {
            Some(_) => {
                let mut out = String::new();
                if color_of(level).is_some() {
                    out.append(fg);
                }
                out.append(level_label(level));
                let rs = reset();
                out.append(rs.as_str());
                proof {
                    assert(out@ =~= level_text(self.config, level, fg@));
                }
                out
            },
            None => String::new(),
        }
    }

    /// The instant `now` in the configured time format; empty with time display off.
    pub fn get_time(&self, now: &Timestamp) -> (r: String)
        requires
            now.wf(),
        ensures
            r@ == time_of(self.config, *now),
    {
        match self.config.time_option {
            Some(TimeFormatType::Default) => now.clock(),
            Some(TimeFormatType::ClockDateMonthYear) => now.clock_date(),
            None => String::new(),
        }
    }

    /// The time prefix for the instant `now`.
    pub fn console_write_time(&self, now: &Timestamp) -> (r: String)
        requires
            now.wf(),
        ensures
            r@ == time_text(self.config, *now),
    {
        proof {
            reveal_strlit("[");
            reveal_strlit("] ");
        }
        match self.config.time_option {
            Some(_) => {
                let mut out = String::new();
                out.append("[");
                let stamp = self.get_time(now);
                out.append(stamp.as_str());
                out.append("] ");
                proof {
                    assert(out@ =~= time_text(self.config, *now));
                }
                out
            },
            None => String::new(),
        }
    }

    /// The console line for `message` at level `level`, at the instant `now`, with
    /// `fg` as the switch to the level's color.
    pub fn console_write(
        &self,
        level: Level,
        message: &str,
        now: &Timestamp,
        fg: &str,
    ) -> (r: String)
        requires
            now.wf(),
        ensures
            r@ == line_text(self.config, level, message@, *now, fg@),
    {
        proof {
            reveal_strlit("\n");
        }
        let mut out = self.console_write_level(level, fg);
        let time = self.console_write_time(now);
        out.append(time.as_str());
        out.append(message);
        out.append("\n");
        proof {
            assert(out@ =~= line_text(self.config, level, message@, *now, fg@));
        }
        out
    }

    /// The line to write for `message` at level `level`, at the current instant,
    /// colored as the terminal environment allows.
    pub fn log(&self, level: Level, message: &str) -> (r: String)
        ensures
            exists|t: Timestamp, fg: Seq<char>|
                t.wf() && fits_level(level, fg) && r@ == line_text(self.config, level, message@, t, fg),
    {
        match self.config.output {
            OutputType::Console => {
                let now = now_utc();
                let fg = match color_of(level) {
                    Some(c) => foreground(c),
                    None => String::new(),
                };
                let r = self.console_write(level, message, &now, fg.as_str());
                assert(fits_level(level, fg@));
                r
            },
        }
    }
}


/// `s` holds no escape character, so no control sequence.
pub open spec fn escape_free(s: Seq<char>) -> bool {
    forall|i: int| 0 <= i < s.len() ==> s[i] != '\u{1b}'
}

proof fn lemma_escape_free_concat(a: Seq<char>, b: Seq<char>)
    requires
        escape_free(a),
        escape_free(b),
    ensures
        escape_free(a + b),
{
    assert forall|i: int| 0 <= i < (a + b).len() implies (a + b)[i] != '\u{1b}' by {
        if i < a.len() {
            assert((a + b)[i] == a[i]);
        } else {
            assert((a + b)[i] == b[i - a.len()]);
        }
    }
}

proof fn lemma_padded_escape_free(n: nat, w: nat)
    ensures
        escape_free(padded(n, w)),
{
    lemma_padded_digits(n, w);
    assert forall|i: int| 0 <= i < padded(n, w).len() implies padded(n, w)[i] != '\u{1b}' by {
        assert(is_digit(padded(n, w)[i]));
    }
}

proof fn lemma_time_escape_free(c: Config, t: Timestamp)
    ensures
        escape_free(time_text(c, t)),
{
    lemma_padded_escape_free(t.hour as nat, 2);
    lemma_padded_escape_free(t.minute as nat, 2);
    lemma_padded_escape_free(t.day as nat, 2);
    lemma_padded_escape_free(t.month as nat, 2);
    lemma_padded_escape_free(t.year as nat, 4);
    lemma_padded_escape_free(t.year as nat, 5);
    lemma_padded_escape_free(t.year as nat, 6);
    let colon = seq![':'];
    let space = seq![' '];
    let slash = seq!['/'];
    let plus = seq!['+'];
    let open = seq!['['];
    let close = seq![']', ' '];
    assert(escape_free(colon));
    assert(escape_free(space));
    assert(escape_free(slash));
    assert(escape_free(plus));
    assert(escape_free(open));
    assert(escape_free(close));
    lemma_escape_free_concat(plus, padded(t.year as nat, 5));
    lemma_escape_free_concat(plus, padded(t.year as nat, 6));
    assert(escape_free(year_text(t.year as int)));
    lemma_escape_free_concat(padded(t.hour as nat, 2), colon);
    lemma_escape_free_concat(padded(t.hour as nat, 2) + colon, padded(t.minute as nat, 2));
    assert(escape_free(clock_text(t)));
    lemma_escape_free_concat(clock_text(t), space);
    lemma_escape_free_concat(clock_text(t) + space, padded(t.day as nat, 2));
    lemma_escape_free_concat(clock_text(t) + space + padded(t.day as nat, 2), slash);
    lemma_escape_free_concat(
        clock_text(t) + space + padded(t.day as nat, 2) + slash,
        padded(t.month as nat, 2),
    );
    lemma_escape_free_concat(
        clock_text(t) + space + padded(t.day as nat, 2) + slash + padded(t.month as nat, 2),
        slash,
    );
    lemma_escape_free_concat(
        clock_text(t) + space + padded(t.day as nat, 2) + slash + padded(t.month as nat, 2) + slash,
        year_text(t.year as int),
    );
    assert(escape_free(clock_date_text(t)));
    match c.time_option {
        Some(k) => {
            lemma_escape_free_concat(open, stamp_text(k, t));
            lemma_escape_free_concat(open + stamp_text(k, t), close);
        },
        None => {},
    }
}

/// Level and time display are each gated by their option: with level display off the
/// line starts with the time prefix, which holds no color or reset sequence; with time
/// display off the message follows the level prefix directly; with both off the line
/// is the message and a newline.
pub proof fn lemma_option_gating(c: Config, l: Level, msg: Seq<char>, t: Timestamp, fg: Seq<char>)
    ensures
        c.level_option is None ==> line_text(c, l, msg, t, fg) == time_text(c, t) + msg + seq!['\n'],
        c.level_option is None ==> escape_free(time_text(c, t)),
        c.time_option is None ==> line_text(c, l, msg, t, fg) == level_text(c, l, fg) + msg + seq!['\n'],
        c.level_option is None && c.time_option is None ==> line_text(c, l, msg, t, fg) == msg + seq!['\n'],
{
    lemma_time_escape_free(c, t);
    assert(Seq::<char>::empty() + time_text(c, t) =~= time_text(c, t));
    assert(level_text(c, l, fg) + Seq::<char>::empty() =~= level_text(c, l, fg));
    assert(Seq::<char>::empty() + Seq::<char>::empty() + msg + seq!['\n'] =~= msg + seq!['\n']);
}

/// For one logger, level and message, lines rendered at two instants agree outside
/// the time prefix: the same level prefix before it, the same message and newline
/// after it. Where the two stamps have one length (always for `HH:MM`; for dates up
/// to year 9999) the lines have one length, and with time display off they are equal.
pub proof fn lemma_line_stable(
    c: Config,
    l: Level,
    msg: Seq<char>,
    t1: Timestamp,
    t2: Timestamp,
    fg: Seq<char>,
)
    requires
        t1.wf(),
        t2.wf(),
    ensures
        ({
            let a = line_text(c, l, msg, t1, fg);
            let b = line_text(c, l, msg, t2, fg);
            let p = level_text(c, l, fg).len();
            let ta = time_text(c, t1).len();
            let tb = time_text(c, t2).len();
            &&& a.subrange(0, p as int) == b.subrange(0, p as int)
            &&& a.subrange((p + ta) as int, a.len() as int) == b.subrange((p + tb) as int, b.len() as int)
            &&& c.time_option is None ==> a == b
            &&& (c.time_option == Some(TimeFormatType::Default) || (t1.year <= 9999
                && t2.year <= 9999)) ==> a.len() == b.len()
        }),
{
    let a = line_text(c, l, msg, t1, fg);
    let b = line_text(c, l, msg, t2, fg);
    let lv = level_text(c, l, fg);
    let p = lv.len();
    let ta = time_text(c, t1).len();
    let tb = time_text(c, t2).len();
    assert(a.subrange(0, p as int) =~= lv);
    assert(b.subrange(0, p as int) =~= lv);
    assert(a.subrange((p + ta) as int, a.len() as int) =~= msg + seq!['\n']);
    assert(b.subrange((p + tb) as int, b.len() as int) =~= msg + seq!['\n']);
    crate::clock::lemma_clock_shape(t1);
    crate::clock::lemma_clock_shape(t2);
    crate::clock::lemma_clock_date_shape(t1);
    crate::clock::lemma_clock_date_shape(t2);
}

} // verus!
