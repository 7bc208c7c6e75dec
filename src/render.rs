use vstd::prelude::*;

use crate::clock::{format_rfc3339, format_seconds, rfc3339_stamp, second_stamp, LocalTime};
use crate::level::{DebugMode, Level};
use crate::paint::{paint, painted};

verus! {

/// One log record as the logging facade hands it over.
#[derive(Debug, PartialEq, Eq)]
pub struct Record {
    pub level: Level,
    /// The target the record was logged for (by default its module).
    pub target: String,
    pub module: Option<String>,
    pub file: Option<String>,
    pub line: Option<u32>,
    /// The formatted message.
    pub message: String,
}

/// A record's contents as plain text.
pub struct RecordView {
    pub level: Level,
    pub target: Seq<char>,
    pub module: Option<Seq<char>>,
    pub file: Option<Seq<char>>,
    pub line: Option<u32>,
    pub message: Seq<char>,
}

pub open spec fn text_of(s: Option<String>) -> Option<Seq<char>> {
    match s {
        Some(t) => Some(t@),
        None => None,
    }
}

impl View for Record {
    type V = RecordView;

    open spec fn view(&self) -> RecordView {
        RecordView {
            level: self.level,
            target: self.target@,
            module: text_of(self.module),
            file: text_of(self.file),
            line: self.line,
            message: self.message@,
        }
    }
}

/// The word a level is printed as.
pub open spec fn level_word(level: Level) -> Seq<char> {
    match level {
        Level::Trace => "TRACE"@,
        Level::Debug => "DEBUG"@,
        Level::Info => "INFO"@,
        Level::Warn => "WARNING"@,
        Level::Error => "ERROR"@,
    }
}

/// The dotted style a level's word is printed in.
pub open spec fn level_style(level: Level) -> Seq<char> {
    match level {
        Level::Trace => "bold"@,
        Level::Debug => "bold.blue"@,
        Level::Info => "bold.green"@,
        Level::Warn => "bold.yellow"@,
        Level::Error => "bold.red"@,
    }
}

/// The text of one decimal digit.
pub open spec fn digit_text(d: nat) -> Seq<char> {
    if d == 0 {
        "0"@
    } else if d == 1 {
        "1"@
    } else if d == 2 {
        "2"@
    } else if d == 3 {
        "3"@
    } else if d == 4 {
        "4"@
    } else if d == 5 {
        "5"@
    } else if d == 6 {
        "6"@
    } else if d == 7 {
        "7"@
    } else if d == 8 {
        "8"@
    } else {
        "9"@
    }
}

/// A number in decimal, without leading zeros.
pub open spec fn decimal(n: nat) -> Seq<char>
    decreases n,
{
    if n < 10 {
        digit_text(n)
    } else {
        decimal(n / 10) + digit_text(n % 10)
    }
}

/// The module annotation of the debug layout: the module path, where the
/// record has one that differs from its target.
pub open spec fn module_note(r: RecordView, colour: bool) -> Seq<char> {
    match r.module {
        Some(m) => if m != r.target {
            " "@ + painted("dim"@, m, colour)
        } else {
            Seq::empty()
        },
        None => Seq::empty(),
    }
}

/// The location annotation of the full layout: the file, and the line after
/// it, where the record has them.
pub open spec fn location_note(r: RecordView, colour: bool) -> Seq<char> {
    match r.file {
        Some(f) => " "@ + painted("dim"@, f, colour) + match r.line {
            Some(n) => painted("dim"@, ":"@ + decimal(n as nat), colour),
            None => Seq::empty(),
        },
        None => Seq::empty(),
    }
}

/// The line (without its newline) that a record is rendered as, in a mode,
/// for a sink with or without colour, at a reading of the clock.
pub open spec fn line_text(r: RecordView, mode: DebugMode, colour: bool, now: LocalTime) -> Seq<char> {
    let level = painted(level_style(r.level), level_word(r.level), colour);
    let target = painted("bold"@, r.target, colour);
    match mode {
        DebugMode::HumanFriendly => level + ": "@ + r.message,
        DebugMode::Debug => "["@ + painted("dim"@, second_stamp(now.secs as int, now.offset as int), colour)
            + " "@ + level + module_note(r, colour) + " "@ + target + "]"@ + " "@ + r.message,
        DebugMode::Full => "["@ + painted(
            "dim"@,
            rfc3339_stamp(now.secs as int, now.nanos as int, now.offset as int),
            colour,
        ) + " "@ + level + location_note(r, colour) + " "@ + target + "]"@ + " "@ + r.message,
    }
}

/// The diagnostic printed when a sink's destination fails.
pub open spec fn notice_text(label: Seq<char>, error: Seq<char>, flushing: bool, colour: bool) -> Seq<char> {
    painted("bold.yellow"@, "WARNING"@, colour) + (if flushing {
        ": Failed to flush writer '"@
    } else {
        ": Failed to write to writer '"@
    }) + label + "': "@ + error + " (will not attempt again)"@
}

fn digit_str(d: u32) -> (r: &'static str)
    requires
        d < 10,
    ensures
        r@ == digit_text(d as nat),
{
    match d {
        0 => "0",
        1 => "1",
        2 => "2",
        3 => "3",
        4 => "4",
        5 => "5",
        6 => "6",
        7 => "7",
        8 => "8",
        _ => "9",
    }
}

fn push_decimal(s: &mut String, n: u32)
    ensures
        final(s)@ == old(s)@ + decimal(n as nat),
    decreases n,
{
    if n >= 10 {
        push_decimal(s, n / 10);
    }
    s.append(digit_str(n % 10));
    proof {
        if n >= 10 {
            assert(old(s)@ + decimal((n / 10) as nat) + digit_text((n % 10) as nat) =~= old(s)@
                + decimal(n as nat));
        } else {
            assert(n % 10 == n);
        }
    }
}

/// The word of a level in its style.
fn level_label(level: Level, colour: bool) -> (r: String)
    ensures
        r@ == painted(level_style(level), level_word(level), colour),
{
    match level {
        Level::Trace => paint("bold", "TRACE", colour),
        Level::Debug => paint("bold.blue", "DEBUG", colour),
        Level::Info => paint("bold.green", "INFO", colour),
        Level::Warn => paint("bold.yellow", "WARNING", colour),
        Level::Error => paint("bold.red", "ERROR", colour),
    }
}

/// Renders a record as one line, without its newline.
pub fn render_line(record: &Record, mode: DebugMode, colour: bool, now: &LocalTime) -> (r: String)
    requires
        now.valid(),
    ensures
        r@ == line_text(record@, mode, colour, *now),
{
    let level = level_label(record.level, colour);
    let target = paint("bold", record.target.as_str(), colour);
    let mut out = String::new();
    match mode {
        DebugMode::HumanFriendly => {
            out.append(level.as_str());
            out.append(": ");
        },
        DebugMode::Debug => {
            let stamp = format_seconds(now);
            out.append("[");
            out.append(paint("dim", stamp.as_str(), colour).as_str());
            out.append(" ");
            out.append(level.as_str());
            match &record.module {
                Some(m) => {
                    if *m != record.target {
                        out.append(" ");
                        out.append(paint("dim", m.as_str(), colour).as_str());
                    }
                },
                None => {},
            }
            out.append(" ");
            out.append(target.as_str());
            out.append("]");
            out.append(" ");
        },
        DebugMode::Full => {
            let stamp = format_rfc3339(now);
            out.append("[");
            out.append(paint("dim", stamp.as_str(), colour).as_str());
            out.append(" ");
            out.append(level.as_str());
            match &record.file {
                Some(f) => {
                    out.append(" ");
                    out.append(paint("dim", f.as_str(), colour).as_str());
                    match record.line {
                        Some(n) => {
                            let mut at = String::new();
                            at.append(":");
                            push_decimal(&mut at, n);
                            out.append(paint("dim", at.as_str(), colour).as_str());
                        },
                        None => {},
                    }
                },
                None => {},
            }
            out.append(" ");
            out.append(target.as_str());
            out.append("]");
            out.append(" ");
        },
    }
    out.append(record.message.as_str());
    proof {
        let r = record@;
        let lv = painted(level_style(r.level), level_word(r.level), colour);
        let tg = painted("bold"@, r.target, colour);
        match mode {
            DebugMode::HumanFriendly => {
                assert(out@ =~= line_text(r, mode, colour, *now));
            },
            DebugMode::Debug => {
                assert(out@ =~= line_text(r, mode, colour, *now));
            },
            DebugMode::Full => {
                assert(out@ =~= line_text(r, mode, colour, *now));
            },
        }
    }
    out
}

/// Renders the diagnostic for a sink whose destination failed.
pub fn failure_notice(label: &str, error: &str, flushing: bool, colour: bool) -> (r: String)
    ensures
        r@ == notice_text(label@, error@, flushing, colour),
{
    let mut out = paint("bold.yellow", "WARNING", colour);
    if flushing {
        out.append(": Failed to flush writer '");
    } else {
        out.append(": Failed to write to writer '");
    }
    out.append(label);
    out.append("': ");
    out.append(error);
    out.append(" (will not attempt again)");
    proof {
        assert(out@ =~= notice_text(label@, error@, flushing, colour));
    }
    out
}

} // verus!
