//! What is logged, and how.
use vstd::prelude::*;

use crate::patterns::{is_match, regex_matches};
use crate::text;

verus! {

/// Matches the header of a backtrace.
pub const BACKTRACE_HEADER: &'static str = "^\\s*Stack\\s+backtrace:?\\s*$";

/// Matches an entry of a backtrace that stands for a function of the kernel.
pub const ARK_BACKTRACE: &'static str = "^\\s*\\d+:\\s*[<]?ark::";

/// The lines of a text, which newlines part. There is always one.
pub open spec fn parted(s: Seq<char>) -> Seq<Seq<char>>
    decreases s.len(),
{
    if s.len() == 0 {
        seq![s]
    } else if s.last() == '\n' {
        parted(s.drop_last()).push(Seq::empty())
    } else {
        let lines = parted(s.drop_last());
        lines.drop_last().push(lines.last().push(s.last()))
    }
}

proof fn lemma_parted(s: Seq<char>)
    ensures
        parted(s).len() > 0,
    decreases s.len(),
{
    if s.len() > 0 {
        lemma_parted(s.drop_last());
    }
}

/// The lines of a text.
pub fn part(s: &str) -> (r: Vec<String>)
    ensures
        text::texts(r@) == parted(s@),
        r@.len() > 0,
{
    let v: Vec<char> = text::chars_of(s);
    let n: usize = v.len();
    let mut lines: Vec<String> = Vec::new();
    let mut line: String = String::new();
    let mut i: usize = 0;
    assert(s@.take(0) =~= Seq::<char>::empty());
    assert(text::texts(lines@).push(line@) =~= seq![Seq::<char>::empty()]);
    while i < n
        invariant
            v@ == s@,
            n == v@.len(),
            i <= n,
            text::texts(lines@).push(line@) == parted(s@.take(i as int)),
        decreases n - i,
    {
        let c: char = v[i];
        let ghost before = text::texts(lines@);
        let ghost open = line@;
        assert(s@.take(i + 1).drop_last() =~= s@.take(i as int));
        assert(before.push(open).drop_last() =~= before);
        if c == '\n' {
            lines.push(line);
            line = String::new();
            assert(text::texts(lines@) =~= before.push(open));
        } else {
            line.push(c);
        }
        i = i + 1;
    }
    assert(s@.take(n as int) =~= s@);
    let ghost before = text::texts(lines@);
    let ghost open = line@;
    lines.push(line);
    assert(text::texts(lines@) =~= before.push(open));
    proof {
        lemma_parted(s@);
    }
    lines
}

/// The first line of a backtrace that stands for a function of the kernel. Headers are
/// passed over.
pub open spec fn first_entry(header: Seq<bool>, ark: Seq<bool>, from: int) -> Option<int>
    decreases header.len() - from,
{
    if from < 0 || from >= header.len() {
        None
    } else if !header[from] && ark[from] {
        Some(from)
    } else {
        first_entry(header, ark, from + 1)
    }
}

/// The last header before a line.
pub open spec fn last_header(header: Seq<bool>, before: int) -> Option<int>
    decreases before,
{
    if before <= 0 || before > header.len() {
        None
    } else if header[before - 1] {
        Some(before - 1)
    } else {
        last_header(header, before - 1)
    }
}

/// What says where an error occurred: an entry of the backtrace and the line after it.
pub open spec fn occurrence(lines: Seq<Seq<char>>, entry: int) -> Seq<char> {
    "Occurred at:\n"@ + lines[entry] + "\n"@ + lines[entry + 1] + "\n"@
}

/// The message with the place of the error above the header of the backtrace, if it has
/// both.
pub open spec fn annotated(
    message: Seq<char>,
    lines: Seq<Seq<char>>,
    header: Seq<bool>,
    ark: Seq<bool>,
) -> Seq<char> {
    match first_entry(header, ark, 0) {
        Some(entry) => match last_header(header, entry) {
            Some(at) => text::joined(lines.insert(at, occurrence(lines, entry)), "\n"@),
            None => message,
        },
        None => message,
    }
}

/// The place of the error, and the place of the header above it.
fn find_entry(header: &Vec<bool>, ark: &Vec<bool>) -> (r: (Option<usize>, Option<usize>))
    requires
        header@.len() == ark@.len(),
    ensures
        match r.0 {
            Some(i) => i < header@.len() && first_entry(header@, ark@, 0) == Some(i as int),
            None => first_entry(header@, ark@, 0) is None,
        },
        r.0 matches Some(i) ==> match r.1 {
            Some(h) => h < i && last_header(header@, i as int) == Some(h as int),
            None => last_header(header@, i as int) is None,
        },
{
    let n: usize = header.len();
    let mut last: Option<usize> = None;
    let mut i: usize = 0;
    while i < n
        invariant
            n == header@.len(),
            n == ark@.len(),
            i <= n,
            first_entry(header@, ark@, 0) == first_entry(header@, ark@, i as int),
            match last {
                Some(h) => h < i && last_header(header@, i as int) == Some(h as int),
                None => last_header(header@, i as int) is None,
            },
        decreases n - i,
    {
        if header[i] {
            last = Some(i);
        } else if ark[i] {
            return (Some(i), last);
        }
        i = i + 1;
    }
    (None, last)
}

/// The message with the place of the error above the header of the backtrace, if it has
/// both. It is told which lines are headers and which are entries of the kernel. The
/// entry must have a line after it.
pub fn annotate_lines(
    message: String,
    lines: Vec<String>,
    header: &Vec<bool>,
    ark: &Vec<bool>,
) -> (r: String)
    requires
        header@.len() == lines@.len(),
        ark@.len() == lines@.len(),
        first_entry(header@, ark@, 0) matches Some(i) ==> i + 1 < lines@.len(),
    ensures
        r@ == annotated(message@, text::texts(lines@), header@, ark@),
{
    let _count: usize = lines.len();
    let (entry, above) = find_entry(header, ark);
    match (entry, above) {
        (Some(i), Some(at)) => {
            let ghost all = text::texts(lines@);
            let mut insertion: String = "Occurred at:\n".to_owned();
            insertion.append(lines[i].as_str());
            insertion.append("\n");
            insertion.append(lines[i + 1].as_str());
            insertion.append("\n");
            let mut lines: Vec<String> = lines;
            let ghost inserted = insertion@;
            lines.insert(at, insertion);
            assert(text::texts(lines@) =~= all.insert(at as int, inserted));
            text::join(&lines, "\n")
        },
        _ => message,
    }
}

/// Which lines a pattern matches.
pub open spec fn marked(lines: Seq<Seq<char>>, pattern: Seq<char>) -> Seq<bool> {
    lines.map_values(|line: Seq<char>| regex_matches(pattern, line) == Some(true))
}

fn mark(lines: &Vec<String>, pattern: &str) -> (r: Vec<bool>)
    ensures
        r@ == marked(text::texts(lines@), pattern@),
{
    let mut r: Vec<bool> = Vec::new();
    let n: usize = lines.len();
    let mut i: usize = 0;
    while i < n
        invariant
            n == lines@.len(),
            i <= n,
            r@ == marked(text::texts(lines@), pattern@).take(i as int),
        decreases n - i,
    {
        let found: bool = match is_match(pattern, lines[i].as_str()) {
            Some(b) => b,
            None => false,
        };
        r.push(found);
        i = i + 1;
    }
    r
}

/// The entry of the kernel in the backtrace of a message.
pub open spec fn kernel_entry(message: Seq<char>) -> Option<int> {
    first_entry(
        marked(parted(message), BACKTRACE_HEADER@),
        marked(parted(message), ARK_BACKTRACE@),
        0,
    )
}

/// The message with the place of the error, if it has a backtrace with an entry of the
/// kernel.
pub open spec fn annotated_message(message: Seq<char>) -> Seq<char> {
    annotated(
        message,
        parted(message),
        marked(parted(message), BACKTRACE_HEADER@),
        marked(parted(message), ARK_BACKTRACE@),
    )
}

/// Adds the place of the error to a message, if it has a backtrace with an entry of the
/// kernel. The entry must have a line after it.
pub fn annotate(message: String) -> (r: String)
    requires
        kernel_entry(message@) matches Some(i) ==> i + 1 < parted(message@).len(),
    ensures
        r@ == annotated_message(message@),
{
    let lines: Vec<String> = part(message.as_str());
    let header: Vec<bool> = mark(&lines, BACKTRACE_HEADER);
    let ark: Vec<bool> = mark(&lines, ARK_BACKTRACE);
    annotate_lines(message, lines, &header, &ark)
}

/// Adds the place of the error to a message. None if the entry of the kernel is the last
/// line of the message, so that no line comes after it.
pub fn try_annotate(message: String) -> (r: Option<String>)
    ensures
        match kernel_entry(message@) {
            Some(i) => if i + 1 < parted(message@).len() {
                r is Some && r->0@ == annotated_message(message@)
            } else {
                r is None
            },
            None => r is Some && r->0@ == annotated_message(message@),
        },
{
    let lines: Vec<String> = part(message.as_str());
    let n: usize = lines.len();
    let header: Vec<bool> = mark(&lines, BACKTRACE_HEADER);
    let ark: Vec<bool> = mark(&lines, ARK_BACKTRACE);
    assert(parted(message@).len() == lines@.len());
    let (entry, _) = find_entry(&header, &ark);
    if let Some(i) = entry {
        if i + 1 >= n {
            return None;
        }
    }
    Some(annotate(message))
}

/// How much something matters, in order.
#[derive(Clone, Copy, Debug, PartialEq, Eq, Structural)]
pub enum Level {
    Error,
    Warn,
    Info,
    Debug,
    Trace,
}

/// Levels that matter less have higher numbers.
pub open spec fn rank(level: Level) -> int {
    match level {
        Level::Error => 1,
        Level::Warn => 2,
        Level::Info => 3,
        Level::Debug => 4,
        Level::Trace => 5,
    }
}

fn number(level: Level) -> (r: u8)
    ensures
        r == rank(level),
{
    match level {
        Level::Error => 1,
        Level::Warn => 2,
        Level::Info => 3,
        Level::Debug => 4,
        Level::Trace => 5,
    }
}

/// The name of a level, as it is logged.
pub open spec fn level_name(level: Level) -> Seq<char> {
    match level {
        Level::Error => "ERROR"@,
        Level::Warn => "WARN"@,
        Level::Info => "INFO"@,
        Level::Debug => "DEBUG"@,
        Level::Trace => "TRACE"@,
    }
}

/// The name of a level, as it is logged.
pub fn name_of(level: Level) -> (r: &'static str)
    ensures
        r@ == level_name(level),
{
    match level {
        Level::Error => "ERROR",
        Level::Warn => "WARN",
        Level::Info => "INFO",
        Level::Debug => "DEBUG",
        Level::Trace => "TRACE",
    }
}

/// Two texts that differ at most in the case of ASCII letters.
pub open spec fn same_but_case(a: Seq<char>, b: Seq<char>) -> bool {
    a.map_values(|c: char| text::ascii_lower(c)) == b.map_values(|c: char| text::ascii_lower(c))
}

/// `Level::from_str` of the crate `log`: the level that has the given name, whatever the
/// case of its ASCII letters, or `None` where the crate knows no level of that name.
#[verifier::external_body]
pub(crate) fn parse_level(s: &str) -> (r: Option<Level>)
    ensures
        match r {
            Some(level) => same_but_case(s@, level_name(level)),
            None => forall|level: Level| !same_but_case(s@, #[trigger] level_name(level)),
        },
{
    match <log::Level as std::str::FromStr>::from_str(s) {
        Ok(log::Level::Error) => Some(Level::Error),
        Ok(log::Level::Warn) => Some(Level::Warn),
        Ok(log::Level::Info) => Some(Level::Info),
        Ok(log::Level::Debug) => Some(Level::Debug),
        Ok(log::Level::Trace) => Some(Level::Trace),
        Err(_) => None,
    }
}

/// The level to log at, from what the environment asks for, and whether it asked for a
/// level that there is not. Without either it is that of information.
pub fn initial_level(asked: Option<&str>) -> (r: (Level, bool))
    ensures
        match asked {
            None => r.0 == Level::Info && !r.1,
            Some(name) => if r.1 {
                &&& r.0 == Level::Info
                &&& forall|level: Level| !same_but_case(name@, #[trigger] level_name(level))
            } else {
                same_but_case(name@, level_name(r.0))
            },
        },
{
    match asked {
        None => (Level::Info, false),
        Some(name) => match parse_level(name) {
            Some(level) => (level, false),
            None => (Level::Info, true),
        },
    }
}

/// Whether records of a level are logged.
pub fn enabled(level: Level, record: Level) -> (r: bool)
    ensures
        r == (rank(record) <= rank(level)),
{
    number(record) <= number(level)
}

/// The crates whose records are all of interest.
pub open spec fn internal_crate(name: Seq<char>) -> bool {
    name == "harp"@ || name == "ark"@ || name == "amalthea"@ || name == "stdext"@
}

/// Where a text first stands in another.
pub open spec fn first_at(s: Seq<char>, p: Seq<char>, i: int) -> bool {
    text::occurs_at(s, p, i) && forall|j: int| 0 <= j < i ==> !#[trigger] text::occurs_at(s, p, j)
}

/// A record comes from one of the kernel's own crates: what stands before the first `::`
/// of its target is one of them. A target without `::` was set by hand, and counts as
/// one.
pub open spec fn internal(target: Seq<char>) -> bool {
    forall|i: int| #[trigger] first_at(target, "::"@, i) ==> internal_crate(target.take(i))
}

/// Whether a record comes from one of the kernel's own crates.
pub fn is_internal(target: &str) -> (r: bool)
    ensures
        r == internal(target@),
{
    let v: Vec<char> = text::chars_of(target);
    let p: Vec<char> = text::chars_of("::");
    let n: usize = v.len();
    let mut i: usize = 0;
    proof {
        reveal_strlit("::");
    }
    while i < n
        invariant
            v@ == target@,
            p@ == "::"@,
            p@.len() == 2,
            n == v@.len(),
            i <= n,
            forall|j: int| 0 <= j < i ==> !#[trigger] text::occurs_at(target@, "::"@, j),
        decreases n - i,
    {
        if text::occurs(&v, &p, i) {
            let name: String = text::string_of_range(&v, 0, i);
            assert(name@ =~= target@.take(i as int));
            assert(first_at(target@, "::"@, i as int));
            assert forall|k: int| #[trigger] first_at(target@, "::"@, k) implies k == i by {
                if k < i {
                    assert(!text::occurs_at(target@, "::"@, k));
                } else if k > i {
                    assert(text::occurs_at(target@, "::"@, i as int));
                }
            }
            return text::same(name.as_str(), "harp") || text::same(name.as_str(), "ark")
                || text::same(name.as_str(), "amalthea") || text::same(name.as_str(), "stdext");
        }
        i = i + 1;
    }
    assert forall|k: int| #[trigger] first_at(target@, "::"@, k) implies internal_crate(
        target@.take(k),
    ) by {
        assert(!text::occurs_at(target@, "::"@, k));
    }
    true
}

/// A record is logged: its level is asked for, and it comes from one of the kernel's own
/// crates or is a warning or an error.
pub open spec fn of_interest(level: Level, target: Seq<char>, record: Level) -> bool {
    (internal(target) || rank(record) <= rank(Level::Warn)) && rank(record) <= rank(level)
}

/// Whether a record is logged. To keep the log quiet, of other crates only warnings and
/// errors are.
pub fn should_log(level: Level, target: &str, record: Level) -> (r: bool)
    ensures
        r == of_interest(level, target@, record),
{
    if !is_internal(target) && number(record) > number(Level::Warn) {
        return false;
    }
    enabled(level, record)
}

/// What stands before a message: the time, who logs, the level, and where in the source.
pub open spec fn prefix(
    timestamp: Seq<char>,
    level: Level,
    file: Option<Seq<char>>,
    line: Option<u32>,
) -> Seq<char> {
    timestamp + " [ark-unknown] "@ + level_name(level) + " "@ + (match file {
        Some(f) => f,
        None => "?"@,
    }) + ":"@ + text::decimal(
        match line {
            Some(l) => l as nat,
            None => 0,
        },
    )
}

/// A line of the log.
pub fn log_line(
    timestamp: &str,
    level: Level,
    file: Option<&str>,
    line: Option<u32>,
    message: &str,
) -> (r: String)
    ensures
        r@ == prefix(
            timestamp@,
            level,
            match file {
                Some(f) => Some(f@),
                None => None,
            },
            line,
        ) + ": "@ + message@,
{
    let mut r: String = timestamp.to_owned();
    r.append(" [ark-unknown] ");
    r.append(name_of(level));
    r.append(" ");
    match file {
        Some(f) => {
            r.append(f);
        },
        None => {
            r.append("?");
        },
    }
    r.append(":");
    let number: u64 = match line {
        Some(l) => l as u64,
        None => 0,
    };
    r.append(text::u64_text(number).as_str());
    r.append(": ");
    r.append(message);
    r
}

/// Where a line of the log goes.
#[derive(Clone, Copy, Debug, PartialEq, Eq, Structural)]
pub enum Sink {
    File,
    Stdout,
    Stderr,
}

/// Where a line of the log goes: to the file, if there is one, or else errors apart from
/// the rest.
pub fn sink(has_file: bool, level: Level) -> (r: Sink)
    ensures
        r == sink_of(has_file, level),
{
    if has_file {
        Sink::File
    } else if level == Level::Error {
        Sink::Stderr
    } else {
        Sink::Stdout
    }
}

/// The time a number of seconds and nanoseconds after the start of 1970 in UTC, written
/// to the nanosecond. `None` where the calendar does not reach.
pub uninterp spec fn time_text(seconds: i64, nanos: u32) -> Option<Seq<char>>;

/// `DateTime::from_timestamp` and `DateTime::to_rfc3339_opts` of the crate `chrono`: the
/// time in UTC as RFC 3339 writes it, with nanoseconds and a `Z`, or `None` where
/// `from_timestamp` refuses the time. Both depend on their arguments alone.
#[verifier::external_body]
pub(crate) fn format_time(seconds: i64, nanos: u32) -> (r: Option<String>)
    ensures
        text::opt_text(r) == time_text(seconds, nanos),
{
    chrono::DateTime::from_timestamp(seconds, nanos).map(
        |time| time.to_rfc3339_opts(chrono::SecondsFormat::Nanos, true),
    )
}

/// A record to log.
#[derive(Debug)]
pub struct Record {
    pub level: Level,
    pub target: String,
    pub file: Option<String>,
    pub line: Option<u32>,
    pub message: String,
}

/// The line of the log for a record, at a time after the start of 1970. None if the
/// record is not logged, or if its time cannot be written. A message whose entry of the
/// kernel is its last line stays as it is.
pub fn log(level: Level, record: &Record, seconds: i64, nanos: u32) -> (r: Option<String>)
    ensures
        is_logged(r, level, *record, time_text(seconds, nanos)),
{
    if !should_log(level, record.target.as_str(), record.level) {
        return None;
    }
    let timestamp: String = match format_time(seconds, nanos) {
        Some(t) => t,
        None => {
            return None;
        },
    };
    let message: String = match try_annotate(record.message.clone()) {
        Some(m) => m,
        None => record.message.clone(),
    };
    let file: Option<&str> = match &record.file {
        Some(f) => Some(f.as_str()),
        None => None,
    };
    Some(log_line(timestamp.as_str(), record.level, file, record.line, message.as_str()))
}

/// The message of a record, as it is logged.
pub open spec fn logged_message(message: Seq<char>) -> Seq<char> {
    match kernel_entry(message) {
        Some(i) => if i + 1 < parted(message).len() {
            annotated_message(message)
        } else {
            message
        },
        None => message,
    }
}

/// The line of the log for a record, at a time that may not be one that can be written.
pub open spec fn is_logged(
    r: Option<String>,
    level: Level,
    record: Record,
    time: Option<Seq<char>>,
) -> bool {
    match (of_interest(level, record.target@, record.level), time) {
        (true, Some(time)) => {
            &&& r is Some
            &&& r->0@ == prefix(time, record.level, text::opt_text(record.file), record.line)
                + ": "@ + logged_message(record.message@)
        },
        _ => r is None,
    }
}

/// Where a line of the log goes.
pub open spec fn sink_of(has_file: bool, level: Level) -> Sink {
    if has_file {
        Sink::File
    } else if level == Level::Error {
        Sink::Stderr
    } else {
        Sink::Stdout
    }
}

/// With a file, every line goes there. Without one, only errors go to standard error.
pub proof fn law_where_lines_go(level: Level)
    ensures
        sink_of(true, level) == Sink::File,
        sink_of(false, Level::Error) == Sink::Stderr,
        level != Level::Error ==> sink_of(false, level) == Sink::Stdout,
{
}

/// Every level brings all records of the levels before it, in the order error, warning,
/// information, debug and trace.
pub proof fn law_levels_in_order(target: Seq<char>, level: Level)
    requires
        internal(target),
    ensures
        of_interest(level, target, level),
        of_interest(Level::Warn, target, Level::Error),
        of_interest(Level::Info, target, Level::Warn),
        of_interest(Level::Debug, target, Level::Info),
        of_interest(Level::Trace, target, Level::Debug),
        !of_interest(Level::Error, target, Level::Warn),
        !of_interest(Level::Warn, target, Level::Info),
        !of_interest(Level::Info, target, Level::Debug),
        !of_interest(Level::Debug, target, Level::Trace),
        forall|a: Level, b: Level, c: Level|
            of_interest(a, target, b) && of_interest(b, target, c) ==> of_interest(a, target, c),
{
}

/// Of other crates only warnings and errors are logged, and only if they are asked for.
pub proof fn law_other_crates_are_quiet(target: Seq<char>, level: Level, record: Level)
    requires
        !internal(target),
    ensures
        of_interest(level, target, record) ==> record == Level::Error || record == Level::Warn,
        of_interest(level, target, Level::Error),
        of_interest(level, target, Level::Warn) <==> level != Level::Error,
{
}

/// The kernel's own crates are known by what stands before the first `::`.
pub proof fn law_crates_of_the_kernel(name: Seq<char>, rest: Seq<char>)
    requires
        !name.contains(':'),
    ensures
        internal(name + "::"@ + rest) <==> name == "harp"@ || name == "ark"@ || name
            == "amalthea"@ || name == "stdext"@,
        internal(name),
{
    reveal_strlit("::");
    let t = name + "::"@ + rest;
    let n = name.len() as int;
    assert(t.subrange(n, n + 2) =~= "::"@);
    assert forall|j: int| 0 <= j < n implies !#[trigger] text::occurs_at(t, "::"@, j) by {
        if text::occurs_at(t, "::"@, j) {
            assert(t.subrange(j, j + 2)[0] == ':');
            assert(name[j] == ':');
        }
    }
    assert(first_at(t, "::"@, n));
    assert(t.take(n) =~= name);
    assert forall|k: int| #[trigger] first_at(t, "::"@, k) implies k == n by {
        if k > n {
            assert(!text::occurs_at(t, "::"@, n));
        }
    }
    assert forall|k: int| #[trigger] first_at(name, "::"@, k) implies false by {
        assert(name.subrange(k, k + 2)[0] == ':');
        assert(name[k] == ':');
    }
}

/// A line of the log tells the time, the level, the place in the source and the message.
pub proof fn law_lines_of_the_log(
    r: Option<String>,
    level: Level,
    record: Record,
    time: Option<Seq<char>>,
)
    requires
        is_logged(r, level, record, time),
    ensures
        r is Some <==> of_interest(level, record.target@, record.level) && time is Some,
        r is Some ==> r->0@ == time->0 + " [ark-unknown] "@ + level_name(record.level) + " "@ + (
        match record.file {
            Some(f) => f@,
            None => "?"@,
        }) + ":"@ + text::decimal(
            match record.line {
                Some(l) => l as nat,
                None => 0,
            },
        ) + ": "@ + logged_message(record.message@),
{
}

/// The names of levels.
pub proof fn law_names_of_levels()
    ensures
        level_name(Level::Error) == "ERROR"@,
        level_name(Level::Warn) == "WARN"@,
        level_name(Level::Info) == "INFO"@,
        level_name(Level::Debug) == "DEBUG"@,
        level_name(Level::Trace) == "TRACE"@,
{
}

/// The lines of a message hold all of it, and no line feed.
pub proof fn law_messages_are_parted(s: Seq<char>)
    ensures
        parted(s).len() > 0,
        text::joined(parted(s), "\n"@) == s,
        forall|k: int| 0 <= k < parted(s).len() ==> !(#[trigger] parted(s)[k]).contains('\n'),
    decreases s.len(),
{
    reveal_strlit("\n");
    if s.len() > 0 {
        let t = s.drop_last();
        law_messages_are_parted(t);
        let before = parted(t);
        if s.last() == '\n' {
            assert(parted(s).drop_last() =~= before);
            assert(text::joined(parted(s), "\n"@) =~= t + "\n"@ + Seq::<char>::empty());
            assert(t + "\n"@ + Seq::<char>::empty() =~= s);
        } else {
            assert(parted(s).drop_last() =~= before.drop_last());
            assert(text::joined(parted(s), "\n"@) =~= text::joined(before, "\n"@).push(s.last()));
            assert(t.push(s.last()) =~= s);
            let longer = before.last().push(s.last());
            assert(!longer.contains('\n')) by {
                if longer.contains('\n') {
                    let k = choose|k: int| 0 <= k < longer.len() && longer[k] == '\n';
                    assert(before.last()[k] == '\n');
                    assert(before.last().contains('\n'));
                }
            }
        }
        assert forall|k: int| 0 <= k < parted(s).len() implies !(
        #[trigger] parted(s)[k]).contains('\n') by {
            if k < parted(s).len() - 1 {
                assert(parted(s)[k] == before[k]);
            }
        }
    } else {
        assert(text::joined(parted(s), "\n"@) == s);
    }
}

/// The first entry of the kernel is what stands first of all lines that are entries and no
/// headers, and the header above it is the nearest one.
pub proof fn law_place_of_an_error(
    message: Seq<char>,
    lines: Seq<Seq<char>>,
    header: Seq<bool>,
    ark: Seq<bool>,
    at: int,
    entry: int,
)
    requires
        header.len() == lines.len(),
        ark.len() == lines.len(),
        0 <= at < entry,
        entry + 1 < lines.len(),
        header[at],
        ark[entry],
        forall|i: int| at < i <= entry ==> !#[trigger] header[i],
        forall|i: int| 0 <= i < entry ==> header[i] || !#[trigger] ark[i],
    ensures
        annotated(message, lines, header, ark) == text::joined(
            lines.take(at) + seq![
                "Occurred at:\n"@ + lines[entry] + "\n"@ + lines[entry + 1] + "\n"@,
            ] + lines.skip(at),
            "\n"@,
        ),
{
    lemma_first_entry(header, ark, 0, entry);
    lemma_last_header(header, at, entry);
    let told = "Occurred at:\n"@ + lines[entry] + "\n"@ + lines[entry + 1] + "\n"@;
    assert(lines.insert(at, told) =~= lines.take(at) + seq![told] + lines.skip(at));
}

proof fn lemma_first_entry(header: Seq<bool>, ark: Seq<bool>, from: int, entry: int)
    requires
        0 <= from <= entry < header.len(),
        ark.len() == header.len(),
        ark[entry],
        !header[entry],
        forall|i: int| from <= i < entry ==> header[i] || !#[trigger] ark[i],
    ensures
        first_entry(header, ark, from) == Some(entry),
    decreases entry - from,
{
    if from < entry {
        assert(header[from] || !ark[from]);
        lemma_first_entry(header, ark, from + 1, entry);
    }
}

proof fn lemma_last_header(header: Seq<bool>, at: int, before: int)
    requires
        0 <= at < before <= header.len(),
        header[at],
        forall|i: int| at < i < before ==> !#[trigger] header[i],
    ensures
        last_header(header, before) == Some(at),
    decreases before,
{
    if at < before - 1 {
        lemma_last_header(header, at, before - 1);
    }
}

/// A message without an entry of the kernel, or without a header above it, stays as it is.
pub proof fn law_other_messages_stay(
    message: Seq<char>,
    lines: Seq<Seq<char>>,
    header: Seq<bool>,
    ark: Seq<bool>,
)
    requires
        header.len() == lines.len(),
        ark.len() == lines.len(),
        (forall|i: int| 0 <= i < lines.len() ==> header[i] || !#[trigger] ark[i]) || (forall|i: int|
            0 <= i < lines.len() ==> !#[trigger] header[i]),
    ensures
        annotated(message, lines, header, ark) == message,
{
    if forall|i: int| 0 <= i < lines.len() ==> header[i] || !#[trigger] ark[i] {
        lemma_no_entry(header, ark, 0);
    } else {
        if let Some(entry) = first_entry(header, ark, 0) {
            lemma_no_header(header, entry);
        }
    }
}

proof fn lemma_no_entry(header: Seq<bool>, ark: Seq<bool>, from: int)
    requires
        0 <= from,
        ark.len() == header.len(),
        forall|i: int| from <= i < header.len() ==> header[i] || !#[trigger] ark[i],
    ensures
        first_entry(header, ark, from) is None,
    decreases header.len() - from,
{
    if from < header.len() {
        assert(header[from] || !ark[from]);
        lemma_no_entry(header, ark, from + 1);
    }
}

proof fn lemma_no_header(header: Seq<bool>, before: int)
    requires
        forall|i: int| 0 <= i < header.len() ==> !#[trigger] header[i],
    ensures
        last_header(header, before) is None,
    decreases before,
{
    if 0 < before <= header.len() {
        lemma_no_header(header, before - 1);
    }
}

/// Headers of backtraces and entries of the kernel are told by these patterns.
pub proof fn law_patterns_of_backtraces(message: Seq<char>)
    ensures
        kernel_entry(message) == first_entry(
            marked(parted(message), "^\\s*Stack\\s+backtrace:?\\s*$"@),
            marked(parted(message), "^\\s*\\d+:\\s*[<]?ark::"@),
            0,
        ),
        annotated_message(message) == annotated(
            message,
            parted(message),
            marked(parted(message), "^\\s*Stack\\s+backtrace:?\\s*$"@),
            marked(parted(message), "^\\s*\\d+:\\s*[<]?ark::"@),
        ),
{
}

/// A message is logged as it is where nothing follows the entry of the kernel.
pub proof fn law_entries_need_a_line_after_them(message: Seq<char>)
    ensures
        kernel_entry(message) is None ==> logged_message(message) == message,
        kernel_entry(message) matches Some(i) ==> i + 1 >= parted(message).len() ==> logged_message(
            message,
        ) == message,
        kernel_entry(message) matches Some(i) ==> i + 1 < parted(message).len() ==> logged_message(
            message,
        ) == annotated_message(message),
{
}

} // verus!
