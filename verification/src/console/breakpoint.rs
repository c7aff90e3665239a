//! What a breakpoint does when R reaches it: whether R stops, and what is
//! printed.
use std::collections::hash_map::DefaultHasher;
use std::hash::{Hash, Hasher};

use vstd::prelude::*;
use vstd::std_specs::hash::DefaultHasherAdditionalSpecFns;

use crate::patterns;
use crate::text;
use crate::urls;

verus! {

/// A clickable label `filename#line`, with the line counted from one.
pub open spec fn label_text(
    filename: Option<Seq<char>>,
    uri: Seq<char>,
    line: nat,
) -> Seq<char> {
    let shown = text::decimal(line + 1);
    let name = match filename {
        Some(f) => f,
        None => "unknown"@,
    };
    "\x1b]8;line="@ + shown + ";"@ + uri + "\x07"@ + name + "#"@ + shown + "\x1b]8;;\x07"@
}

/// A clickable label for a line of the document `uri` whose file is called
/// `filename`.
pub fn label_of(filename: Option<&str>, uri: &str, line: u32) -> (r: String)
    requires
        line < u32::MAX,
    ensures
        r@ == label_text(
            match filename {
                Some(f) => Some(f@),
                None => None,
            },
            uri@,
            line as nat,
        ),
{
    let name: &str = match filename {
        Some(f) => f,
        None => "unknown",
    };
    let shown: String = text::u64_text((line + 1) as u64);
    let mut r: String = "\x1b]8;line=".to_owned();
    r.append(shown.as_str());
    r.append(";");
    r.append(uri);
    r.append("\x07");
    r.append(name);
    r.append("#");
    r.append(shown.as_str());
    r.append("\x1b]8;;\x07");
    r
}

/// The name of the file that a URI denotes: the last segment of its path.
pub open spec fn file_name(uri: Seq<char>) -> Option<Seq<char>> {
    match urls::url_path(uri) {
        Some(path) => urls::last_segment(path),
        None => None,
    }
}

/// A clickable label `filename#line` for breakpoint output.
pub fn breakpoint_label(uri: &str, line: u32) -> (r: String)
    requires
        line < u32::MAX,
    ensures
        r@ == label_text(file_name(uri@), uri@, line as nat),
{
    match urls::path_of(uri) {
        Some(path) => {
            let segment: Option<String> = urls::last_path_segment(path.as_str());
            match &segment {
                Some(name) => label_of(Some(name.as_str()), uri, line),
                None => label_of(None, uri, line),
            }
        },
        None => label_of(None, uri, line),
    }
}

/// `content` in a block of breakpoint output. Blank content gives no block.
pub open spec fn block_text(label: Seq<char>, content: Seq<char>) -> Option<Seq<char>> {
    if text::trimmed(content).len() == 0 {
        None
    } else {
        Some(
            "```breakpoint "@ + label + "\n"@ + content + (if content.last() == '\n' {
                Seq::empty()
            } else {
                seq!['\n']
            }) + "```\n"@,
        )
    }
}

fn ends_line(s: &str) -> (r: bool)
    ensures
        r == (s@.len() > 0 && s@.last() == '\n'),
{
    let v: Vec<char> = text::chars_of(s);
    v.len() > 0 && v[v.len() - 1] == '\n'
}

/// `content` in a block of breakpoint output, under `label`.
pub fn block_of(label: &str, content: &str) -> (r: Option<String>)
    ensures
        text::opt_text(r) == block_text(label@, content@),
{
    if text::trim(content).as_str().is_empty() {
        return None;
    }
    proof {
        if content@.len() == 0 {
            assert(text::trimmed(content@).len() == 0);
        }
    }
    let mut r: String = "```breakpoint ".to_owned();
    r.append(label);
    r.append("\n");
    r.append(content);
    if !ends_line(content) {
        r.push('\n');
    }
    let ghost body = "```breakpoint "@ + label@ + "\n"@ + content@;
    assert(r@ =~= body + (if content@.last() == '\n' {
        Seq::empty()
    } else {
        seq!['\n']
    }));
    r.append("```\n");
    Some(r)
}

/// The block of breakpoint output for a line of a document.
pub open spec fn breakpoint_block(uri: Seq<char>, line: nat, content: Seq<char>) -> Option<
    Seq<char>,
> {
    block_text(label_text(file_name(uri), uri, line), content)
}

/// The block of breakpoint output for a line of a document.
pub fn format_breakpoint_block(uri: &str, line: u32, content: &str) -> (r: Option<String>)
    requires
        line < u32::MAX,
    ensures
        text::opt_text(r) == breakpoint_block(uri@, line as nat, content@),
{
    let label: String = breakpoint_label(uri, line);
    block_of(label.as_str(), content)
}

/// The code that tells whether a condition holds. R's `if` fails on anything but
/// one logical value.
pub open spec fn condition_code(condition: Seq<char>) -> Seq<char> {
    "if ({ "@ + condition + " }) TRUE else FALSE"@
}

/// What evaluating a condition comes to: whether to break, and what to print.
/// A condition that fails breaks, so that a mistake in it is seen.
pub open spec fn condition_outcome(value: Result<bool, Seq<char>>) -> (bool, Option<Seq<char>>) {
    match value {
        Ok(v) => (v, None),
        Err(message) => (true, Some("Error: "@ + message + "\n"@)),
    }
}

/// What an evaluation gave, with the message of its error if it failed.
pub open spec fn evaluated<T>(value: Result<T, String>) -> Result<T, Seq<char>> {
    match value {
        Ok(v) => Ok(v),
        Err(message) => Err(message@),
    }
}

/// What evaluating a condition comes to.
pub fn eval_condition(value: Result<bool, String>) -> (r: (bool, Option<String>))
    ensures
        (r.0, text::opt_text(r.1)) == condition_outcome(evaluated(value)),
{
    match value {
        Ok(v) => (v, None),
        Err(message) => (true, Some(text::join3("Error: ", message.as_str(), "\n"))),
    }
}

/// What evaluating a log message comes to.
pub open spec fn log_outcome(value: Result<Seq<char>, Seq<char>>) -> Seq<char> {
    match value {
        Ok(text) => text,
        Err(message) => "Error: "@ + message,
    }
}

/// What evaluating a log message comes to: its text, or the error.
pub fn eval_log_message(value: Result<String, String>) -> (r: String)
    ensures
        r@ == log_outcome(
            match value {
                Ok(text) => Ok(text@),
                Err(message) => Err(message@),
            },
        ),
{
    match value {
        Ok(text) => text,
        Err(message) => text::join2("Error: ", message.as_str()),
    }
}

/// The rules of a breakpoint.
#[derive(Debug)]
pub struct BreakpointRules {
    /// An expression that has to hold for R to stop.
    pub condition: Option<String>,
    /// How often the breakpoint has to be reached for R to stop.
    pub hit_condition: Option<String>,
    /// A message that is printed in place of a stop.
    pub log_message: Option<String>,
}

/// A breakpoint that R has reached.
#[derive(Debug)]
pub struct Visit {
    pub uri: String,
    /// The line of the breakpoint, counted from zero.
    pub line: u32,
    pub rules: BreakpointRules,
    /// How often the breakpoint was reached with its condition met.
    pub hit_count: u64,
}

/// What to do next at a breakpoint.
#[derive(Debug)]
pub enum Next {
    /// It is decided whether R stops.
    Decided(bool),
    /// Evaluate this code.
    EvalCondition(String),
    /// Evaluate this template of a log message.
    EvalLogMessage(String),
}

/// What to do next at a breakpoint, over texts.
#[verifier::ext_equal]
pub enum NextModel {
    Decided(bool),
    EvalCondition(Seq<char>),
    EvalLogMessage(Seq<char>),
}

impl View for Next {
    type V = NextModel;

    open spec fn view(&self) -> NextModel {
        match self {
            Next::Decided(stop) => NextModel::Decided(*stop),
            Next::EvalCondition(code) => NextModel::EvalCondition(code@),
            Next::EvalLogMessage(template) => NextModel::EvalLogMessage(template@),
        }
    }
}

/// How often a breakpoint has to be reached, as its hit condition says it.
pub open spec fn threshold(rules: BreakpointRules) -> Option<Result<nat, text::IntError>> {
    match rules.hit_condition {
        Some(h) => Some(text::u64_value(text::trimmed(h@))),
        None => None,
    }
}

impl Visit {
    /// The condition of the breakpoint is met: the hits after it, what is
    /// printed, and what to do next.
    pub open spec fn met(self) -> (int, Option<Seq<char>>, NextModel) {
        let onward = match self.rules.log_message {
            Some(template) => NextModel::EvalLogMessage(template@),
            None => NextModel::Decided(true),
        };
        match threshold(self.rules) {
            Some(Ok(t)) => (
                self.hit_count + 1,
                None,
                if self.hit_count + 1 < t {
                    NextModel::Decided(false)
                } else {
                    onward
                },
            ),
            Some(Err(e)) => (
                self.hit_count as int,
                breakpoint_block(
                    self.uri@,
                    self.line as nat,
                    "Error: Expected a positive integer, "@ + e.spec_message(),
                ),
                onward,
            ),
            None => (self.hit_count as int, None, onward),
        }
    }

    /// What is printed of a condition: its code and what evaluating it printed,
    /// if it printed anything or failed.
    pub open spec fn condition_block(
        self,
        value: Result<bool, Seq<char>>,
        captured: Seq<char>,
    ) -> Option<Seq<char>> {
        let error = condition_outcome(value).1;
        if text::trimmed(captured).len() == 0 && error is None {
            None
        } else {
            breakpoint_block(
                self.uri@,
                self.line as nat,
                "Code: `"@ + self.rules.condition->0@ + "`\n"@ + captured + (match error {
                    Some(e) => e,
                    None => Seq::empty(),
                }),
            )
        }
    }

    /// Whether R stops at the breakpoint, or what has to be evaluated to tell.
    /// Returns what is printed and what to do next. A breakpoint that is not
    /// enabled does not stop R.
    pub fn ps_handle_breakpoint(&mut self, enabled: bool) -> (r: (Option<String>, Next))
        requires
            old(self).line < u32::MAX,
            old(self).hit_count < u64::MAX,
        ensures
            is_visited(text::opt_text(r.0), r.1@, *final(self), *old(self), enabled),
    {
        if !enabled {
            return (None, Next::Decided(false));
        }
        if let Some(condition) = &self.rules.condition {
            return (
                None,
                Next::EvalCondition(
                    text::join3("if ({ ", condition.as_str(), " }) TRUE else FALSE"),
                ),
            );
        }
        self.condition_met()
    }

    /// Goes on after the condition of the breakpoint was evaluated to `value`,
    /// with `captured` printed meanwhile. Returns the blocks to print and what to
    /// do next.
    pub fn after_condition(&mut self, value: Result<bool, String>, captured: &str) -> (r: (
        Option<String>,
        Option<String>,
        Next,
    ))
        requires
            old(self).line < u32::MAX,
            old(self).hit_count < u64::MAX,
            old(self).rules.condition is Some,
        ensures
            text::opt_text(r.0) == old(self).condition_block(evaluated(value), captured@),
            is_judged(text::opt_text(r.1), r.2@, *final(self), *old(self), evaluated(value)),
    {
        let ghost model = evaluated(value);
        let (should_break, error) = eval_condition(value);
        let mut block: Option<String> = None;
        if !text::trim(captured).as_str().is_empty() || error.is_some() {
            if let Some(condition) = &self.rules.condition {
                let mut output: String = text::join3("Code: `", condition.as_str(), "`\n");
                output.append(captured);
                if let Some(e) = &error {
                    output.append(e.as_str());
                }
                assert(output@ =~= "Code: `"@ + condition@ + "`\n"@ + captured@ + (match text::opt_text(
                    error,
                ) {
                    Some(e) => e,
                    None => Seq::empty(),
                }));
                block =
                format_breakpoint_block(self.uri.as_str(), self.line, output.as_str());
            }
        }
        if !should_break {
            return (block, None, Next::Decided(false));
        }
        let (message, next) = self.condition_met();
        (block, message, next)
    }

    fn condition_met(&mut self) -> (r: (Option<String>, Next))
        requires
            old(self).line < u32::MAX,
            old(self).hit_count < u64::MAX,
        ensures
            text::opt_text(r.0) == old(self).met().1,
            r.1@ == old(self).met().2,
            *final(self) == (Visit { hit_count: old(self).met().0 as u64, ..*old(self) }),
    {
        let mut block: Option<String> = None;
        let parsed: Option<Result<u64, text::IntError>> = match &self.rules.hit_condition {
            Some(h) => {
                let trimmed: String = text::trim(h.as_str());
                Some(text::parse_u64(trimmed.as_str()))
            },
            None => None,
        };
        match parsed {
            Some(Ok(least)) => {
                self.hit_count = self.hit_count + 1;
                if self.hit_count < least {
                    return (None, Next::Decided(false));
                }
            },
            Some(Err(e)) => {
                let content: String = text::join2(
                    "Error: Expected a positive integer, ",
                    e.message(),
                );
                block =
                format_breakpoint_block(self.uri.as_str(), self.line, content.as_str());
            },
            None => {},
        }
        match &self.rules.log_message {
            Some(template) => (block, Next::EvalLogMessage(template.clone())),
            None => (block, Next::Decided(true)),
        }
    }

    /// What is printed of a log message: what evaluating it printed and then its
    /// text, with a line feed at the end.
    pub open spec fn log_block(
        self,
        value: Result<Seq<char>, Seq<char>>,
        captured: Seq<char>,
    ) -> Option<Seq<char>> {
        let all = captured + log_outcome(value);
        breakpoint_block(
            self.uri@,
            self.line as nat,
            if all.len() > 0 && all.last() != '\n' {
                all.push('\n')
            } else {
                all
            },
        )
    }

    /// Goes on after the log message of the breakpoint was evaluated to `value`,
    /// with `captured` printed meanwhile. Returns the block to print. A breakpoint
    /// with a log message does not stop R.
    pub fn after_log_message(&self, value: Result<String, String>, captured: &str) -> (r: (
        Option<String>,
        Next,
    ))
        requires
            self.line < u32::MAX,
        ensures
            text::opt_text(r.0) == self.log_block(
                match value {
                    Ok(text) => Ok(text@),
                    Err(message) => Err(message@),
                },
                captured@,
            ),
            r.1@ == NextModel::Decided(false),
    {
        let output: String = eval_log_message(value);
        let mut all: String = text::join2(captured, output.as_str());
        if !all.as_str().is_empty() && !ends_line(all.as_str()) {
            all.push('\n');
        }
        (
            format_breakpoint_block(self.uri.as_str(), self.line, all.as_str()),
            Next::Decided(false),
        )
    }
}

/// A breakpoint with a log message never stops R once its condition is met, and
/// one without stops R as soon as it was reached often enough.
pub proof fn law_log_messages_do_not_stop(visit: Visit)
    ensures
        visit.rules.log_message is Some ==> visit.met().2 != NextModel::Decided(true),
        visit.rules.log_message is None ==> (visit.met().2 == NextModel::Decided(true) <==> !(
        threshold(visit.rules) matches Some(Ok(t)) && visit.hit_count + 1 < t)),
{
}

/// The pattern of the paths of debug sources.
pub open spec fn debug_path_pattern() -> Seq<char> {
    "^ark-\\d+/debug/"@
}

/// Whether a path, without the scheme `ark:`, is that of a debug source.
pub fn is_ark_debug_path(uri: &str) -> (r: bool)
    ensures
        r == (patterns::regex_matches(debug_path_pattern(), uri@) == Some(true)),
{
    match patterns::is_match("^ark-\\d+/debug/", uri) {
        Some(m) => m,
        None => false,
    }
}

/// The hexadecimal digit that stands for `d`.
pub open spec fn hex_char(d: nat) -> char {
    if d < 10 {
        text::digit_char(d)
    } else if d == 10 {
        'a'
    } else if d == 11 {
        'b'
    } else if d == 12 {
        'c'
    } else if d == 13 {
        'd'
    } else if d == 14 {
        'e'
    } else {
        'f'
    }
}

/// `n` in hexadecimal digits.
pub open spec fn hex(n: nat) -> Seq<char>
    decreases n,
{
    if n < 16 {
        seq![hex_char(n)]
    } else {
        hex(n / 16).push(hex_char(n % 16))
    }
}

fn hex_digit(d: u64) -> (c: char)
    requires
        d < 16,
    ensures
        c == hex_char(d as nat),
{
    match d {
        0 => '0',
        1 => '1',
        2 => '2',
        3 => '3',
        4 => '4',
        5 => '5',
        6 => '6',
        7 => '7',
        8 => '8',
        9 => '9',
        10 => 'a',
        11 => 'b',
        12 => 'c',
        13 => 'd',
        14 => 'e',
        _ => 'f',
    }
}

/// `n` in hexadecimal digits.
pub fn hex_text(n: u64) -> (s: String)
    ensures
        s@ == hex(n as nat),
    decreases n,
{
    if n < 16 {
        let mut s: String = String::new();
        s.push(hex_digit(n));
        assert(s@ =~= hex(n as nat));
        s
    } else {
        let mut s: String = hex_text(n / 16);
        s.push(hex_digit(n % 16));
        s
    }
}

/// `<str as Hash>::hash` feeds a text to a hasher. Nothing is claimed of what it writes.
#[verifier::external_body]
fn hash_text(source: &str, hasher: DefaultHasher) -> (r: DefaultHasher) {
    let mut hasher = hasher;
    source.hash(&mut hasher);
    hasher
}

/// A hasher that was fed with the source alone gave `hash`.
pub closed spec fn is_source_hash(source: &str, hash: u64) -> bool {
    exists|new: DefaultHasher, fed: DefaultHasher|
        new@ == Seq::<Seq<u8>>::empty() && #[trigger] call_ensures(hash_text, (source, new), fed)
            && hash == DefaultHasher::spec_finish(fed@)
}

/// A hash of a source, by which it is told apart from others.
fn source_hash(source: &str) -> (r: u64)
    ensures
        is_source_hash(source, r),
{
    let new: DefaultHasher = DefaultHasher::new();
    let ghost empty = new;
    let fed: DefaultHasher = hash_text(source, new);
    assert(call_ensures(hash_text, (source, empty), fed));
    fed.finish()
}

/// The path under which the source of a frame is shown.
pub open spec fn spec_debug_path(session_index: u32, hash: u64, name: Seq<char>) -> Seq<char> {
    "debug/session"@ + text::decimal(session_index as nat) + "/"@ + hex(hash as nat) + "/"@ + name
}

/// The path under which the source of a frame is shown, where `hash` is a hash of the
/// source.
pub fn debug_path(session_index: u32, hash: u64, source_name: &str) -> (r: String)
    ensures
        r@ == spec_debug_path(session_index, hash, source_name@),
{
    let mut r: String = "debug/session".to_owned();
    r.append(text::u64_text(session_index as u64).as_str());
    r.append("/");
    r.append(hex_text(hash).as_str());
    r.append("/");
    r.append(source_name);
    r
}

/// The path under which the source of a frame is shown: the session, a hash of
/// the source that tells apart sources of the same name, and the name. The scheme and
/// the process stand before it.
pub fn ark_debug_uri(session_index: u32, source_name: &str, source: &str) -> (r: String)
    ensures
        exists|hash: u64|
            is_source_hash(source, hash) && r@ == #[trigger] spec_debug_path(
                session_index,
                hash,
                source_name@,
            ),
{
    debug_path(session_index, source_hash(source), source_name)
}

/// A condition decides as it evaluates, and one that fails stops R and says why.
pub proof fn law_conditions_decide(holds: bool, message: Seq<char>)
    ensures
        condition_outcome(Ok(holds)) == (holds, None::<Seq<char>>),
        condition_outcome(Err(message)) == (true, Some("Error: "@ + message + "\n"@)),
        condition_code(message) == "if ({ "@ + message + " }) TRUE else FALSE"@,
{
}

/// A breakpoint with a hit condition stops R from the visit on that the number in it
/// names, and counts the visits. One without stops R at every visit and counts none.
pub proof fn law_hit_conditions_count(visit: Visit, n: nat)
    requires
        n <= u64::MAX,
        visit.rules.log_message is None,
    ensures
        visit.rules.hit_condition is None ==> visit.met() == (
            visit.hit_count as int,
            None::<Seq<char>>,
            NextModel::Decided(true),
        ),
        visit.rules.hit_condition matches Some(h) && h@ == text::decimal(n) ==> visit.met() == (
            visit.hit_count + 1,
            None::<Seq<char>>,
            NextModel::Decided(visit.hit_count + 1 >= n),
        ),
{
    text::law_numbers_read_back(n);
    let d = text::decimal(n);
    if visit.rules.hit_condition is Some && visit.rules.hit_condition->0@ == d {
        assert(!text::is_white_space(d[0]));
        assert(!text::is_white_space(d.last()));
        assert(text::trimmed(d) == d);
    }
}

/// A breakpoint with a log message prints it once it was reached often enough, and does
/// not stop R.
pub proof fn law_log_messages_are_printed(visit: Visit, template: String)
    requires
        visit.rules.log_message == Some(template),
        visit.rules.hit_condition is None,
    ensures
        visit.met().2 == NextModel::EvalLogMessage(template@),
        visit.met().1 is None,
        log_outcome(Ok(template@)) == template@,
        log_outcome(Err(template@)) == "Error: "@ + template@,
{
}

/// What a breakpoint prints stands in a block that names the file and the line, which
/// counts from one. Nothing but blanks is not printed.
pub proof fn law_blocks_name_the_place(
    name: Seq<char>,
    uri: Seq<char>,
    line: nat,
    label: Seq<char>,
    content: Seq<char>,
)
    ensures
        label_text(Some(name), uri, line) == "\x1b]8;line="@ + text::decimal(line + 1) + ";"@ + uri
            + "\x07"@ + name + "#"@ + text::decimal(line + 1) + "\x1b]8;;\x07"@,
        label_text(None, uri, line) == label_text(Some("unknown"@), uri, line),
        text::trimmed(content).len() == 0 ==> block_text(label, content) is None,
        text::trimmed(content).len() > 0 && content.len() > 0 && content.last() == '\n'
            ==> block_text(label, content) == Some(
            "```breakpoint "@ + label + "\n"@ + content + "```\n"@,
        ),
        text::trimmed(content).len() > 0 && content.len() > 0 && content.last() != '\n'
            ==> block_text(label, content) == Some(
            "```breakpoint "@ + label + "\n"@ + content + seq!['\n'] + "```\n"@,
        ),
{
    let head = "```breakpoint "@ + label + "\n"@ + content;
    assert(head + Seq::<char>::empty() =~= head);
}

/// Numbers are written in digits of base sixteen, from the highest to the lowest.
pub proof fn law_digits_of_base_sixteen(n: nat, d: nat)
    requires
        d < 16,
    ensures
        hex(d).len() == 1,
        d < 10 ==> hex(d)[0] as nat == '0' as nat + d,
        d >= 10 ==> hex(d)[0] as nat == 'a' as nat + (d - 10),
        n > 0 ==> hex(n * 16 + d) == hex(n) + hex(d),
{
    if n > 0 {
        let m = n * 16 + d;
        assert(m / 16 == n && m % 16 == d) by (nonlinear_arith)
            requires
                m == n * 16 + d,
                0 <= d < 16,
        ;
        assert(hex(m) =~= hex(n) + hex(d));
    }
}

/// The path of a source holds the session, a hash of the source and its name, in this
/// order.
pub proof fn law_paths_of_sources(session: u32, hash: u64, name: Seq<char>)
    ensures
        spec_debug_path(session, hash, name) == "debug/session"@ + text::decimal(session as nat)
            + "/"@ + hex(hash as nat) + "/"@ + name,
{
}

/// What a visit of a breakpoint prints, and what comes next.
pub open spec fn is_visited(
    printed: Option<Seq<char>>,
    next: NextModel,
    new: Visit,
    old: Visit,
    enabled: bool,
) -> bool {
    let met = old.met();
    if !enabled {
        printed is None && next == NextModel::Decided(false) && new == old
    } else {
        match old.rules.condition {
            Some(condition) => printed is None && next == NextModel::EvalCondition(
                condition_code(condition@),
            ) && new == old,
            None => printed == met.1 && next == met.2 && new == (Visit {
                hit_count: met.0 as u64,
                ..old
            }),
        }
    }
}

/// What is printed once the condition of a breakpoint was evaluated, and what comes next.
pub open spec fn is_judged(
    printed: Option<Seq<char>>,
    next: NextModel,
    new: Visit,
    old: Visit,
    value: Result<bool, Seq<char>>,
) -> bool {
    let met = old.met();
    if condition_outcome(value).0 {
        printed == met.1 && next == met.2 && new == (Visit { hit_count: met.0 as u64, ..old })
    } else {
        printed is None && next == NextModel::Decided(false) && new == old
    }
}

/// A breakpoint that is not enabled is passed over. A condition is evaluated before anything
/// else, and without one the breakpoint is reached.
pub proof fn law_visits(
    printed: Option<Seq<char>>,
    next: NextModel,
    new: Visit,
    old: Visit,
    enabled: bool,
)
    requires
        is_visited(printed, next, new, old, enabled),
    ensures
        !enabled ==> printed is None && next == NextModel::Decided(false) && new == old,
        enabled && old.rules.condition is Some ==> printed is None && new == old && next
            == NextModel::EvalCondition(
            "if ({ "@ + old.rules.condition->0@ + " }) TRUE else FALSE"@,
        ),
        enabled && old.rules.condition is None ==> printed == old.met().1 && next == old.met().2
            && new.hit_count == old.met().0 as u64,
{
}

/// R goes past a breakpoint whose condition does not hold, and reaches one whose condition
/// holds or fails.
pub proof fn law_judged_conditions(
    printed: Option<Seq<char>>,
    next: NextModel,
    new: Visit,
    old: Visit,
    why: Seq<char>,
)
    ensures
        is_judged(printed, next, new, old, Ok(false)) ==> printed is None && next
            == NextModel::Decided(false) && new == old,
        is_judged(printed, next, new, old, Ok(true)) ==> printed == old.met().1 && next
            == old.met().2 && new.hit_count == old.met().0 as u64,
        is_judged(printed, next, new, old, Err(why)) ==> printed == old.met().1 && next
            == old.met().2 && new.hit_count == old.met().0 as u64,
{
}

/// A condition that printed something or failed is shown with its code, with what it printed
/// and with its error. Any other is not shown.
pub proof fn law_shown_conditions(visit: Visit, code: String, captured: Seq<char>, why: Seq<char>)
    requires
        visit.rules.condition == Some(code),
    ensures
        text::trimmed(captured).len() == 0 ==> visit.condition_block(Ok(true), captured) is None
            && visit.condition_block(Ok(false), captured) is None,
        text::trimmed(captured).len() > 0 ==> visit.condition_block(Ok(true), captured)
            == block_text(
            label_text(file_name(visit.uri@), visit.uri@, visit.line as nat),
            "Code: `"@ + code@ + "`\n"@ + captured,
        ),
        visit.condition_block(Err(why), captured) == block_text(
            label_text(file_name(visit.uri@), visit.uri@, visit.line as nat),
            "Code: `"@ + code@ + "`\n"@ + captured + condition_outcome(Err(why)).1->0,
        ),
{
    let head = "Code: `"@ + code@ + "`\n"@ + captured;
    assert(head + Seq::<char>::empty() =~= head);
}

/// A log message is shown after what evaluating it printed, on a line that ends.
pub proof fn law_shown_log_messages(visit: Visit, message: Seq<char>, captured: Seq<char>)
    ensures
        message.len() > 0 && message.last() != '\n' ==> visit.log_block(Ok(message), captured)
            == block_text(
            label_text(file_name(visit.uri@), visit.uri@, visit.line as nat),
            captured + message + seq!['\n'],
        ),
        message.len() > 0 && message.last() == '\n' ==> visit.log_block(Ok(message), captured)
            == block_text(
            label_text(file_name(visit.uri@), visit.uri@, visit.line as nat),
            captured + message,
        ),
        visit.log_block(Err(message), captured) == visit.log_block(
            Ok("Error: "@ + message),
            captured,
        ),
{
    assert((captured + message).push('\n') =~= captured + message + seq!['\n']);
}

/// The paths of debug sources start with the process.
pub proof fn law_pattern_of_debug_sources()
    ensures
        debug_path_pattern() == "^ark-\\d+/debug/"@,
{
}

} // verus!
