//! Filter for debug console output.
//!
//! R's debug handler emits messages such as `debug at file.R#10: ` followed by
//! the expression about to be evaluated, and then always reads from the console,
//! with no user code run in between. Everything between a debug prefix at the
//! start of a line and the next read is held back, and the read decides whether
//! it is dropped or emitted.
use vstd::prelude::*;

use vstd::utf8::encode_utf8;

use crate::text;

verus! {

/// An instant of the machine's monotonic clock.
#[verifier::external_type_specification]
#[verifier::external_body]
pub struct ExInstant(std::time::Instant);

/// `Instant::now` reads the clock. Nothing is claimed of what it returns.
#[verifier::external_body]
fn now() -> (r: std::time::Instant) {
    std::time::Instant::now()
}

/// `Instant::elapsed` tells the time since an instant, here in nanoseconds.
/// Nothing is claimed of what it returns.
#[verifier::external_body]
fn elapsed_nanos(since: &std::time::Instant) -> (r: u128) {
    since.elapsed().as_nanos()
}

/// The clock gave `at` when it was read.
pub closed spec fn is_now(at: std::time::Instant) -> bool {
    call_ensures(now, (), at)
}

/// The clock told that `elapsed` nanoseconds had passed since `at` when it was read.
pub closed spec fn is_elapsed(at: std::time::Instant, elapsed: u128) -> bool {
    call_ensures(elapsed_nanos, (&at,), elapsed)
}

/// How long held back output waits for a read of the console.
pub const TIMEOUT_MILLIS: u64 = 50;

/// Patterns to filter from console output.
/// Each pattern is matched at a line boundary.
#[derive(Clone, Copy, Debug, PartialEq, Eq, Structural)]
pub enum MatchedPattern {
    /// `Called from: <expr>`, emitted by `browser()` before entering debug mode.
    CalledFrom,
    /// `debug at <path>#<line>: <expr>`, emitted when stepping with srcrefs.
    DebugAt,
    /// `debug: <expr>`, emitted when stepping without srcrefs.
    Debug,
}

impl MatchedPattern {
    /// The text with which a message of this pattern starts.
    pub open spec fn spec_prefix(self) -> Seq<char> {
        match self {
            MatchedPattern::CalledFrom => "Called from: "@,
            MatchedPattern::DebugAt => "debug at "@,
            MatchedPattern::Debug => "debug: "@,
        }
    }

    /// The text with which a message of this pattern starts.
    pub fn prefix(&self) -> (r: &'static str)
        ensures
            r@ == self.spec_prefix(),
    {
        match self {
            MatchedPattern::CalledFrom => "Called from: ",
            MatchedPattern::DebugAt => "debug at ",
            MatchedPattern::Debug => "debug: ",
        }
    }

    /// All patterns.
    pub fn all() -> (r: Vec<MatchedPattern>)
        ensures
            r@ == seq![
                MatchedPattern::CalledFrom,
                MatchedPattern::DebugAt,
                MatchedPattern::Debug,
            ],
    {
        vec![MatchedPattern::CalledFrom, MatchedPattern::DebugAt, MatchedPattern::Debug]
    }
}

/// No prefix is a prefix of another, and none is empty or holds a line feed.
pub proof fn law_prefixes_apart(a: MatchedPattern, b: MatchedPattern)
    ensures
        a != b ==> !a.spec_prefix().is_prefix_of(b.spec_prefix()),
        a.spec_prefix().len() > 0,
        !a.spec_prefix().contains('\n'),
{
    reveal_strlit("Called from: ");
    reveal_strlit("debug at ");
    reveal_strlit("debug: ");
    let p = a.spec_prefix();
    let q = b.spec_prefix();
    if a != b && p.is_prefix_of(q) {
        assert(p[0] == q[0]);
        assert(p[5] == q[5]);
    }
}

/// The pattern whose prefix starts `content`.
pub open spec fn matched(content: Seq<char>) -> Option<MatchedPattern> {
    if MatchedPattern::CalledFrom.spec_prefix().is_prefix_of(content) {
        Some(MatchedPattern::CalledFrom)
    } else if MatchedPattern::DebugAt.spec_prefix().is_prefix_of(content) {
        Some(MatchedPattern::DebugAt)
    } else if MatchedPattern::Debug.spec_prefix().is_prefix_of(content) {
        Some(MatchedPattern::Debug)
    } else {
        None
    }
}

/// The pattern whose prefix starts `content`.
pub fn try_match_prefix(content: &str) -> (r: Option<MatchedPattern>)
    ensures
        r == matched(content@),
{
    let all: Vec<MatchedPattern> = MatchedPattern::all();
    if text::starts_with(content, all[0].prefix()) {
        return Some(all[0]);
    }
    if text::starts_with(content, all[1].prefix()) {
        return Some(all[1]);
    }
    if text::starts_with(content, all[2].prefix()) {
        return Some(all[2]);
    }
    None
}

/// A pattern is told by its prefix: exactly the content that starts with the
/// prefix of a pattern is matched with it.
pub proof fn law_matched_iff_prefix(content: Seq<char>, pattern: MatchedPattern)
    ensures
        matched(content) == Some(pattern) <==> pattern.spec_prefix().is_prefix_of(content),
{
    let p = pattern.spec_prefix();
    if p.is_prefix_of(content) {
        let other = matched(content)->0;
        let q = other.spec_prefix();
        assert(q.is_prefix_of(content));
        if other != pattern {
            law_prefixes_apart(pattern, other);
            law_prefixes_apart(other, pattern);
            if p.len() <= q.len() {
                assert(p =~= q.subrange(0, p.len() as int));
            } else {
                assert(q =~= p.subrange(0, q.len() as int));
            }
        }
    }
}

/// What debug message a captured text came from.
#[derive(Clone, Copy, Debug, PartialEq, Eq, Structural)]
pub enum DebugCallTextKind {
    Debug,
    DebugAt,
}

/// Update to apply to the console's debug call text.
#[derive(Debug)]
pub enum DebugCallTextUpdate {
    /// Set to finalized with the given text and kind.
    Finalized(String, DebugCallTextKind),
}

/// The state of the filter.
enum ConsoleFilterState {
    /// Content is emitted immediately.
    Passthrough {
        /// Whether the last character emitted was a line feed.
        at_line_start: bool,
    },
    /// A prefix was matched. All content is held back until a read of the
    /// console tells whether it is debug output.
    Filtering {
        /// The messages held back before the last prefix, with their prefixes.
        earlier: String,
        /// The last prefix.
        pattern: MatchedPattern,
        /// What followed the last prefix.
        buffer: String,
        /// When the first prefix was matched.
        timestamp: std::time::Instant,
        /// Whether the console was in a debug session when the first prefix was
        /// matched.
        was_debugging: bool,
    },
}

/// Filter for debug console output.
pub struct ConsoleFilter {
    state: ConsoleFilterState,
    timeout_millis: u64,
    is_debugging: bool,
    suppress: bool,
}

/// What the state of the filter stands for.
#[verifier::ext_equal]
pub enum StateModel {
    Passthrough { at_line_start: bool },
    Filtering {
        earlier: Seq<char>,
        pattern: MatchedPattern,
        buffer: Seq<char>,
        timestamp: std::time::Instant,
        was_debugging: bool,
    },
}

/// What the clock says at a step: the instant, and the nanoseconds that passed since
/// the first prefix of the held back output was matched.
pub struct Reading {
    pub at: std::time::Instant,
    pub elapsed: u128,
}

/// What the filter stands for.
#[verifier::ext_equal]
pub struct FilterModel {
    pub state: StateModel,
    pub timeout_millis: int,
    pub is_debugging: bool,
    pub suppress: bool,
}

/// `s` ends with a line feed.
pub open spec fn ends_line(s: Seq<char>) -> bool {
    s.len() > 0 && s.last() == '\n'
}

impl FilterModel {
    /// The text that is held back.
    pub open spec fn pending(self) -> Seq<char> {
        match self.state {
            StateModel::Passthrough { .. } => Seq::empty(),
            StateModel::Filtering { earlier, pattern, buffer, .. } => earlier
                + pattern.spec_prefix() + buffer,
        }
    }

    /// Held back output has waited for longer than it may.
    pub open spec fn expired(self, elapsed: u128) -> bool {
        self.state is Filtering && elapsed > self.timeout_millis * 1_000_000
    }

    /// The same filter in another state.
    pub open spec fn with(self, state: StateModel) -> FilterModel {
        FilterModel { state, ..self }
    }

    /// What is left after everything held back was handed out. A filter that holds
    /// nothing back stays as it is.
    pub open spec fn drained(self) -> FilterModel {
        match self.state {
            StateModel::Passthrough { .. } => self,
            StateModel::Filtering { .. } => self.with(
                StateModel::Passthrough { at_line_start: ends_line(self.pending()) },
            ),
        }
    }

    /// Content is taken up to and with the first line feed, or else whole.
    pub open spec fn line_len(content: Seq<char>) -> int {
        if content.contains('\n') {
            content.index_of_first('\n')->0 + 1
        } else {
            content.len() as int
        }
    }

    /// A prefix starts `content` and nothing is held back, so that the clock is read.
    pub open spec fn begins(self, content: Seq<char>) -> bool {
        self.state == (StateModel::Passthrough { at_line_start: true }) && matched(content) is Some
    }

    /// One step on `content`: the next filter, what is emitted, and how many characters
    /// are consumed. A prefix within held back output starts a message of its own, and
    /// all that came before it stays held back.
    pub open spec fn step(self, content: Seq<char>, clock: Reading) -> (
        FilterModel,
        Option<Seq<char>>,
        int,
    ) {
        match self.state {
            StateModel::Passthrough { at_line_start } => if self.begins(content) {
                let pattern = matched(content)->0;
                (
                    self.with(
                        StateModel::Filtering {
                            earlier: Seq::empty(),
                            pattern,
                            buffer: Seq::empty(),
                            timestamp: clock.at,
                            was_debugging: self.is_debugging,
                        },
                    ),
                    None,
                    pattern.spec_prefix().len() as int,
                )
            } else {
                let n = Self::line_len(content);
                (
                    self.with(
                        StateModel::Passthrough { at_line_start: ends_line(content.take(n)) },
                    ),
                    Some(content.take(n)),
                    n,
                )
            },
            StateModel::Filtering { earlier, pattern, buffer, timestamp, was_debugging } =>
                if self.expired(clock.elapsed) {
                (self.drained(), Some(self.pending()), 0)
            } else if (buffer.len() == 0 || ends_line(buffer)) && matched(content) is Some {
                let nested = matched(content)->0;
                (
                    self.with(
                        StateModel::Filtering {
                            earlier: self.pending(),
                            pattern: nested,
                            buffer: Seq::empty(),
                            timestamp,
                            was_debugging,
                        },
                    ),
                    None,
                    nested.spec_prefix().len() as int,
                )
            } else {
                (
                    self.with(
                        StateModel::Filtering {
                            earlier,
                            pattern,
                            buffer: buffer + content,
                            timestamp,
                            was_debugging,
                        },
                    ),
                    None,
                    content.len() as int,
                )
            },
        }
    }

    /// The clock gave `clock` in this step, as far as the step reads it: the instant
    /// where a prefix is matched, and the time since the first prefix was matched where
    /// output is held back.
    pub open spec fn timed(self, content: Seq<char>, clock: Reading) -> bool {
        &&& self.begins(content) ==> is_now(clock.at)
        &&& self.waited(clock.elapsed)
    }

    /// The clock told `elapsed` of the time since the first prefix of the held back
    /// output was matched.
    pub open spec fn waited(self, elapsed: u128) -> bool {
        self.state matches StateModel::Filtering { timestamp, .. } ==> is_elapsed(
            timestamp,
            elapsed,
        )
    }

    /// All steps on `content`, with what the clock says at each: the last filter
    /// and everything emitted.
    pub open spec fn run(self, content: Seq<char>, clock: Seq<Reading>) -> (
        FilterModel,
        Seq<Seq<char>>,
    )
        decreases content.len(), (if self.state is Filtering { 1int } else { 0int }),
    {
        if content.len() == 0 {
            (self, Seq::empty())
        } else {
            let (next, emit, used) = self.step(content, clock[0]);
            if 0 < used <= content.len() || (used == 0 && self.state is Filtering
                && next.state is Passthrough) {
                let rest = next.run(content.skip(used), clock.drop_first());
                (
                    rest.0,
                    (match emit {
                        Some(e) => seq![e],
                        None => Seq::empty(),
                    }) + rest.1,
                )
            } else {
                (self, Seq::empty())
            }
        }
    }

    /// There is one reading of the clock for each step on `content`, and the clock gave
    /// each of them in its step.
    pub open spec fn run_timed(self, content: Seq<char>, clock: Seq<Reading>) -> bool
        decreases content.len(), (if self.state is Filtering { 1int } else { 0int }),
    {
        if content.len() == 0 {
            clock.len() == 0
        } else {
            let (next, emit, used) = self.step(content, clock[0]);
            &&& clock.len() > 0
            &&& self.timed(content, clock[0])
            &&& if 0 < used <= content.len() || (used == 0 && self.state is Filtering
                && next.state is Passthrough) {
                next.run_timed(content.skip(used), clock.drop_first())
            } else {
                clock.len() == 1
            }
        }
    }

    /// What feeding `content` does, where the clock first told `elapsed`, and then the
    /// readings in `clock`: output that has waited for too long is handed out first.
    pub open spec fn fed(self, content: Seq<char>, elapsed: u128, clock: Seq<Reading>) -> (
        FilterModel,
        Seq<Seq<char>>,
    ) {
        if self.expired(elapsed) {
            let rest = self.drained().run(content, clock);
            (rest.0, seq![self.pending()] + rest.1)
        } else {
            self.run(content, clock)
        }
    }

    /// The clock gave the readings with which `content` is fed.
    pub open spec fn fed_timed(
        self,
        content: Seq<char>,
        elapsed: u128,
        clock: Seq<Reading>,
    ) -> bool {
        &&& self.waited(elapsed)
        &&& if self.expired(elapsed) {
            self.drained().run_timed(content, clock)
        } else {
            self.run_timed(content, clock)
        }
    }

    /// From here on `content` the run comes to `now` after everything in `emitted`, with
    /// `rest` and the readings in `more` still to come.
    pub open spec fn goes_on(
        self,
        content: Seq<char>,
        clock: Seq<Reading>,
        now: FilterModel,
        rest: Seq<char>,
        more: Seq<Reading>,
        emitted: Seq<Seq<char>>,
    ) -> bool {
        &&& self.run(content, clock) == (now.run(rest, more).0, emitted + now.run(rest, more).1)
        &&& self.run_timed(content, clock) == now.run_timed(rest, more)
    }

    /// Held back output is confirmed as debug output at a read of the console.
    pub open spec fn confirmed(self, is_browser: bool) -> bool {
        match self.state {
            StateModel::Passthrough { .. } => false,
            StateModel::Filtering { was_debugging, .. } => was_debugging || is_browser,
        }
    }
}

/// A colon and a blank stand at `i`, after a hash sign and digits.
pub open spec fn marker_at(s: Seq<char>, i: int) -> bool {
    &&& 0 < i
    &&& i + 1 < s.len()
    &&& s[i] == ':'
    &&& s[i + 1] == ' '
    &&& exists|h: int| #[trigger] hash_run(s, h, i)
}

/// A hash sign stands at `h`, and only digits between it and `i`.
pub open spec fn hash_run(s: Seq<char>, h: int, i: int) -> bool {
    &&& 0 <= h < i <= s.len()
    &&& s[h] == '#'
    &&& forall|k: int| h < k < i ==> '0' <= #[trigger] s[k] <= '9'
}

/// The first marker at or after `from`.
pub open spec fn first_marker(s: Seq<char>, from: int) -> Option<int>
    decreases s.len() - from,
{
    if from < 0 || from >= s.len() {
        None
    } else if marker_at(s, from) {
        Some(from)
    } else {
        first_marker(s, from + 1)
    }
}

/// The expression of a `debug at` message: what follows `#<line>: `.
pub open spec fn debug_at_expression(s: Seq<char>) -> Seq<char> {
    match first_marker(s, 0) {
        Some(i) => s.skip(i + 2),
        None => Seq::empty(),
    }
}

/// Finds the start of the expression in what follows `debug at `, that is in
/// `<path>#<line>: <expr>`, as an offset in bytes.
pub fn find_debug_at_expression_start(buffer: &str) -> (r: Option<usize>)
    ensures
        match first_marker(buffer@, 0) {
            Some(i) => r matches Some(n) && n == encode_utf8(buffer@.take(i + 2)).len(),
            None => r is None,
        },
{
    match expression_start(buffer) {
        Some(p) => {
            let v: Vec<char> = text::chars_of(buffer);
            let before: String = text::string_of_range(&v, 0, p);
            assert(before@ =~= buffer@.take(p as int));
            Some(text::byte_len(before.as_str()))
        },
        None => None,
    }
}

/// The start of the expression in what follows `debug at `, as an offset in
/// characters.
fn expression_start(buffer: &str) -> (r: Option<usize>)
    ensures
        match r {
            Some(p) => p >= 2 && p <= buffer@.len() && first_marker(buffer@, 0) == Some(p - 2),
            None => first_marker(buffer@, 0) is None,
        },
{
    let v: Vec<char> = text::chars_of(buffer);
    let n: usize = v.len();
    let mut in_digits: bool = false;
    let mut i: usize = 0;
    let ghost mut hash: int = 0;
    while i < n
        invariant
            v@ == buffer@,
            n == v@.len(),
            i <= n,
            first_marker(buffer@, 0) == first_marker(buffer@, i as int),
            in_digits ==> hash_run(buffer@, hash, i as int),
            !in_digits ==> forall|h: int| !#[trigger] hash_run(buffer@, h, i as int),
        decreases n - i,
    {
        let c: char = v[i];
        proof {
            // A run that reaches past `i` either starts at `i` or reaches `i`
            // and goes on over a digit.
            assert forall|h: int| #[trigger] hash_run(buffer@, h, i + 1) implies (h == i && c
                == '#') || (hash_run(buffer@, h, i as int) && '0' <= c <= '9') by {
                if h < i {
                    assert('0' <= buffer@[i as int] <= '9');
                }
            }
        }
        if c == '#' {
            in_digits = true;
            proof {
                hash = i as int;
            }
        } else if in_digits {
            if '0' <= c && c <= '9' {
            } else if c == ':' {
                if i + 1 < n && v[i + 1] == ' ' {
                    assert(marker_at(buffer@, i as int));
                    return Some(i + 2);
                }
                in_digits = false;
            } else {
                in_digits = false;
            }
        }
        i = i + 1;
    }
    None
}

/// The text of a `debug at` message.
pub fn extract_debug_at_update(after_prefix: &str) -> (r: DebugCallTextUpdate)
    ensures
        r->Finalized_0@ == debug_at_expression(after_prefix@),
        r->Finalized_1 == DebugCallTextKind::DebugAt,
{
    let expr: String = match expression_start(after_prefix) {
        Some(start) => {
            let v: Vec<char> = text::chars_of(after_prefix);
            let r: String = text::string_of_range(&v, start, v.len());
            assert(r@ =~= after_prefix@.skip(start as int));
            r
        },
        None => String::new(),
    };
    DebugCallTextUpdate::Finalized(expr, DebugCallTextKind::DebugAt)
}

/// The text of a `debug` message.
pub fn extract_debug_update(after_prefix: &str) -> (r: DebugCallTextUpdate)
    ensures
        r->Finalized_0@ == after_prefix@,
        r->Finalized_1 == DebugCallTextKind::Debug,
{
    DebugCallTextUpdate::Finalized(after_prefix.to_owned(), DebugCallTextKind::Debug)
}

/// The update is what a captured message of `pattern` gives: none for
/// `Called from`, the expression for `debug at`, all of it for `debug`.
pub open spec fn is_capture(
    update: Option<DebugCallTextUpdate>,
    pattern: MatchedPattern,
    buffer: Seq<char>,
) -> bool {
    match pattern {
        MatchedPattern::CalledFrom => update is None,
        MatchedPattern::DebugAt => update matches Some(DebugCallTextUpdate::Finalized(t, k))
            && t@ == debug_at_expression(buffer) && k == DebugCallTextKind::DebugAt,
        MatchedPattern::Debug => update matches Some(DebugCallTextUpdate::Finalized(t, k)) && t@
            == buffer && k == DebugCallTextKind::Debug,
    }
}

/// Finalizes a captured debug message. Nested prefixes are resolved before, so
/// `pattern` is that of the last prefix seen.
pub fn finalize_capture(pattern: MatchedPattern, buffer: &str) -> (r: Option<DebugCallTextUpdate>)
    ensures
        is_capture(r, pattern, buffer@),
{
    match pattern {
        MatchedPattern::DebugAt => Some(extract_debug_at_update(buffer)),
        MatchedPattern::Debug => Some(extract_debug_update(buffer)),
        MatchedPattern::CalledFrom => None,
    }
}

impl View for ConsoleFilter {
    type V = FilterModel;

    closed spec fn view(&self) -> FilterModel {
        FilterModel {
            state: match self.state {
                ConsoleFilterState::Passthrough { at_line_start } => StateModel::Passthrough {
                    at_line_start,
                },
                ConsoleFilterState::Filtering {
                    earlier,
                    pattern,
                    buffer,
                    timestamp,
                    was_debugging,
                } => StateModel::Filtering {
                    earlier: earlier@,
                    pattern,
                    buffer: buffer@,
                    timestamp,
                    was_debugging,
                },
            },
            timeout_millis: self.timeout_millis as int,
            is_debugging: self.is_debugging,
            suppress: self.suppress,
        }
    }
}

fn last_is_newline(s: &str) -> (r: bool)
    ensures
        r == ends_line(s@),
{
    proof {
        reveal_strlit("\n");
    }
    let r: bool = text::ends_with(s, "\n");
    proof {
        if ends_line(s@) {
            assert(s@.subrange(s@.len() - 1, s@.len() as int) =~= "\n"@);
        }
        if r {
            assert(s@.subrange(s@.len() - 1, s@.len() as int)[0] == '\n');
        }
    }
    r
}

impl ConsoleFilter {
    pub fn new() -> (r: Self)
        ensures
            r@ == (FilterModel {
                state: StateModel::Passthrough { at_line_start: true },
                timeout_millis: TIMEOUT_MILLIS as int,
                is_debugging: false,
                suppress: true,
            }),
    {
        Self::new_with_timeout(TIMEOUT_MILLIS)
    }

    pub fn new_with_timeout(timeout_millis: u64) -> (r: Self)
        ensures
            r@ == (FilterModel {
                state: StateModel::Passthrough { at_line_start: true },
                timeout_millis: timeout_millis as int,
                is_debugging: false,
                suppress: true,
            }),
    {
        Self {
            state: ConsoleFilterState::Passthrough { at_line_start: true },
            timeout_millis,
            is_debugging: false,
            suppress: true,
        }
    }

    /// Tells the filter whether the console is in a debug session.
    pub fn set_debugging(&mut self, is_debugging: bool)
        ensures
            final(self)@ == (FilterModel { is_debugging, ..old(self)@ }),
    {
        self.is_debugging = is_debugging;
    }

    /// Tells the filter whether to drop confirmed debug output. If not, the
    /// output is emitted, and debug information is still extracted from it.
    pub fn set_suppress(&mut self, suppress: bool)
        ensures
            final(self)@ == (FilterModel { suppress, ..old(self)@ }),
    {
        self.suppress = suppress;
    }

    /// The nanoseconds since the first prefix of the held back output was matched, as
    /// the clock tells them, and zero if nothing is held back.
    fn elapsed(&self) -> (r: u128)
        ensures
            self@.waited(r),
            self@.state is Passthrough ==> r == 0,
    {
        match &self.state {
            ConsoleFilterState::Passthrough { .. } => 0,
            ConsoleFilterState::Filtering { timestamp, .. } => elapsed_nanos(timestamp),
        }
    }

    /// Whether held back output has waited for longer than it may, `elapsed`
    /// nanoseconds after its prefix was matched.
    pub fn is_expired(&self, elapsed: u128) -> (r: bool)
        ensures
            r == self@.expired(elapsed),
    {
        match &self.state {
            ConsoleFilterState::Passthrough { .. } => false,
            ConsoleFilterState::Filtering { .. } => elapsed > self.timeout_millis as u128
                * 1_000_000,
        }
    }

    /// Feeds content through the filter. Returns the content to emit.
    pub fn feed(&mut self, content: &str) -> (emits: Vec<String>)
        ensures
            exists|elapsed: u128, clock: Seq<Reading>|
                old(self)@.fed_timed(content@, elapsed, clock) && (
                final(self)@,
                text::texts(emits@),
            ) == #[trigger] old(self)@.fed(content@, elapsed, clock),
    {
        let ghost start = self@;
        let mut emits: Vec<String> = Vec::new();
        let ghost mut clock: Seq<Reading> = Seq::empty();
        let waited: u128 = self.elapsed();
        if let Some(emit) = self.drain_on_timeout(waited) {
            emits.push(emit);
        }
        let ghost first = self@;
        let ghost head = text::texts(emits@);
        assert(head =~= if start.expired(waited) {
            seq![start.pending()]
        } else {
            Seq::empty()
        });
        let v: Vec<char> = text::chars_of(content);
        let n: usize = v.len();
        let mut pos: usize = 0;
        assert(content@.skip(0) =~= content@);
        proof {
            // Whatever the readings still to come, the run so far is empty.
            assert forall|more: Seq<Reading>| #![trigger clock + more]
                first.goes_on(content@, clock + more, self@, content@.skip(0), more, Seq::empty()) by {
                assert(clock + more =~= more);
                assert(Seq::<Seq<char>>::empty() + self@.run(content@.skip(0), more).1
                    =~= self@.run(content@.skip(0), more).1);
            }
        }
        let ghost mut tail: Seq<Seq<char>> = Seq::empty();
        assert(text::texts(emits@) =~= head + tail);
        while pos < n
            invariant
                v@ == content@,
                n == v@.len(),
                pos <= n,
                text::texts(emits@) == head + tail,
                forall|more: Seq<Reading>| #![trigger clock + more]
                    first.goes_on(
                        content@,
                        clock + more,
                        self@,
                        content@.skip(pos as int),
                        more,
                        tail,
                    ),
            decreases n - pos, (if self@.state is Filtering { 1int } else { 0int }),
        {
            let ghost before = self@;
            let ghost rest = content@.skip(pos as int);
            let ghost tail0 = tail;
            let ghost clock0 = clock;
            let chunk: String = text::string_of_range(&v, pos, n);
            assert(chunk@ =~= rest);
            let elapsed: u128 = self.elapsed();
            let (emit, used) = self.process_chars(chunk.as_str(), elapsed);
            let ghost this = Reading { at: self@.state->timestamp, elapsed };
            let ghost emitted = text::opt_text(emit);
            let ghost emits0 = emits@;
            if let Some(emit) = emit {
                emits.push(emit);
            }
            pos = pos + used;
            proof {
                let one = match emitted {
                    Some(e) => seq![e],
                    None => Seq::empty(),
                };
                tail = tail0 + one;
                clock = clock0.push(this);
                assert(text::texts(emits@) =~= text::texts(emits0) + one);
                assert(head + tail0 + one =~= head + (tail0 + one));
                assert(rest.skip(used as int) =~= content@.skip(pos as int));
                assert(before.timed(rest, this));
                assert forall|more: Seq<Reading>| #![trigger clock + more]
                    first.goes_on(
                        content@,
                        clock + more,
                        self@,
                        content@.skip(pos as int),
                        more,
                        tail,
                    ) by {
                    let with_this = seq![this] + more;
                    assert(clock + more =~= clock0 + with_this);
                    assert(with_this.drop_first() =~= more);
                    assert(with_this[0] == this);
                    let later = self@.run(content@.skip(pos as int), more);
                    assert(before.run(rest, with_this) == (later.0, one + later.1));
                    assert(before.run_timed(rest, with_this) == self@.run_timed(
                        content@.skip(pos as int),
                        more,
                    ));
                    assert(first.goes_on(content@, clock0 + with_this, before, rest, with_this, tail0));
                    assert(tail0 + (one + later.1) =~= tail + later.1);
                }
            }
        }
        proof {
            let none = Seq::<Reading>::empty();
            assert(content@.skip(n as int).len() == 0);
            assert(clock + none =~= clock);
            assert(first.goes_on(content@, clock + none, self@, content@.skip(n as int), none, tail));
            assert(tail + Seq::<Seq<char>>::empty() =~= tail);
            if !start.expired(waited) {
                assert(head + tail =~= tail);
            }
            assert(start.fed_timed(content@, waited, clock));
            assert((self@, text::texts(emits@)) == start.fed(content@, waited, clock));
        }
        emits
    }

    /// Processes a chunk of content, `elapsed` nanoseconds after the first prefix of
    /// the held back output was matched. Returns the text to emit and the number
    /// of bytes consumed.
    pub fn process_chunk(&mut self, content: &str, elapsed: u128) -> (r: (Option<String>, usize))
        requires
            content@.len() > 0,
        ensures
            ({
                let clock = Reading { at: final(self)@.state->timestamp, elapsed };
                let (next, emit, used) = old(self)@.step(content@, clock);
                &&& final(self)@ == next
                &&& text::opt_text(r.0) == emit
                &&& 0 <= used <= content@.len()
                &&& r.1 == encode_utf8(content@.take(used)).len()
                &&& r.1 <= encode_utf8(content@).len()
                &&& used == 0 ==> old(self)@.state is Filtering && next.state is Passthrough
            }),
            old(self)@.begins(content@) ==> is_now(final(self)@.state->timestamp),
    {
        let (emit, used) = self.process_chars(content, elapsed);
        let v: Vec<char> = text::chars_of(content);
        let consumed: String = text::string_of_range(&v, 0, used);
        assert(consumed@ =~= content@.take(used as int));
        proof {
            lemma_encoded_part(content@, used as int);
        }
        (emit, text::byte_len(consumed.as_str()))
    }

    /// Processes a chunk of content. Returns the text to emit and the number of
    /// characters consumed.
    fn process_chars(&mut self, content: &str, elapsed: u128) -> (r: (Option<String>, usize))
        requires
            content@.len() > 0,
        ensures
            ({
                let clock = Reading { at: final(self)@.state->timestamp, elapsed };
                let (next, emit, used) = old(self)@.step(content@, clock);
                &&& final(self)@ == next
                &&& text::opt_text(r.0) == emit
                &&& r.1 == used
            }),
            r.1 <= content@.len(),
            r.1 == 0 ==> old(self)@.state is Filtering && final(self)@.state is Passthrough,
            old(self)@.begins(content@) ==> is_now(final(self)@.state->timestamp),
    {
        let expired: bool = self.is_expired(elapsed);
        proof {
            law_prefixes_apart(MatchedPattern::CalledFrom, MatchedPattern::Debug);
            law_prefixes_apart(MatchedPattern::DebugAt, MatchedPattern::Debug);
            law_prefixes_apart(MatchedPattern::Debug, MatchedPattern::Debug);
            if matched(content@) is Some {
                assert(matched(content@)->0.spec_prefix().is_prefix_of(content@));
            }
        }
        match &self.state {
            ConsoleFilterState::Passthrough { at_line_start } => {
                if *at_line_start {
                    match try_match_prefix(content) {
                        Some(pattern) => {
                            let prefix_len: usize = text::chars_of(pattern.prefix()).len();
                            self.state =
                            ConsoleFilterState::Filtering {
                                earlier: String::new(),
                                pattern,
                                buffer: String::new(),
                                timestamp: now(),
                                was_debugging: self.is_debugging,
                            };
                            (None, prefix_len)
                        },
                        None => self.emit_until_newline(content),
                    }
                } else {
                    self.emit_until_newline(content)
                }
            },
            ConsoleFilterState::Filtering { earlier, pattern, buffer, timestamp, was_debugging } => {
                if expired {
                    return (self.drain(), 0);
                }
                if buffer.as_str().is_empty() || last_is_newline(buffer.as_str()) {
                    if let Some(nested) = try_match_prefix(content) {
                        let prefix_len: usize = text::chars_of(nested.prefix()).len();
                        self.state =
                        ConsoleFilterState::Filtering {
                            earlier: text::join3(
                                earlier.as_str(),
                                pattern.prefix(),
                                buffer.as_str(),
                            ),
                            pattern: nested,
                            buffer: String::new(),
                            timestamp: *timestamp,
                            was_debugging: *was_debugging,
                        };
                        return (None, prefix_len);
                    }
                }
                self.state =
                ConsoleFilterState::Filtering {
                    earlier: earlier.clone(),
                    pattern: *pattern,
                    buffer: text::join2(buffer.as_str(), content),
                    timestamp: *timestamp,
                    was_debugging: *was_debugging,
                };
                (None, text::chars_of(content).len())
            },
        }
    }

    /// Emits content up to and with the next line feed.
    fn emit_until_newline(&mut self, content: &str) -> (r: (Option<String>, usize))
        requires
            content@.len() > 0,
        ensures
            r.1 == FilterModel::line_len(content@),
            0 < r.1 <= content@.len(),
            text::opt_text(r.0) == Some(content@.take(r.1 as int)),
            final(self)@ == old(self)@.with(
                StateModel::Passthrough { at_line_start: ends_line(content@.take(r.1 as int)) },
            ),
    {
        let v: Vec<char> = text::chars_of(content);
        let n: usize = v.len();
        let mut i: usize = 0;
        while i < n && v[i] != '\n'
            invariant
                v@ == content@,
                n == v@.len(),
                i <= n,
                forall|k: int| 0 <= k < i ==> content@[k] != '\n',
            decreases n - i,
        {
            i = i + 1;
        }
        proof {
            content@.index_of_first_ensures('\n');
        }
        if i < n {
            assert(content@[i as int] == '\n');
            assert(content@.index_of_first('\n') == Some(i as int));
            self.state = ConsoleFilterState::Passthrough { at_line_start: true };
            (Some(text::string_of_range(&v, 0, i + 1)), i + 1)
        } else {
            assert(!content@.contains('\n'));
            assert(content@.take(n as int) =~= content@);
            self.state = ConsoleFilterState::Passthrough { at_line_start: false };
            (Some(content.to_owned()), n)
        }
    }

    /// Called when a read of the console begins. `is_browser` tells whether it is
    /// at a browser prompt or at top level.
    ///
    /// Held back output is debug output if its prefix was matched in a debug
    /// session, or if the read is at a browser prompt. It is then dropped unless
    /// the filter is told not to, and the update of the debug call text is
    /// returned. Otherwise it is user output, and emitted.
    pub fn on_read_console(&mut self, is_browser: bool) -> (r: (
        Option<String>,
        Option<DebugCallTextUpdate>,
    ))
        ensures
            final(self)@ == old(self)@.with(StateModel::Passthrough { at_line_start: true }),
            is_read_answer(text::opt_text(r.0), r.1, old(self)@, is_browser),
    {
        let mut emit: Option<String> = None;
        let mut update: Option<DebugCallTextUpdate> = None;
        match &self.state {
            ConsoleFilterState::Passthrough { .. } => {},
            ConsoleFilterState::Filtering { earlier, pattern, buffer, was_debugging, .. } => {
                if *was_debugging || is_browser {
                    update = finalize_capture(*pattern, buffer.as_str());
                }
                if !(*was_debugging || is_browser) || !self.suppress {
                    emit =
                    Some(text::join3(earlier.as_str(), pattern.prefix(), buffer.as_str()));
                }
            },
        }
        self.state = ConsoleFilterState::Passthrough { at_line_start: true };
        (emit, update)
    }

    /// Hands out held back output that no read of the console came to confirm in
    /// time.
    pub fn check_timeout(&mut self) -> (r: Option<String>)
        ensures
            exists|elapsed: u128|
                old(self)@.waited(elapsed) && if #[trigger] old(self)@.expired(elapsed) {
                    final(self)@ == old(self)@.drained() && text::opt_text(r) == Some(
                        old(self)@.pending(),
                    )
                } else {
                    *final(self) == *old(self) && r is None
                },
    {
        let elapsed: u128 = self.elapsed();
        self.drain_on_timeout(elapsed)
    }

    /// Hands out the held back output if it has waited for too long, `elapsed`
    /// nanoseconds after its prefix was matched.
    pub fn drain_on_timeout(&mut self, elapsed: u128) -> (r: Option<String>)
        ensures
            old(self)@.expired(elapsed) ==> final(self)@ == old(self)@.drained()
                && text::opt_text(r) == Some(old(self)@.pending()),
            !old(self)@.expired(elapsed) ==> *final(self) == *old(self) && r is None,
    {
        if self.is_expired(elapsed) {
            self.drain()
        } else {
            None
        }
    }

    /// Hands out the held back output.
    pub fn flush(&mut self) -> (r: Option<String>)
        ensures
            final(self)@ == old(self)@.drained(),
            text::opt_text(r) == (if old(self)@.state is Filtering {
                Some(old(self)@.pending())
            } else {
                None
            }),
    {
        self.drain()
    }

    fn drain(&mut self) -> (r: Option<String>)
        ensures
            final(self)@ == old(self)@.drained(),
            text::opt_text(r) == (if old(self)@.state is Filtering {
                Some(old(self)@.pending())
            } else {
                None
            }),
    {
        let held: String = match &self.state {
            ConsoleFilterState::Passthrough { .. } => {
                return None;
            },
            ConsoleFilterState::Filtering { earlier, pattern, buffer, .. } => text::join3(
                earlier.as_str(),
                pattern.prefix(),
                buffer.as_str(),
            ),
        };
        let at_line_start: bool = last_is_newline(held.as_str());
        self.state = ConsoleFilterState::Passthrough { at_line_start };
        Some(held)
    }
}

proof fn lemma_encoded_part(s: Seq<char>, n: int)
    requires
        0 <= n <= s.len(),
    ensures
        encode_utf8(s.take(n)).len() <= encode_utf8(s).len(),
    decreases s.len(),
{
    if n == 0 {
        assert(s.take(0).len() == 0);
    } else {
        assert(s.take(n).drop_first() =~= s.drop_first().take(n - 1));
        assert(s.take(n)[0] == s[0]);
        lemma_encoded_part(s.drop_first(), n - 1);
    }
}

/// A line starts at `p`.
pub open spec fn line_start(s: Seq<char>, p: int) -> bool {
    0 <= p < s.len() && (p == 0 || s[p - 1] == '\n')
}

/// A line that starts with a debug prefix starts at `p`.
pub open spec fn debug_line(s: Seq<char>, p: int) -> bool {
    line_start(s, p) && matched(s.skip(p)) is Some
}

/// `new` is `old` up to the first line that starts with a debug prefix.
pub open spec fn is_stripped(new: Seq<char>, old: Seq<char>) -> bool {
    &&& (forall|p: int| !debug_line(old, p)) ==> new == old
    &&& forall|p: int| #[trigger]
        debug_line(old, p) && (forall|q: int| 0 <= q < p ==> !debug_line(old, q)) ==> new
            == old.take(p)
}

/// Strips `Called from:`, `debug at` and `debug:` lines from autoprint, with
/// everything after the first of them.
///
/// Only to be called at browser prompts: at top level user output may hold such
/// lines.
pub fn strip_step_lines(text: &mut String)
    ensures
        is_stripped(final(text)@, old(text)@),
{
    let v: Vec<char> = text::chars_of(text.as_str());
    let n: usize = v.len();
    let ghost s = text@;
    let mut pos: usize = 0;
    let mut at_start: bool = true;
    while pos < n
        invariant
            v@ == s,
            s == old(text)@,
            text@ == s,
            n == v@.len(),
            pos <= n,
            pos < n ==> at_start == line_start(s, pos as int),
            forall|q: int| 0 <= q < pos ==> !#[trigger] debug_line(s, q),
        decreases n - pos,
    {
        if at_start {
            let rest: String = text::string_of_range(&v, pos, n);
            assert(rest@ =~= s.skip(pos as int));
            if try_match_prefix(rest.as_str()).is_some() {
                assert(debug_line(s, pos as int));
                *text = text::string_of_range(&v, 0, pos);
                assert forall|p: int|
                    #[trigger] debug_line(s, p) && (forall|q: int|
                        0 <= q < p ==> !debug_line(s, q)) implies p == pos by {
                    if p > pos {
                        assert(!debug_line(s, pos as int));
                    }
                }
                return ;
            }
        }
        at_start = v[pos] == '\n';
        pos = pos + 1;
    }
}

/// No text is lost or made up in a step: what was held back and what is consumed
/// is what is emitted and what is then held back.
pub proof fn law_step_keeps_text(v: FilterModel, content: Seq<char>, clock: Reading)
    requires
        content.len() > 0,
    ensures
        ({
            let (next, emit, used) = v.step(content, clock);
            let emitted = match emit {
                Some(e) => e,
                None => Seq::empty(),
            };
            &&& 0 <= used <= content.len()
            &&& used == 0 ==> v.state is Filtering && next.state is Passthrough
            &&& emitted + next.pending() == v.pending() + content.take(used)
        }),
{
    let (next, emit, used) = v.step(content, clock);
    let none = Seq::<char>::empty();
    content.index_of_first_ensures('\n');
    if matched(content) is Some {
        let p = matched(content)->0.spec_prefix();
        law_prefixes_apart(matched(content)->0, matched(content)->0);
        assert(p.is_prefix_of(content));
        assert(content.take(p.len() as int) =~= p);
        assert(none + (none + p + none) =~= none + p);
        assert(none + (v.pending() + p + none) =~= v.pending() + p);
    }
    match v.state {
        StateModel::Passthrough { at_line_start } => {
            assert(none + content.take(used) =~= content.take(used));
            assert(content.take(used) + none =~= content.take(used));
        },
        StateModel::Filtering { earlier, pattern, buffer, .. } => {
            if v.expired(clock.elapsed) {
                assert(v.pending() + none =~= v.pending() + content.take(0));
            } else {
                assert(content.take(content.len() as int) =~= content);
                assert(none + (earlier + pattern.spec_prefix() + (buffer + content))
                    =~= earlier + pattern.spec_prefix() + buffer + content);
            }
        },
    }
}

/// Everything in `parts`, one after the other.
pub open spec fn flat(parts: Seq<Seq<char>>) -> Seq<char>
    decreases parts.len(),
{
    if parts.len() == 0 {
        Seq::empty()
    } else {
        parts[0] + flat(parts.drop_first())
    }
}

/// No text is lost, whatever the clock says: what is emitted and what is then held
/// back is what was held back and the content.
pub proof fn law_run_keeps_text(v: FilterModel, content: Seq<char>, clock: Seq<Reading>)
    ensures
        flat(v.run(content, clock).1) + v.run(content, clock).0.pending() == v.pending() + content,
    decreases content.len(), (if v.state is Filtering { 1int } else { 0int }),
{
    if content.len() == 0 {
        assert(Seq::<char>::empty() + v.pending() =~= v.pending() + content);
    } else {
        let (next, emit, used) = v.step(content, clock[0]);
        law_step_keeps_text(v, content, clock[0]);
        let rest = content.skip(used);
        let later = next.run(rest, clock.drop_first());
        law_run_keeps_text(next, rest, clock.drop_first());
        lemma_kept(v.pending(), content, used, emit, next.pending(), later.1, later.0.pending());
    }
}

/// What a step and the run after it emit is what was held back and the content.
proof fn lemma_kept(
    held: Seq<char>,
    content: Seq<char>,
    used: int,
    emit: Option<Seq<char>>,
    next: Seq<char>,
    emits: Seq<Seq<char>>,
    last: Seq<char>,
)
    requires
        0 <= used <= content.len(),
        (match emit {
            Some(e) => e,
            None => Seq::empty(),
        }) + next == held + content.take(used),
        flat(emits) + last == next + content.skip(used),
    ensures
        flat(
            (match emit {
                Some(e) => seq![e],
                None => Seq::empty(),
            }) + emits,
        ) + last == held + content,
{
    let one = match emit {
        Some(e) => seq![e],
        None => Seq::empty(),
    };
    let emitted = match emit {
        Some(e) => e,
        None => Seq::empty(),
    };
    let rest = content.skip(used);
    assert(flat(one + emits) =~= emitted + flat(emits)) by {
        if emit is Some {
            assert((one + emits).drop_first() =~= emits);
        } else {
            assert(one + emits =~= emits);
        }
    }
    assert(emitted + flat(emits) + last =~= emitted + (flat(emits) + last));
    assert(emitted + (next + rest) =~= emitted + next + rest);
    assert(held + content.take(used) + rest =~= held + content);
}

/// Feeding loses no text: what is emitted and what is then held back is what was
/// held back and the content.
pub proof fn law_feed_keeps_text(
    v: FilterModel,
    content: Seq<char>,
    elapsed: u128,
    clock: Seq<Reading>,
)
    ensures
        flat(v.fed(content, elapsed, clock).1) + v.fed(content, elapsed, clock).0.pending()
            == v.pending() + content,
{
    if v.expired(elapsed) {
        let rest = v.drained().run(content, clock);
        law_run_keeps_text(v.drained(), content, clock);
        assert((seq![v.pending()] + rest.1).drop_first() =~= rest.1);
        assert(v.pending() + flat(rest.1) + rest.0.pending() =~= v.pending() + (flat(rest.1)
            + rest.0.pending()));
        assert(Seq::<char>::empty() + content =~= content);
    } else {
        law_run_keeps_text(v, content, clock);
    }
}

/// Ordinary output passes through: with nothing held back, content without a
/// debug prefix at its start or at the start of a line is emitted whole, and
/// nothing is held back after it.
pub proof fn law_ordinary_output_passes(
    v: FilterModel,
    content: Seq<char>,
    elapsed: u128,
    clock: Seq<Reading>,
)
    requires
        v.state is Passthrough,
        forall|p: int| !#[trigger] debug_line(content, p),
    ensures
        flat(v.fed(content, elapsed, clock).1) == content,
        v.fed(content, elapsed, clock).0.state is Passthrough,
{
    law_run_keeps_text(v, content, clock);
    lemma_stays_passthrough(v, content, clock);
    let r = v.run(content, clock);
    assert(flat(r.1) + Seq::<char>::empty() =~= flat(r.1));
    assert(Seq::<char>::empty() + content =~= content);
}

proof fn lemma_stays_passthrough(v: FilterModel, content: Seq<char>, clock: Seq<Reading>)
    requires
        v.state is Passthrough,
        forall|p: int| !#[trigger] debug_line(content, p),
    ensures
        v.run(content, clock).0.state is Passthrough,
    decreases content.len(),
{
    if content.len() > 0 {
        let (next, emit, used) = v.step(content, clock[0]);
        assert(!debug_line(content, 0));
        assert(content.skip(0) =~= content);
        content.index_of_first_ensures('\n');
        let rest = content.skip(used);
        assert forall|p: int| !#[trigger] debug_line(rest, p) by {
            if debug_line(rest, p) {
                assert(rest.skip(p) =~= content.skip(used + p));
                if p > 0 {
                    assert(rest[p - 1] == content[used + p - 1]);
                }
                if used > 0 && used < content.len() {
                    assert(content[used - 1] == '\n');
                }
                assert(debug_line(content, used + p));
            }
        }
        lemma_stays_passthrough(next, rest, clock.drop_first());
    }
}

/// With nothing held back, content that starts with a debug prefix at the start of a
/// line is held back from there on, whether or not the console is debugging: the prefix
/// is taken, nothing is emitted, and the filter remembers which prefix it was, when it
/// came and whether the console was debugging then.
pub proof fn law_prefix_is_held_back(v: FilterModel, content: Seq<char>, clock: Reading)
    requires
        v.state == (StateModel::Passthrough { at_line_start: true }),
    ensures
        ({
            let (next, emit, used) = v.step(content, clock);
            let held = |pattern: MatchedPattern|
                FilterModel {
                    state: StateModel::Filtering {
                        earlier: Seq::empty(),
                        pattern,
                        buffer: Seq::empty(),
                        timestamp: clock.at,
                        was_debugging: v.is_debugging,
                    },
                    ..v
                };
            &&& "Called from: "@.is_prefix_of(content) ==> next == held(MatchedPattern::CalledFrom)
                && emit is None && used == 13
            &&& "debug at "@.is_prefix_of(content) ==> next == held(MatchedPattern::DebugAt)
                && emit is None && used == 9
            &&& "debug: "@.is_prefix_of(content) ==> next == held(MatchedPattern::Debug)
                && emit is None && used == 7
        }),
{
    reveal_strlit("Called from: ");
    reveal_strlit("debug at ");
    reveal_strlit("debug: ");
    law_matched_iff_prefix(content, MatchedPattern::CalledFrom);
    law_matched_iff_prefix(content, MatchedPattern::DebugAt);
    law_matched_iff_prefix(content, MatchedPattern::Debug);
}

/// Output that does not start with a debug prefix, or that does not start a line, is
/// emitted up to the end of its line and nothing is held back.
pub proof fn law_other_output_is_emitted(v: FilterModel, content: Seq<char>, clock: Reading)
    requires
        v.state is Passthrough,
        content.len() > 0,
        !v.state->at_line_start || !("Called from: "@.is_prefix_of(content)
            || "debug at "@.is_prefix_of(content) || "debug: "@.is_prefix_of(content)),
    ensures
        ({
            let (next, emit, used) = v.step(content, clock);
            &&& 0 < used <= content.len()
            &&& emit == Some(content.take(used))
            &&& next == (FilterModel {
                state: StateModel::Passthrough { at_line_start: content[used - 1] == '\n' },
                ..v
            })
            &&& forall|i: int| 0 <= i < used - 1 ==> content[i] != '\n'
            &&& used < content.len() ==> content[used - 1] == '\n'
        }),
{
    content.index_of_first_ensures('\n');
}

/// Held back output stays held back until its time is over: nothing is emitted, all the
/// content is taken or the prefix of a further message, and the time and the session of
/// the first prefix are kept. Once the time is over all of it is emitted.
pub proof fn law_held_output_waits(v: FilterModel, content: Seq<char>, clock: Reading)
    requires
        v.state is Filtering,
        content.len() > 0,
    ensures
        ({
            let (next, emit, used) = v.step(content, clock);
            let over = clock.elapsed > v.timeout_millis * 1_000_000;
            &&& !over ==> emit is None && used > 0 && next.state is Filtering
                && next.state->timestamp == v.state->timestamp && next.state->was_debugging
                == v.state->was_debugging && next.pending() == v.pending() + content.take(used)
            &&& over ==> emit == Some(v.pending()) && used == 0 && next.state is Passthrough
            &&& next.timeout_millis == v.timeout_millis
            &&& next.is_debugging == v.is_debugging
            &&& next.suppress == v.suppress
        }),
{
    law_step_keeps_text(v, content, clock);
    if matched(content) is Some {
        law_prefixes_apart(matched(content)->0, matched(content)->0);
    }
    let (next, emit, used) = v.step(content, clock);
    assert(Seq::<char>::empty() + next.pending() =~= next.pending());
}

/// The text of a `debug: ` message that is fed at the start of a line is captured:
/// nothing is emitted, and what a read of the console then captures is the text after
/// the prefix, whether or not the console is debugging.
pub proof fn law_debug_message_is_captured(
    v: FilterModel,
    rest: Seq<char>,
    elapsed: u128,
    first: Reading,
    second: Reading,
    update: Option<DebugCallTextUpdate>,
)
    requires
        v.state == (StateModel::Passthrough { at_line_start: true }),
        rest.len() > 0,
        !("Called from: "@.is_prefix_of(rest) || "debug at "@.is_prefix_of(rest)
            || "debug: "@.is_prefix_of(rest)),
        second.elapsed <= v.timeout_millis * 1_000_000,
        ({
            let after = v.fed("debug: "@ + rest, elapsed, seq![first, second]).0;
            is_capture(update, after.state->pattern, after.state->buffer)
        }),
    ensures
        ({
            let (after, emits) = v.fed("debug: "@ + rest, elapsed, seq![first, second]);
            &&& emits.len() == 0
            &&& after.pending() == "debug: "@ + rest
            &&& after.state->was_debugging == v.is_debugging
            &&& update matches Some(DebugCallTextUpdate::Finalized(told, kind))
            &&& told@ == rest
            &&& kind == DebugCallTextKind::Debug
        }),
{
    reveal_strlit("debug: ");
    let content = "debug: "@ + rest;
    assert("debug: "@.is_prefix_of(content));
    law_prefix_is_held_back(v, content, first);
    law_matched_iff_prefix(rest, MatchedPattern::CalledFrom);
    law_matched_iff_prefix(rest, MatchedPattern::DebugAt);
    law_matched_iff_prefix(rest, MatchedPattern::Debug);
    let clock = seq![first, second];
    let later = clock.drop_first();
    let (next, emit, used) = v.step(content, first);
    assert(content.skip(7) =~= rest);
    assert(later[0] == second);
    let (last, none, taken) = next.step(rest, second);
    assert(taken == rest.len());
    assert(last.state->buffer =~= rest);
    assert(rest.skip(taken).len() == 0);
    assert(last.run(rest.skip(taken), later.drop_first()).1 =~= Seq::empty());
    assert(next.run(rest, later) == (last, Seq::<Seq<char>>::empty()));
    assert(v.run(content, clock) == (last, Seq::<Seq<char>>::empty()));
    assert(last.pending() =~= "debug: "@ + rest);
}

/// Held back output is debug output exactly if its prefix came in a debug session or the
/// read is at a browser prompt. Output that is not held back is none.
pub proof fn law_what_is_debug_output(v: FilterModel, is_browser: bool)
    ensures
        v.state is Passthrough ==> !v.confirmed(is_browser),
        v.state is Filtering && is_browser ==> v.confirmed(is_browser),
        v.state is Filtering && v.state->was_debugging ==> v.confirmed(is_browser),
        v.state is Filtering && !is_browser && !v.state->was_debugging ==> !v.confirmed(is_browser),
{
}

/// The expression of a `debug at ` message is what follows the first `#<digits>: `.
pub proof fn law_expression_follows_the_line(path: Seq<char>, digits: Seq<char>, expr: Seq<char>)
    requires
        !path.contains('#'),
        forall|i: int| 0 <= i < digits.len() ==> '0' <= #[trigger] digits[i] <= '9',
    ensures
        debug_at_expression(path + "#"@ + digits + ": "@ + expr) == expr,
{
    reveal_strlit("#");
    reveal_strlit(": ");
    let s = path + "#"@ + digits + ": "@ + expr;
    let h = path.len() as int;
    let m = h + 1 + digits.len();
    assert(s[h] == '#');
    assert forall|k: int| h < k < m implies '0' <= #[trigger] s[k] <= '9' by {
        assert(s[k] == digits[k - h - 1]);
    }
    assert(hash_run(s, h, m));
    assert(s[m] == ':' && s[m + 1] == ' ');
    assert(marker_at(s, m));
    assert forall|i: int| 0 <= i < m implies !marker_at(s, i) by {
        if marker_at(s, i) {
            let g = choose|g: int| #[trigger] hash_run(s, g, i);
            if g < h {
                assert(s[g] == path[g]);
            }
            assert(h < i);
            assert('0' <= s[i] <= '9');
        }
    }
    lemma_first_marker(s, 0, m);
    assert(s.skip(m + 2) =~= expr);
}

proof fn lemma_first_marker(s: Seq<char>, from: int, m: int)
    requires
        0 <= from <= m < s.len(),
        marker_at(s, m),
        forall|i: int| from <= i < m ==> !marker_at(s, i),
    ensures
        first_marker(s, from) == Some(m),
    decreases m - from,
{
    if from < m {
        lemma_first_marker(s, from + 1, m);
    }
}

/// What comes of held back output when R reads from the console: what is emitted, and
/// the update of the debug call text.
pub open spec fn is_read_answer(
    emit: Option<Seq<char>>,
    update: Option<DebugCallTextUpdate>,
    v: FilterModel,
    is_browser: bool,
) -> bool {
    &&& emit == (if v.state is Filtering && !(v.confirmed(is_browser) && v.suppress) {
        Some(v.pending())
    } else {
        None
    })
    &&& if v.confirmed(is_browser) {
        is_capture(update, v.state->pattern, v.state->buffer)
    } else {
        update is None
    }
}

/// Where R reads at top level outside of a debug session, held back output is emitted as
/// it came, and no call is known from it. In a debug session or at a browser prompt it
/// is emitted only if debug output is not to be dropped, and the call that follows the
/// last prefix is known, except after `Called from: `.
pub proof fn law_reads_decide_on_held_output(
    emit: Option<Seq<char>>,
    update: Option<DebugCallTextUpdate>,
    v: FilterModel,
    is_browser: bool,
)
    requires
        is_read_answer(emit, update, v, is_browser),
    ensures
        v.state is Passthrough ==> emit is None && update is None,
        v.state matches StateModel::Filtering {
            earlier,
            pattern,
            buffer,
            timestamp,
            was_debugging,
        } ==> {
            let shown = match pattern {
                MatchedPattern::CalledFrom => earlier + "Called from: "@ + buffer,
                MatchedPattern::DebugAt => earlier + "debug at "@ + buffer,
                MatchedPattern::Debug => earlier + "debug: "@ + buffer,
            };
            let known = was_debugging || is_browser;
            &&& !known ==> emit == Some(shown) && update is None
            &&& known && v.suppress ==> emit is None
            &&& known && !v.suppress ==> emit == Some(shown)
            &&& known && pattern == MatchedPattern::Debug ==> (update matches Some(
                DebugCallTextUpdate::Finalized(call, kind),
            ) && call@ == buffer && kind == DebugCallTextKind::Debug)
            &&& known && pattern == MatchedPattern::DebugAt ==> (update matches Some(
                DebugCallTextUpdate::Finalized(call, kind),
            ) && call@ == debug_at_expression(buffer) && kind == DebugCallTextKind::DebugAt)
            &&& known && pattern == MatchedPattern::CalledFrom ==> update is None
        },
{
}

/// A further message that starts on a line of its own in held back output takes the place
/// of the one before it, which is still kept. Other content belongs to the message.
pub proof fn law_further_messages(v: FilterModel, content: Seq<char>, clock: Reading)
    requires
        v.state is Filtering,
        content.len() > 0,
        clock.elapsed <= v.timeout_millis * 1_000_000,
    ensures
        ({
            let (next, emit, used) = v.step(content, clock);
            let starts = v.state->buffer.len() == 0 || v.state->buffer.last() == '\n';
            let held = |pattern: MatchedPattern|
                next.state->earlier == v.pending() && next.state->pattern == pattern
                    && next.state->buffer.len() == 0;
            &&& starts && "Called from: "@.is_prefix_of(content) ==> held(
                MatchedPattern::CalledFrom,
            ) && used == 13
            &&& starts && "debug at "@.is_prefix_of(content) ==> held(MatchedPattern::DebugAt)
                && used == 9
            &&& starts && "debug: "@.is_prefix_of(content) ==> held(MatchedPattern::Debug) && used
                == 7
            &&& (!starts || !("Called from: "@.is_prefix_of(content) || "debug at "@.is_prefix_of(
                content,
            ) || "debug: "@.is_prefix_of(content))) ==> next.state->earlier == v.state->earlier
                && next.state->pattern == v.state->pattern && next.state->buffer
                == v.state->buffer + content && used == content.len()
        }),
{
    reveal_strlit("Called from: ");
    reveal_strlit("debug at ");
    reveal_strlit("debug: ");
    law_matched_iff_prefix(content, MatchedPattern::CalledFrom);
    law_matched_iff_prefix(content, MatchedPattern::DebugAt);
    law_matched_iff_prefix(content, MatchedPattern::Debug);
}

/// Held back output that is handed out leaves nothing behind. The next output starts a
/// line if what was handed out ends one.
pub proof fn law_nothing_is_left_behind(v: FilterModel)
    ensures
        v.drained().pending().len() == 0,
        v.state is Passthrough ==> v.drained() == v,
        v.state is Filtering && v.pending().len() > 0 ==> v.drained() == (FilterModel {
            state: StateModel::Passthrough { at_line_start: v.pending().last() == '\n' },
            ..v
        }),
{
}

/// What is stripped from printed values starts at the first line that starts with one of
/// the prefixes. Without such a line nothing is stripped.
pub proof fn law_step_lines_are_stripped(new: Seq<char>, old: Seq<char>, p: int)
    requires
        is_stripped(new, old),
        0 <= p <= old.len(),
        forall|q: int|
            0 <= q < p && (q == 0 || old[q - 1] == '\n') ==> !("Called from: "@.is_prefix_of(
                #[trigger] old.skip(q),
            ) || "debug at "@.is_prefix_of(old.skip(q)) || "debug: "@.is_prefix_of(old.skip(q))),
    ensures
        p < old.len() && (p == 0 || old[p - 1] == '\n') && ("Called from: "@.is_prefix_of(
            old.skip(p),
        ) || "debug at "@.is_prefix_of(old.skip(p)) || "debug: "@.is_prefix_of(old.skip(p)))
            ==> new == old.take(p),
        p == old.len() ==> new == old,
{
    assert forall|q: int| 0 <= q < p implies !#[trigger] debug_line(old, q) by {
        law_matched_iff_prefix(old.skip(q), MatchedPattern::CalledFrom);
        law_matched_iff_prefix(old.skip(q), MatchedPattern::DebugAt);
        law_matched_iff_prefix(old.skip(q), MatchedPattern::Debug);
    }
    if p < old.len() {
        law_matched_iff_prefix(old.skip(p), MatchedPattern::CalledFrom);
        law_matched_iff_prefix(old.skip(p), MatchedPattern::DebugAt);
        law_matched_iff_prefix(old.skip(p), MatchedPattern::Debug);
        if p == 0 || old[p - 1] == '\n' {
            assert(line_start(old, p));
            assert(debug_line(old, p) || matched(old.skip(p)) is None);
        }
    }
}

} // verus!
