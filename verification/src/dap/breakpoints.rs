//! Breakpoints, and how those of a document change when the frontend sets them.
use vstd::prelude::*;

verus! {

#[derive(Debug, Clone, Copy, PartialEq, Eq, Structural)]
pub enum BreakpointState {
    Unverified,
    Verified,
    Invalid(InvalidReason),
    Disabled,
}

#[derive(Debug, Clone, Copy, PartialEq, Eq, Structural)]
pub enum InvalidReason {
    ClosingBrace,
    EmptyBraces,
}

impl InvalidReason {
    /// Why the breakpoint is invalid, in words.
    pub open spec fn spec_message(self) -> Seq<char> {
        match self {
            InvalidReason::ClosingBrace => "Can't break on closing `}` brace"@,
            InvalidReason::EmptyBraces => "Can't break inside empty braces"@,
        }
    }

    /// Why the breakpoint is invalid, in words.
    pub fn message(&self) -> (r: &'static str)
        ensures
            r@ == self.spec_message(),
    {
        match self {
            InvalidReason::ClosingBrace => "Can't break on closing `}` brace",
            InvalidReason::EmptyBraces => "Can't break inside empty braces",
        }
    }
}

#[derive(Debug, Clone, Copy, PartialEq, Eq, Structural)]
pub struct Breakpoint {
    pub id: i64,
    /// The line where the breakpoint is actually placed, which may be that of
    /// the start of an expression. Counted from zero.
    pub line: u32,
    /// The line that the user asked for. Breakpoints are matched by it when the
    /// frontend sets them again. Counted from zero.
    pub original_line: u32,
    pub state: BreakpointState,
    /// Whether the breakpoint was injected into code. Only injected breakpoints
    /// can be verified by a range of lines.
    pub injected: bool,
}

impl Breakpoint {
    /// A new breakpoint at the line that the user asked for.
    pub fn new(id: i64, line: u32, state: BreakpointState) -> (r: Self)
        ensures
            r == (Breakpoint { id, line, original_line: line, state, injected: false }),
    {
        Self { id, line, original_line: line, state, injected: false }
    }

    /// The line counted from zero, for a line of the protocol, counted from one.
    pub open spec fn spec_from_dap_line(line: i64) -> u32 {
        (line - 1) as u32
    }

    /// The line counted from zero, for a line of the protocol, counted from one.
    pub fn from_dap_line(line: i64) -> (r: u32)
        requires
            line > i64::MIN,
        ensures
            r == Self::spec_from_dap_line(line),
            1 <= line <= 0x1_0000_0000 ==> r == line - 1,
    {
        #[verifier::truncate]
        let r: u32 = (line - 1) as u32;
        r
    }

    /// The line of the protocol, counted from one, for a line counted from zero.
    pub fn to_dap_line(line: u32) -> (r: i64)
        requires
            line < u32::MAX,
        ensures
            r == line + 1,
    {
        (line + 1) as i64
    }
}

/// A line counted from zero is the same after it was sent and received.
pub proof fn law_dap_line_round_trip(line: u32)
    requires
        line < u32::MAX,
    ensures
        Breakpoint::spec_from_dap_line((line + 1) as i64) == line,
{
}

/// The last breakpoint that the user asked for at `line`.
pub open spec fn latest(old: Seq<Breakpoint>, line: u32) -> Option<int>
    decreases old.len(),
{
    if old.len() == 0 {
        None
    } else if old.last().original_line == line {
        Some(old.len() - 1)
    } else {
        latest(old.drop_last(), line)
    }
}

/// A new breakpoint. It is unverified until its code is evaluated.
pub open spec fn fresh(id: int, line: u32) -> Breakpoint {
    Breakpoint {
        id: id as i64,
        line,
        original_line: line,
        state: BreakpointState::Unverified,
        injected: false,
    }
}

/// A breakpoint that is set again. It keeps its id and its place. A disabled
/// breakpoint is verified again at once, and an invalid one is to be validated
/// again.
pub open spec fn restored(old: Breakpoint, line: u32) -> Breakpoint {
    Breakpoint {
        id: old.id,
        line: old.line,
        original_line: line,
        state: match old.state {
            BreakpointState::Disabled => BreakpointState::Verified,
            BreakpointState::Invalid(_) => BreakpointState::Unverified,
            other => other,
        },
        injected: match old.state {
            BreakpointState::Invalid(_) => false,
            _ => old.injected,
        },
    }
}

/// A verified breakpoint that is not set any more. It is kept, for as long as it is
/// not set, so that it need not be verified again when it is set again.
pub open spec fn disabled(old: Breakpoint) -> Breakpoint {
    Breakpoint { state: BreakpointState::Disabled, injected: true, ..old }
}

/// The breakpoints at `lines`, where those of `old` were set before, and the next
/// free id after them. A line that comes twice has an old breakpoint the first
/// time only.
pub open spec fn reconciled(old: Seq<Breakpoint>, lines: Seq<u32>, next_id: int) -> (
    Seq<Breakpoint>,
    int,
)
    decreases lines.len(),
{
    if lines.len() == 0 {
        (Seq::empty(), next_id)
    } else {
        let (done, id) = reconciled(old, lines.drop_last(), next_id);
        let line = lines.last();
        if latest(old, line) is Some && !lines.drop_last().contains(line) {
            (done.push(restored(old[latest(old, line)->0], line)), id)
        } else {
            (done.push(fresh(id, line)), id + 1)
        }
    }
}

/// The breakpoint at place `i` is kept although it is not set at `lines`.
pub open spec fn is_parked(old: Seq<Breakpoint>, lines: Seq<u32>, i: int) -> bool {
    &&& latest(old, old[i].original_line) == Some(i)
    &&& !lines.contains(old[i].original_line)
    &&& old[i].state is Verified || old[i].state is Disabled
}

/// The first `count` breakpoints of `old` that are kept although they are not set
/// at `lines`.
pub open spec fn parked(old: Seq<Breakpoint>, lines: Seq<u32>, count: int) -> Seq<Breakpoint>
    decreases count,
{
    if count <= 0 {
        Seq::empty()
    } else if is_parked(old, lines, count - 1) {
        parked(old, lines, count - 1).push(disabled(old[count - 1]))
    } else {
        parked(old, lines, count - 1)
    }
}

/// The breakpoints of a document after the frontend set them at `lines`.
pub open spec fn updated(old: Seq<Breakpoint>, lines: Seq<u32>, next_id: int) -> Seq<Breakpoint> {
    reconciled(old, lines, next_id).0 + parked(old, lines, old.len() as int)
}

/// The lines counted from zero.
pub open spec fn from_dap_lines(lines: Seq<i64>) -> Seq<u32> {
    lines.map_values(|l: i64| Breakpoint::spec_from_dap_line(l))
}

pub proof fn lemma_latest(old: Seq<Breakpoint>, line: u32)
    ensures
        match latest(old, line) {
            Some(i) => 0 <= i < old.len() && old[i].original_line == line && forall|j: int|
                i < j < old.len() ==> (#[trigger] old[j]).original_line != line,
            None => forall|j: int|
                0 <= j < old.len() ==> (#[trigger] old[j]).original_line != line,
        },
    decreases old.len(),
{
    if old.len() > 0 && old.last().original_line != line {
        lemma_latest(old.drop_last(), line);
        assert forall|j: int| 0 <= j < old.len() - 1 implies old[j] == #[trigger] old.drop_last()[j] by {}
        match latest(old, line) {
            Some(i) => {
                assert forall|j: int| i < j < old.len() implies (
                #[trigger] old[j]).original_line != line by {
                    if j < old.len() - 1 {
                        assert(old.drop_last()[j].original_line != line);
                    }
                }
            },
            None => {
                assert forall|j: int| 0 <= j < old.len() implies (
                #[trigger] old[j]).original_line != line by {
                    if j < old.len() - 1 {
                        assert(old.drop_last()[j].original_line != line);
                    }
                }
            },
        }
    }
}

fn find_latest(old: &Vec<Breakpoint>, line: u32) -> (r: Option<usize>)
    ensures
        match r {
            Some(i) => latest(old@, line) == Some(i as int) && i < old@.len(),
            None => latest(old@, line) is None,
        },
{
    let mut i: usize = old.len();
    assert(old@.take(i as int) =~= old@);
    while i > 0
        invariant
            i <= old@.len(),
            latest(old@, line) == latest(old@.take(i as int), line),
        decreases i,
    {
        assert(old@.take(i as int).drop_last() =~= old@.take(i - 1));
        if old[i - 1].original_line == line {
            return Some(i - 1);
        }
        i = i - 1;
    }
    None
}

fn has_line(lines: &Vec<u32>, count: usize, line: u32) -> (r: bool)
    requires
        count <= lines@.len(),
    ensures
        r == lines@.take(count as int).contains(line),
{
    let mut i: usize = 0;
    while i < count
        invariant
            i <= count <= lines@.len(),
            forall|k: int| 0 <= k < i ==> lines@[k] != line,
        decreases count - i,
    {
        if lines[i] == line {
            assert(lines@.take(count as int)[i as int] == line);
            return true;
        }
        i = i + 1;
    }
    false
}

fn restore(old: Breakpoint, line: u32) -> (r: Breakpoint)
    ensures
        r == restored(old, line),
{
    let (state, injected) = match old.state {
        BreakpointState::Disabled => (BreakpointState::Verified, old.injected),
        BreakpointState::Invalid(_) => (BreakpointState::Unverified, false),
        other => (other, old.injected),
    };
    Breakpoint { id: old.id, line: old.line, original_line: line, state, injected }
}

/// The breakpoints of a document after the frontend set them at `lines`, counted
/// from zero, where `old` are those from before. New breakpoints get ids from
/// `next_id` on. Returns the next free id too.
pub fn update_breakpoints(old: &Vec<Breakpoint>, lines: &Vec<u32>, next_id: i64) -> (r: (
    Vec<Breakpoint>,
    i64,
))
    requires
        next_id + lines@.len() <= i64::MAX,
    ensures
        r.0@ == updated(old@, lines@, next_id as int),
        r.1 == reconciled(old@, lines@, next_id as int).1,
        next_id <= r.1 <= next_id + lines@.len(),
{
    let mut out: Vec<Breakpoint> = Vec::new();
    let mut id: i64 = next_id;
    let n: usize = lines.len();
    let mut k: usize = 0;
    while k < n
        invariant
            n == lines@.len(),
            k <= n,
            next_id + n <= i64::MAX,
            next_id <= id <= next_id + k,
            (out@, id as int) == reconciled(old@, lines@.take(k as int), next_id as int),
        decreases n - k,
    {
        let line: u32 = lines[k];
        assert(lines@.take(k + 1).drop_last() =~= lines@.take(k as int));
        let found: Option<usize> = if has_line(lines, k, line) {
            None
        } else {
            find_latest(old, line)
        };
        match found {
            Some(i) => {
                out.push(restore(old[i], line));
            },
            None => {
                out.push(Breakpoint::new(id, line, BreakpointState::Unverified));
                id = id + 1;
            },
        }
        k = k + 1;
    }
    assert(lines@.take(n as int) =~= lines@);
    let ghost set = out@;
    let m: usize = old.len();
    let mut i: usize = 0;
    while i < m
        invariant
            m == old@.len(),
            n == lines@.len(),
            i <= m,
            out@ == set + parked(old@, lines@, i as int),
        decreases m - i,
    {
        let bp: Breakpoint = old[i];
        let is_latest: bool = match find_latest(old, bp.original_line) {
            Some(j) => j == i,
            None => false,
        };
        assert(lines@.take(n as int) =~= lines@);
        let was_verified: bool = match bp.state {
            BreakpointState::Verified | BreakpointState::Disabled => true,
            _ => false,
        };
        if is_latest && was_verified && !has_line(lines, n, bp.original_line) {
            let ghost before = out@;
            out.push(
                Breakpoint {
                    id: bp.id,
                    line: bp.line,
                    original_line: bp.original_line,
                    state: BreakpointState::Disabled,
                    injected: true,
                },
            );
            assert(out@ =~= set + parked(old@, lines@, i + 1));
        }
        i = i + 1;
    }
    (out, id)
}

/// The lines counted from zero.
pub fn lines_from_dap(lines: &Vec<i64>) -> (r: Vec<u32>)
    requires
        forall|i: int| 0 <= i < lines@.len() ==> #[trigger] lines@[i] > i64::MIN,
    ensures
        r@ == from_dap_lines(lines@),
{
    let mut r: Vec<u32> = Vec::new();
    let n: usize = lines.len();
    let mut i: usize = 0;
    while i < n
        invariant
            n == lines@.len(),
            i <= n,
            forall|i: int| 0 <= i < lines@.len() ==> #[trigger] lines@[i] > i64::MIN,
            r@ == from_dap_lines(lines@).take(i as int),
        decreases n - i,
    {
        r.push(Breakpoint::from_dap_line(lines[i]));
        i = i + 1;
    }
    r
}

/// What each breakpoint that is set comes from.
proof fn lemma_reconciled(old: Seq<Breakpoint>, lines: Seq<u32>, next_id: int)
    ensures
        ({
            let (set, id) = reconciled(old, lines, next_id);
            &&& set.len() == lines.len()
            &&& next_id <= id <= next_id + lines.len()
            &&& forall|k: int|
                0 <= k < set.len() ==> (if is_restored(old, lines, k) {
                    #[trigger] set[k] == restored(old[latest(old, lines[k])->0], lines[k])
                } else {
                    exists|i: int| next_id <= i < id && set[k] == #[trigger] fresh(i, lines[k])
                })
        }),
    decreases lines.len(),
{
    if lines.len() > 0 {
        let less = lines.drop_last();
        lemma_reconciled(old, less, next_id);
        let (done, id) = reconciled(old, less, next_id);
        let (set, id1) = reconciled(old, lines, next_id);
        assert forall|k: int| 0 <= k < set.len() implies (if is_restored(old, lines, k) {
            #[trigger] set[k] == restored(old[latest(old, lines[k])->0], lines[k])
        } else {
            exists|i: int| next_id <= i < id1 && set[k] == #[trigger] fresh(i, lines[k])
        }) by {
            if k < done.len() {
                assert(set[k] == done[k]);
                assert(less[k] == lines[k]);
                assert(is_restored(old, less, k) == is_restored(old, lines, k)) by {
                    assert forall|j: int| 0 <= j < k implies less[j] == #[trigger] lines[j] by {}
                    if is_restored(old, less, k) {
                        assert forall|j: int| 0 <= j < k implies #[trigger] lines[j] != lines[k] by {
                            assert(less[j] != less[k]);
                        }
                    }
                    if is_restored(old, lines, k) {
                        assert forall|j: int| 0 <= j < k implies #[trigger] less[j] != less[k] by {
                            assert(lines[j] != lines[k]);
                        }
                    }
                }
                if !is_restored(old, lines, k) {
                    let i = choose|i: int| next_id <= i < id && done[k] == #[trigger] fresh(
                        i,
                        less[k],
                    );
                    assert(set[k] == fresh(i, lines[k]));
                }
            } else {
                if less.contains(lines.last()) {
                    let j = choose|j: int| 0 <= j < less.len() && less[j] == lines.last();
                    assert(lines[j] == lines[k]);
                    assert(!is_restored(old, lines, k));
                } else {
                    assert forall|j: int| 0 <= j < k implies #[trigger] lines[j] != lines[k] by {
                        assert(less[j] == lines[j]);
                    }
                }
                if !is_restored(old, lines, k) {
                    assert(set[k] == fresh(id, lines[k]));
                }
            }
        }
    }
}

/// The line at place `k` has an old breakpoint that no earlier line took.
pub open spec fn is_restored(old: Seq<Breakpoint>, lines: Seq<u32>, k: int) -> bool {
    latest(old, lines[k]) is Some && forall|j: int| 0 <= j < k ==> #[trigger] lines[j] != lines[k]
}

/// What each breakpoint that is kept comes from.
proof fn lemma_parked(old: Seq<Breakpoint>, lines: Seq<u32>, count: int)
    requires
        0 <= count <= old.len(),
    ensures
        forall|k: int|
            #![trigger parked(old, lines, count)[k]]
            0 <= k < parked(old, lines, count).len() ==> exists|i: int|
                0 <= i < count && is_parked(old, lines, i) && parked(old, lines, count)[k]
                    == #[trigger] disabled(old[i]),
        forall|i: int|
            0 <= i < count && #[trigger] is_parked(old, lines, i) ==> parked(
                old,
                lines,
                count,
            ).contains(disabled(old[i])),
    decreases count,
{
    if count > 0 {
        lemma_parked(old, lines, count - 1);
        let less = parked(old, lines, count - 1);
        let more = parked(old, lines, count);
        assert forall|k: int|
            #![trigger more[k]]
            0 <= k < more.len() implies exists|i: int|
            0 <= i < count && is_parked(old, lines, i) && more[k] == #[trigger] disabled(old[i]) by {
            if k < less.len() {
                assert(more[k] == less[k]);
                let i = choose|i: int|
                    0 <= i < count - 1 && is_parked(old, lines, i) && less[k]
                        == #[trigger] disabled(old[i]);
                assert(more[k] == disabled(old[i]));
            } else {
                assert(more[k] == disabled(old[count - 1]));
            }
        }
        assert forall|i: int| 0 <= i < count && #[trigger] is_parked(old, lines, i) implies more.contains(
            disabled(old[i]),
        ) by {
            if i < count - 1 {
                let k = choose|k: int| 0 <= k < less.len() && less[k] == disabled(old[i]);
                assert(more[k] == disabled(old[i]));
            } else {
                assert(more[more.len() - 1] == disabled(old[i]));
            }
        }
    }
}

/// Breakpoints have different ids, all below the next free id.
pub open spec fn ids_unique(bps: Seq<Breakpoint>, next_id: int) -> bool {
    &&& forall|i: int| 0 <= i < bps.len() ==> (#[trigger] bps[i]).id < next_id
    &&& forall|i: int, j: int|
        0 <= i < j < bps.len() ==> (#[trigger] bps[i]).id != (#[trigger] bps[j]).id
}

proof fn lemma_reconciled_ids(old: Seq<Breakpoint>, lines: Seq<u32>, next_id: int)
    requires
        ids_unique(old, next_id),
        i64::MIN <= next_id,
        next_id + lines.len() <= i64::MAX,
    ensures
        ids_unique(reconciled(old, lines, next_id).0, reconciled(old, lines, next_id).1),
    decreases lines.len(),
{
    lemma_reconciled(old, lines, next_id);
    let (set, id) = reconciled(old, lines, next_id);
    if lines.len() > 0 {
        let less = lines.drop_last();
        lemma_reconciled_ids(old, less, next_id);
        lemma_reconciled(old, less, next_id);
        let (done, id0) = reconciled(old, less, next_id);
        let last = set.last();
        let n = lines.len() - 1;
        assert(set =~= done.push(last));
        lemma_latest(old, lines[n]);
        assert forall|i: int| 0 <= i < done.len() implies (#[trigger] done[i]).id != last.id by {
            if is_restored(old, lines, n) {
                let b = latest(old, lines[n])->0;
                if is_restored(old, less, i) {
                    lemma_latest(old, less[i]);
                    let a = latest(old, less[i])->0;
                    assert(lines[i] != lines[n]);
                    assert(less[i] == lines[i]);
                    assert(old[a].id != old[b].id);
                } else {
                    let f = choose|f: int| next_id <= f < id0 && done[i] == #[trigger] fresh(
                        f,
                        less[i],
                    );
                    assert(old[b].id < next_id);
                }
            } else {
                assert(done[i].id < id0);
                let f = choose|f: int| next_id <= f < id && set[n] == #[trigger] fresh(f, lines[n]);
                assert(last == fresh(id0, lines.last())) by {
                    if latest(old, lines.last()) is Some && !less.contains(lines.last()) {
                        assert forall|j: int| 0 <= j < n implies #[trigger] lines[j] != lines[n] by {
                            assert(less[j] == lines[j]);
                            assert(less.contains(less[j]));
                        }
                        assert(is_restored(old, lines, n));
                    }
                }
            }
        }
        assert(last.id < id) by {
            if is_restored(old, lines, n) {
                assert(last.id == old[latest(old, lines[n])->0].id);
            }
        }
    }
}

proof fn lemma_parked_ids(old: Seq<Breakpoint>, lines: Seq<u32>, count: int, next_id: int)
    requires
        0 <= count <= old.len(),
        ids_unique(old, next_id),
    ensures
        ids_unique(parked(old, lines, count), next_id),
    decreases count,
{
    if count > 0 {
        lemma_parked_ids(old, lines, count - 1, next_id);
        lemma_parked(old, lines, count - 1);
        let less = parked(old, lines, count - 1);
        if is_parked(old, lines, count - 1) {
            assert forall|k: int| 0 <= k < less.len() implies (#[trigger] less[k]).id != old[count
                - 1].id by {
                let i = choose|i: int|
                    0 <= i < count - 1 && is_parked(old, lines, i) && less[k]
                        == #[trigger] disabled(old[i]);
                assert(old[i].id != old[count - 1].id);
            }
        }
    }
}

/// Setting breakpoints keeps their ids unique.
pub proof fn law_ids_stay_unique(old: Seq<Breakpoint>, lines: Seq<u32>, next_id: int)
    requires
        ids_unique(old, next_id),
        i64::MIN <= next_id,
        next_id + lines.len() <= i64::MAX,
    ensures
        ids_unique(updated(old, lines, next_id), reconciled(old, lines, next_id).1),
{
    let (set, id) = reconciled(old, lines, next_id);
    let kept = parked(old, lines, old.len() as int);
    lemma_reconciled(old, lines, next_id);
    lemma_reconciled_ids(old, lines, next_id);
    lemma_parked(old, lines, old.len() as int);
    lemma_parked_ids(old, lines, old.len() as int, next_id);
    let all = updated(old, lines, next_id);
    assert forall|i: int, j: int| 0 <= i < j < all.len() implies (#[trigger] all[i]).id != (
    #[trigger] all[j]).id by {
        if j < set.len() {
            assert(all[i] == set[i] && all[j] == set[j]);
        } else if i >= set.len() {
            assert(all[i] == kept[i - set.len()] && all[j] == kept[j - set.len()]);
        } else {
            assert(all[i] == set[i]);
            assert(all[j] == kept[j - set.len()]);
            let b = choose|b: int|
                0 <= b < old.len() && is_parked(old, lines, b) && kept[j - set.len()]
                    == #[trigger] disabled(old[b]);
            if is_restored(old, lines, i) {
                lemma_latest(old, lines[i]);
                let a = latest(old, lines[i])->0;
                assert(lines.contains(lines[i]));
                assert(a != b);
                assert(old[a].id != old[b].id);
            } else {
                let f = choose|f: int| next_id <= f < id && set[i] == #[trigger] fresh(f, lines[i]);
                assert(old[b].id < next_id);
            }
        }
    }
    assert forall|i: int| 0 <= i < all.len() implies (#[trigger] all[i]).id < id by {
        if i < set.len() {
            assert(all[i] == set[i]);
        } else {
            assert(all[i] == kept[i - set.len()]);
        }
    }
}

/// The breakpoints that are set stand at the lines that were asked for, in their
/// order, and all others of the document are disabled.
pub proof fn law_set_at_lines(old: Seq<Breakpoint>, lines: Seq<u32>, next_id: int)
    ensures
        updated(old, lines, next_id).len() >= lines.len(),
        forall|k: int|
            0 <= k < lines.len() ==> (#[trigger] updated(old, lines, next_id)[k]).original_line
                == lines[k] && !(updated(old, lines, next_id)[k].state is Disabled),
        forall|k: int|
            lines.len() <= k < updated(old, lines, next_id).len() ==> (#[trigger] updated(
                old,
                lines,
                next_id,
            )[k]).state is Disabled && !lines.contains(
                updated(old, lines, next_id)[k].original_line,
            ),
{
    let (set, id) = reconciled(old, lines, next_id);
    let kept = parked(old, lines, old.len() as int);
    lemma_reconciled(old, lines, next_id);
    lemma_parked(old, lines, old.len() as int);
    let all = updated(old, lines, next_id);
    assert forall|k: int| 0 <= k < lines.len() implies (#[trigger] all[k]).original_line == lines[k]
        && !(all[k].state is Disabled) by {
        assert(all[k] == set[k]);
        if !is_restored(old, lines, k) {
            let f = choose|f: int| next_id <= f < id && set[k] == #[trigger] fresh(f, lines[k]);
        }
    }
    assert forall|k: int| lines.len() <= k < all.len() implies (#[trigger] all[k]).state is Disabled
        && !lines.contains(all[k].original_line) by {
        assert(all[k] == kept[k - set.len()]);
        let b = choose|b: int|
            0 <= b < old.len() && is_parked(old, lines, b) && kept[k - set.len()]
                == #[trigger] disabled(old[b]);
    }
}

/// In a document without breakpoints, or whose breakpoints are discarded, all
/// breakpoints that are set are new and unverified.
pub proof fn law_new_document(lines: Seq<u32>, next_id: int)
    ensures
        updated(Seq::empty(), lines, next_id) == Seq::new(
            lines.len(),
            |k: int| fresh(next_id + k, lines[k]),
        ),
        reconciled(Seq::empty(), lines, next_id).1 == next_id + lines.len(),
    decreases lines.len(),
{
    if lines.len() > 0 {
        law_new_document(lines.drop_last(), next_id);
        let less = lines.drop_last();
        assert(updated(Seq::empty(), less, next_id) =~= reconciled(Seq::empty(), less, next_id).0);
    }
    assert(updated(Seq::empty(), lines, next_id) =~= reconciled(Seq::empty(), lines, next_id).0);
    assert(updated(Seq::empty(), lines, next_id) =~= Seq::new(
        lines.len(),
        |k: int| fresh(next_id + k, lines[k]),
    ));
}

/// A breakpoint that was verified and is not set is kept as a disabled one, with its id
/// and its place, however often others are set.
pub proof fn law_unset_is_kept(old: Seq<Breakpoint>, i: int, lines: Seq<u32>, next_id: int)
    requires
        0 <= i < old.len(),
        old[i].state is Verified || old[i].state is Disabled,
        latest(old, old[i].original_line) == Some(i),
        !lines.contains(old[i].original_line),
    ensures
        updated(old, lines, next_id).contains(disabled(old[i])),
{
    let set = reconciled(old, lines, next_id).0;
    let kept = parked(old, lines, old.len() as int);
    lemma_parked(old, lines, old.len() as int);
    assert(is_parked(old, lines, i));
    let p = choose|p: int| 0 <= p < kept.len() && kept[p] == disabled(old[i]);
    assert(updated(old, lines, next_id)[set.len() + p] == kept[p]);
}

/// A breakpoint that was verified, that the user unsets and sets again, in a document
/// that did not change, is the same breakpoint: it has its id and its place, and it is
/// verified without its code being evaluated again.
pub proof fn law_unset_and_set_again(
    old: Seq<Breakpoint>,
    i: int,
    without: Seq<u32>,
    again: Seq<u32>,
    k: int,
    next_id: int,
)
    requires
        0 <= i < old.len(),
        old[i].state is Verified || old[i].state is Disabled,
        latest(old, old[i].original_line) == Some(i),
        !without.contains(old[i].original_line),
        0 <= k < again.len(),
        again[k] == old[i].original_line,
        forall|j: int| 0 <= j < k ==> #[trigger] again[j] != again[k],
    ensures
        ({
            let parted = updated(old, without, next_id);
            let next = reconciled(old, without, next_id).1;
            updated(parted, again, next)[k] == (Breakpoint {
                state: BreakpointState::Verified,
                injected: true,
                ..old[i]
            })
        }),
{
    let line = old[i].original_line;
    let (set, next) = reconciled(old, without, next_id);
    let kept = parked(old, without, old.len() as int);
    let parted = updated(old, without, next_id);
    lemma_reconciled(old, without, next_id);
    lemma_parked(old, without, old.len() as int);
    law_set_at_lines(old, without, next_id);
    assert(is_parked(old, without, i));
    let p = choose|p: int| 0 <= p < kept.len() && kept[p] == disabled(old[i]);
    assert(parted[set.len() + p] == kept[p]);
    lemma_latest(parted, line);
    lemma_reconciled(parted, again, next);
    let found = latest(parted, line);
    assert(found is Some);
    let q = found->0;
    // Whatever stands at that line is the one breakpoint that was kept for it.
    if q < set.len() {
        assert(parted[q].original_line == without[q]);
        assert(without.contains(without[q]));
    }
    assert(parted[q] == kept[q - set.len()]);
    let b = choose|b: int|
        0 <= b < old.len() && is_parked(old, without, b) && kept[q - set.len()]
            == #[trigger] disabled(old[b]);
    assert(old[b].original_line == line);
    assert(b == i);
    assert(is_restored(parted, again, k));
    assert(reconciled(parted, again, next).0[k] == restored(parted[q], line));
}

/// Setting the breakpoints of a document again at the same lines changes none of them:
/// each keeps its id, its place and its state.
pub proof fn law_setting_again_changes_nothing(
    old: Seq<Breakpoint>,
    lines: Seq<u32>,
    next_id: int,
    k: int,
)
    requires
        forall|i: int, j: int|
            0 <= i < j < lines.len() ==> #[trigger] lines[i] != #[trigger] lines[j],
        0 <= k < lines.len(),
    ensures
        ({
            let set = updated(old, lines, next_id);
            let next = reconciled(old, lines, next_id).1;
            updated(set, lines, next)[k] == set[k] && reconciled(set, lines, next).1 == next
        }),
{
    let set = updated(old, lines, next_id);
    let next = reconciled(old, lines, next_id).1;
    law_set_at_lines(old, lines, next_id);
    lemma_reconciled(old, lines, next_id);
    lemma_reconciled(set, lines, next);
    lemma_latest(set, lines[k]);
    let q = latest(set, lines[k])->0;
    assert(set[k].original_line == lines[k]);
    assert(q == k) by {
        if q >= lines.len() {
            assert(lines.contains(lines[k]));
        }
    }
    assert(is_restored(set, lines, k));
    assert(updated(set, lines, next)[k] == reconciled(set, lines, next).0[k]);
    let first = reconciled(old, lines, next_id).0;
    assert(set[k] == first[k]);
    if !is_restored(old, lines, k) {
        let f = choose|f: int| next_id <= f < next && first[k] == #[trigger] fresh(f, lines[k]);
    }
    assert(!(set[k].state is Invalid) && !(set[k].state is Disabled));
    assert forall|i: int| 0 <= i < lines.len() implies exists|b: int|
        0 <= b < set.len() && (#[trigger] set[b]).original_line == #[trigger] lines[i] by {
        assert(set[i].original_line == lines[i]);
    }
    lemma_all_restored(set, lines, next);
}

proof fn lemma_all_restored(old: Seq<Breakpoint>, lines: Seq<u32>, next_id: int)
    requires
        forall|i: int, j: int|
            0 <= i < j < lines.len() ==> #[trigger] lines[i] != #[trigger] lines[j],
        forall|i: int|
            0 <= i < lines.len() ==> exists|b: int|
                0 <= b < old.len() && (#[trigger] old[b]).original_line == #[trigger] lines[i],
    ensures
        reconciled(old, lines, next_id).1 == next_id,
    decreases lines.len(),
{
    if lines.len() > 0 {
        let less = lines.drop_last();
        let n = lines.len() - 1;
        assert forall|i: int| 0 <= i < less.len() implies exists|b: int|
            0 <= b < old.len() && (#[trigger] old[b]).original_line == #[trigger] less[i] by {
            assert(less[i] == lines[i]);
        }
        lemma_all_restored(old, less, next_id);
        let b = choose|b: int|
            0 <= b < old.len() && (#[trigger] old[b]).original_line == lines[n];
        lemma_latest(old, lines[n]);
        assert(latest(old, lines[n]) is Some);
        if less.contains(lines[n]) {
            let i = choose|i: int| 0 <= i < less.len() && less[i] == lines[n];
            assert(lines[i] == lines[n]);
        }
    }
}

/// What becomes of a breakpoint that is set again: one that was verified stays so, one
/// that was disabled is verified at once, one that was invalid is to be checked again, and
/// one that was not yet verified stays so. It keeps its id and its place.
pub proof fn law_states_of_breakpoints_set_again(old: Breakpoint, line: u32)
    ensures
        restored(old, line).id == old.id,
        restored(old, line).line == old.line,
        restored(old, line).original_line == line,
        old.state is Verified ==> restored(old, line).state is Verified,
        old.state is Disabled ==> restored(old, line).state is Verified,
        old.state is Unverified ==> restored(old, line).state is Unverified,
        old.state is Invalid ==> restored(old, line).state is Unverified && !restored(
            old,
            line,
        ).injected,
        !(old.state is Invalid) ==> restored(old, line).injected == old.injected,
{
}

} // verus!
