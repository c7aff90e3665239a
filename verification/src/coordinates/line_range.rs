//! Ranges over lines of text.
use vstd::prelude::*;

verus! {

/// Range over lines of text, from `start` up to but without `end`.
#[derive(Clone, Copy, Debug, PartialEq, Eq, Hash, Structural)]
pub struct LineRange {
    pub start: u32,
    pub end: u32,
}

impl LineRange {
    /// The line stands in the range.
    pub open spec fn has(self, line: int) -> bool {
        self.start <= line < self.end
    }

    /// The other range does not reach out of the range at either end.
    pub open spec fn holds(self, other: Self) -> bool {
        self.start <= other.start && other.end <= self.end
    }

    /// The smallest range that holds both ranges.
    pub open spec fn spec_cover(self, other: Self) -> Self {
        LineRange {
            start: if self.start <= other.start {
                self.start
            } else {
                other.start
            },
            end: if self.end >= other.end {
                self.end
            } else {
                other.end
            },
        }
    }

    pub fn new(start: u32, end: u32) -> (r: Self)
        ensures
            r == (LineRange { start, end }),
    {
        Self { start, end }
    }

    pub fn start(&self) -> (r: u32)
        ensures
            r == self.start,
    {
        self.start
    }

    pub fn end(&self) -> (r: u32)
        ensures
            r == self.end,
    {
        self.end
    }

    /// Whether the line stands in the range.
    pub fn contains(&self, line: u32) -> (r: bool)
        ensures
            r == self.has(line as int),
    {
        self.start <= line && line < self.end
    }

    /// The smallest range that holds both ranges.
    pub fn cover(&self, other: Self) -> (r: Self)
        ensures
            r == self.spec_cover(other),
    {
        let start: u32 = if self.start <= other.start {
            self.start
        } else {
            other.start
        };
        let end: u32 = if self.end >= other.end {
            self.end
        } else {
            other.end
        };
        Self::new(start, end)
    }
}

/// The range that covers two ranges holds both, and every range that holds both
/// holds it.
pub proof fn law_cover(a: LineRange, b: LineRange)
    ensures
        a.spec_cover(b).holds(a),
        a.spec_cover(b).holds(b),
        forall|c: LineRange| c.holds(a) && c.holds(b) ==> #[trigger] c.holds(a.spec_cover(b)),
{
}

/// A range has its lines from the first one up to the last one, which is not in it. What
/// covers two ranges starts where the first of them starts and ends where the last one ends.
pub proof fn law_lines_of_a_range(a: LineRange, b: LineRange, line: int)
    ensures
        a.has(line) <==> a.start <= line && line < a.end,
        a.holds(b) <==> a.start <= b.start && b.end <= a.end,
        a.spec_cover(b).start <= a.start && a.spec_cover(b).start <= b.start,
        a.spec_cover(b).start == a.start || a.spec_cover(b).start == b.start,
        a.spec_cover(b).end >= a.end && a.spec_cover(b).end >= b.end,
        a.spec_cover(b).end == a.end || a.spec_cover(b).end == b.end,
        a.has(line) || b.has(line) ==> a.spec_cover(b).has(line),
{
}

} // verus!
