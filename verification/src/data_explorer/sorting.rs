//! Sorting of numbers, and of columns by texts.
use vstd::prelude::*;
use vstd::relations::{sorted_by, total_ordering};

use crate::text;

verus! {

/// Numbers in ascending order.
pub open spec fn ascending(s: Seq<i64>) -> Seq<i64> {
    s.sort_by(|a: i64, b: i64| a <= b)
}

/// The numbers never fall.
pub open spec fn never_falls(s: Seq<i64>) -> bool {
    forall|i: int, j: int| 0 <= i <= j < s.len() ==> s[i] <= s[j]
}

/// Numbers that never fall are the only ones in ascending order with these contents.
pub proof fn lemma_ascending(s: Seq<i64>, t: Seq<i64>)
    requires
        never_falls(t),
        s.to_multiset() == t.to_multiset(),
    ensures
        t == ascending(s),
{
    let leq = |a: i64, b: i64| a <= b;
    assert(total_ordering(leq));
    s.lemma_sort_by_ensures(leq);
    assert(sorted_by(t, leq));
    vstd::seq_lib::lemma_sorted_unique(s.sort_by(leq), t, leq);
}

/// What is in ascending order never falls, and has the same contents.
pub proof fn lemma_ascending_never_falls(s: Seq<i64>)
    ensures
        never_falls(ascending(s)),
        ascending(s).to_multiset() == s.to_multiset(),
        ascending(s).len() == s.len(),
{
    let leq = |a: i64, b: i64| a <= b;
    assert(total_ordering(leq));
    s.lemma_sort_by_ensures(leq);
    s.to_multiset_ensures();
    s.sort_by(leq).to_multiset_ensures();
    assert forall|i: int, j: int| 0 <= i <= j < ascending(s).len() implies ascending(s)[i]
        <= ascending(s)[j] by {
        if i < j {
            assert(leq(ascending(s)[i], ascending(s)[j]));
        }
    }
}

/// Sorts numbers in ascending order.
pub fn sort_ascending(v: Vec<i64>) -> (r: Vec<i64>)
    ensures
        r@ == ascending(v@),
{
    let mut r: Vec<i64> = Vec::new();
    let n: usize = v.len();
    let mut i: usize = 0;
    assert(v@.take(0) =~= Seq::<i64>::empty());
    while i < n
        invariant
            n == v@.len(),
            i <= n,
            r@.len() == i,
            never_falls(r@),
            r@.to_multiset() == v@.take(i as int).to_multiset(),
        decreases n - i,
    {
        let x: i64 = v[i];
        let mut p: usize = 0;
        let len: usize = r.len();
        while p < len && r[p] <= x
            invariant
                len == r@.len(),
                p <= len,
                forall|k: int| 0 <= k < p ==> r@[k] <= x,
            decreases len - p,
        {
            p = p + 1;
        }
        let ghost before = r@;
        r.insert(p, x);
        proof {
            vstd::seq_lib::to_multiset_insert(before, p as int, x);
            assert(v@.take(i + 1) =~= v@.take(i as int).push(x));
            v@.take(i as int).to_multiset_ensures();
            assert forall|a: int, b: int| 0 <= a <= b < r@.len() implies r@[a] <= r@[b] by {
                if a < p && b > p {
                    assert(before[a] <= before[b - 1]);
                } else if a == p && b > p {
                    assert(x < before[p as int]);
                    assert(before[p as int] <= before[b - 1]);
                } else if a > p {
                    assert(before[a - 1] <= before[b - 1]);
                } else if b < p {
                    assert(before[a] <= before[b]);
                }
            }
        }
        i = i + 1;
    }
    assert(v@.take(n as int) =~= v@);
    proof {
        lemma_ascending(v@, r@);
    }
    r
}

/// A text comes before another: it does in a dictionary whose alphabet is ordered by
/// the numbers of its characters.
pub open spec fn comes_before(a: Seq<char>, b: Seq<char>) -> bool
    decreases a.len(),
{
    if b.len() == 0 {
        false
    } else if a.len() == 0 {
        true
    } else if a[0] != b[0] {
        a[0] < b[0]
    } else {
        comes_before(a.skip(1), b.skip(1))
    }
}

/// Texts are totally ordered.
pub proof fn lemma_one_comes_before(a: Seq<char>, b: Seq<char>)
    ensures
        !(comes_before(a, b) && comes_before(b, a)),
        a == b || comes_before(a, b) || comes_before(b, a),
        a == b ==> !comes_before(a, b),
    decreases a.len(),
{
    if a.len() > 0 && b.len() > 0 {
        if a[0] == b[0] {
            lemma_one_comes_before(a.skip(1), b.skip(1));
            if a.skip(1) == b.skip(1) {
                assert(a =~= seq![a[0]] + a.skip(1));
                assert(b =~= seq![b[0]] + b.skip(1));
            }
        }
    } else if a.len() == 0 && b.len() == 0 {
        assert(a =~= b);
    }
}

pub proof fn lemma_before_transitive(a: Seq<char>, b: Seq<char>, c: Seq<char>)
    requires
        comes_before(a, b),
        comes_before(b, c),
    ensures
        comes_before(a, c),
    decreases a.len(),
{
    if a.len() > 0 && a[0] == b[0] && b[0] == c[0] {
        lemma_before_transitive(a.skip(1), b.skip(1), c.skip(1));
    }
}

/// Whether a text comes before another.
pub fn text_before(a: &str, b: &str) -> (r: bool)
    ensures
        r == comes_before(a@, b@),
{
    let x: Vec<char> = text::chars_of(a);
    let y: Vec<char> = text::chars_of(b);
    let nx: usize = x.len();
    let ny: usize = y.len();
    let mut i: usize = 0;
    assert(x@.skip(0) =~= x@);
    assert(y@.skip(0) =~= y@);
    while i < nx && i < ny
        invariant
            nx == x@.len(),
            ny == y@.len(),
            i <= nx,
            i <= ny,
            x@ == a@,
            y@ == b@,
            comes_before(a@, b@) == comes_before(x@.skip(i as int), y@.skip(i as int)),
        decreases nx - i,
    {
        let c: char = x[i];
        let d: char = y[i];
        assert(x@.skip(i as int)[0] == c);
        assert(y@.skip(i as int)[0] == d);
        assert(x@.skip(i as int).skip(1) =~= x@.skip(i + 1));
        assert(y@.skip(i as int).skip(1) =~= y@.skip(i + 1));
        if c != d {
            return c < d;
        }
        i = i + 1;
    }
    i < ny
}

/// How texts are ordered.
#[derive(Clone, Copy, Debug, PartialEq, Eq, Structural)]
pub enum Direction {
    Ascending,
    Descending,
}

/// A text has its place ahead of another's.
pub open spec fn ahead(direction: Direction, a: Seq<char>, b: Seq<char>) -> bool {
    match direction {
        Direction::Ascending => comes_before(a, b),
        Direction::Descending => comes_before(b, a),
    }
}

/// The numbers of texts stand in the order of these texts. Numbers of equal texts
/// stand in ascending order.
pub open spec fn in_order(s: Seq<i64>, keys: Seq<String>, direction: Direction) -> bool {
    forall|i: int, j: int|
        #![trigger s[i], s[j]]
        0 <= i < j < s.len() ==> ahead(direction, keys[s[i] as int]@, keys[s[j] as int]@) || (
        keys[s[i] as int]@ == keys[s[j] as int]@ && s[i] < s[j])
}

proof fn lemma_ahead(direction: Direction, a: Seq<char>, b: Seq<char>, c: Seq<char>)
    ensures
        !(ahead(direction, a, b) && ahead(direction, b, a)),
        a == b || ahead(direction, a, b) || ahead(direction, b, a),
        ahead(direction, a, b) && ahead(direction, b, c) ==> ahead(direction, a, c),
{
    lemma_one_comes_before(a, b);
    if comes_before(a, b) && comes_before(b, c) {
        lemma_before_transitive(a, b, c);
    }
    if comes_before(c, b) && comes_before(b, a) {
        lemma_before_transitive(c, b, a);
    }
}

/// Sorts the numbers of texts, which are given in ascending order, by these texts.
pub fn sort_by_text(v: Vec<i64>, keys: &Vec<String>, direction: Direction) -> (r: Vec<i64>)
    requires
        forall|i: int| 0 <= i < v@.len() ==> 0 <= #[trigger] v@[i] < keys@.len(),
        forall|i: int, j: int| 0 <= i < j < v@.len() ==> v@[i] < v@[j],
    ensures
        r@.to_multiset() == v@.to_multiset(),
        in_order(r@, keys@, direction),
{
    let mut r: Vec<i64> = Vec::new();
    let n: usize = v.len();
    let m: usize = keys.len();
    let mut i: usize = 0;
    assert(v@.take(0) =~= Seq::<i64>::empty());
    while i < n
        invariant
            n == v@.len(),
            m == keys@.len(),
            i <= n,
            r@.len() == i,
            forall|k: int| 0 <= k < v@.len() ==> 0 <= #[trigger] v@[k] < keys@.len(),
            forall|k: int, l: int| 0 <= k < l < v@.len() ==> v@[k] < v@[l],
            forall|k: int| 0 <= k < r@.len() ==> 0 <= #[trigger] r@[k] < keys@.len(),
            i < n ==> forall|k: int| 0 <= k < r@.len() ==> #[trigger] r@[k] < v@[i as int],
            in_order(r@, keys@, direction),
            r@.to_multiset() == v@.take(i as int).to_multiset(),
        decreases n - i,
    {
        let x: i64 = v[i];
        let mut p: usize = 0;
        let len: usize = r.len();
        let mut found: bool = false;
        while p < len && !found
            invariant
                len == r@.len(),
                m == keys@.len(),
                p <= len,
                0 <= x < keys@.len(),
                forall|k: int| 0 <= k < r@.len() ==> 0 <= #[trigger] r@[k] < keys@.len(),
                forall|k: int|
                    0 <= k < p ==> !ahead(
                        direction,
                        keys@[x as int]@,
                        keys@[#[trigger] r@[k] as int]@,
                    ),
                found ==> p < len && ahead(direction, keys@[x as int]@, keys@[r@[p as int] as int]@),
            decreases
                    len - p,
                    (if found {
                        0int
                    } else {
                        1int
                    }),
        {
            let other: &str = keys[r[p] as usize].as_str();
            let own: &str = keys[x as usize].as_str();
            let goes_ahead: bool = match direction {
                Direction::Ascending => text_before(own, other),
                Direction::Descending => text_before(other, own),
            };
            if goes_ahead {
                found = true;
            } else {
                p = p + 1;
            }
        }
        let ghost before = r@;
        r.insert(p, x);
        proof {
            vstd::seq_lib::to_multiset_insert(before, p as int, x);
            assert(v@.take(i + 1) =~= v@.take(i as int).push(x));
            v@.take(i as int).to_multiset_ensures();
            assert forall|a: int, b: int|
                #![trigger r@[a], r@[b]]
                0 <= a < b < r@.len() implies ahead(
                direction,
                keys@[r@[a] as int]@,
                keys@[r@[b] as int]@,
            ) || (keys@[r@[a] as int]@ == keys@[r@[b] as int]@ && r@[a] < r@[b]) by {
                let kx = keys@[x as int]@;
                if a < p && b > p {
                    assert(before[a] == r@[a] && before[b - 1] == r@[b]);
                } else if b < p {
                    assert(before[a] == r@[a] && before[b] == r@[b]);
                } else if a > p {
                    assert(before[a - 1] == r@[a] && before[b - 1] == r@[b]);
                } else if b == p {
                    assert(before[a] == r@[a]);
                    lemma_ahead(direction, kx, keys@[before[a] as int]@, kx);
                } else {
                    let kp = keys@[before[p as int] as int]@;
                    let kb = keys@[before[b - 1] as int]@;
                    assert(before[b - 1] == r@[b]);
                    assert(ahead(direction, kx, kp));
                    if b - 1 > p {
                        lemma_ahead(direction, kx, kp, kb);
                    }
                }
            }
            assert forall|k: int| 0 <= k < r@.len() implies 0 <= #[trigger] r@[k]
                < keys@.len() by {
                if k < p {
                    assert(r@[k] == before[k]);
                } else if k > p {
                    assert(r@[k] == before[k - 1]);
                }
            }
            if i + 1 < n {
                assert(v@[i as int] < v@[i + 1]);
                assert forall|k: int| 0 <= k < r@.len() implies #[trigger] r@[k] < v@[i + 1] by {
                    if k < p {
                        assert(r@[k] == before[k]);
                    } else if k > p {
                        assert(r@[k] == before[k - 1]);
                    }
                }
            }
        }
        i = i + 1;
    }
    assert(v@.take(n as int) =~= v@);
    r
}

/// Texts are ordered by their first difference: by the characters that differ, or the
/// shorter text first where one starts the other.
pub proof fn law_order_of_texts(a: Seq<char>, b: Seq<char>, k: int)
    requires
        0 <= k <= a.len(),
        k <= b.len(),
        a.take(k) == b.take(k),
        k < a.len() && k < b.len() ==> a[k] != b[k],
    ensures
        k < a.len() && k < b.len() ==> comes_before(a, b) == (a[k] < b[k]),
        k == a.len() && k < b.len() ==> comes_before(a, b) && !comes_before(b, a),
        k == a.len() && k == b.len() ==> a == b && !comes_before(a, b),
    decreases k,
{
    if k > 0 {
        assert(a.take(k)[0] == b.take(k)[0]);
        let x = a.skip(1);
        let y = b.skip(1);
        assert(x.take(k - 1) =~= a.take(k).skip(1));
        assert(y.take(k - 1) =~= b.take(k).skip(1));
        if k < a.len() && k < b.len() {
            assert(x[k - 1] == a[k] && y[k - 1] == b[k]);
        }
        law_order_of_texts(x, y, k - 1);
        assert(a[0] == a.take(k)[0] && b[0] == b.take(k)[0]);
        if k == a.len() && k == b.len() {
            assert(a =~= a.take(k));
            assert(b =~= b.take(k));
        }
    } else if a.len() == 0 && b.len() == 0 {
        assert(a =~= b);
    }
}

/// Sorting numbers keeps them all, as often as they come, and puts no larger one before
/// a smaller one.
pub proof fn law_sorted_numbers(s: Seq<i64>)
    ensures
        ascending(s).len() == s.len(),
        ascending(s).to_multiset() == s.to_multiset(),
        forall|i: int, j: int|
            0 <= i <= j < s.len() ==> #[trigger] ascending(s)[i] <= #[trigger] ascending(s)[j],
{
    let leq = |a: i64, b: i64| a <= b;
    s.lemma_sort_by_ensures(leq);
    s.to_multiset_ensures();
    ascending(s).to_multiset_ensures();
    lemma_ascending_never_falls(s);
}

} // verus!
