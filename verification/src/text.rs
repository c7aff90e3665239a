//! Text primitives shared by the rest of the library, stated over sequences of
//! characters.
use vstd::prelude::*;

verus! {

/// `String::push` appends one character.
pub assume_specification[ std::string::String::push ](s: &mut std::string::String, c: char)
    ensures
        final(s)@ == old(s)@.push(c),
;

/// `str::eq` compares the characters of two strings.
pub assume_specification[ <str as PartialEq>::eq ](a: &str, b: &str) -> (r: bool)
    ensures
        r == (a@ == b@),
;

/// The texts that a sequence of strings holds.
pub open spec fn texts(s: Seq<String>) -> Seq<Seq<char>> {
    s.map_values(|x: String| x@)
}

/// The text that an optional string holds.
pub open spec fn opt_text(s: Option<String>) -> Option<Seq<char>> {
    match s {
        Some(x) => Some(x@),
        None => None,
    }
}

/// The characters of a text that may be missing.
pub open spec fn opt_str(s: Option<&str>) -> Option<Seq<char>> {
    match s {
        Some(x) => Some(x@),
        None => None,
    }
}

/// `p` stands in `s` at offset `i`.
pub open spec fn occurs_at(s: Seq<char>, p: Seq<char>, i: int) -> bool {
    &&& 0 <= i
    &&& i + p.len() <= s.len()
    &&& s.subrange(i, i + p.len()) == p
}

/// `p` stands somewhere in `s`.
pub open spec fn contains_text(s: Seq<char>, p: Seq<char>) -> bool {
    exists|i: int| #[trigger] occurs_at(s, p, i)
}

/// Whether two strings hold the same characters.
pub fn same(a: &str, b: &str) -> (r: bool)
    ensures
        r == (a@ == b@),
{
    a.eq(b)
}

/// The characters of `s`, one by one.
pub fn chars_of(s: &str) -> (v: Vec<char>)
    ensures
        v@ == s@,
{
    let mut v: Vec<char> = Vec::new();
    for c in it: s.chars()
        invariant
            it.seq() == s@,
            v@ == s@.take(it.index() as int),
    {
        v.push(c);
    }
    v
}

/// The number of bytes in which a text is encoded.
pub fn byte_len(s: &str) -> (n: usize)
    ensures
        n == vstd::utf8::encode_utf8(s@).len(),
{
    s.as_bytes().len()
}

/// The string made of the characters of `v`.
pub fn string_of(v: &Vec<char>) -> (s: String)
    ensures
        s@ == v@,
{
    let mut s: String = String::new();
    let n: usize = v.len();
    let mut i: usize = 0;
    while i < n
        invariant
            n == v@.len(),
            i <= n,
            s@ == v@.take(i as int),
        decreases n - i,
    {
        s.push(v[i]);
        i = i + 1;
    }
    s
}

/// The string made of the characters `from..to` of `v`.
pub fn string_of_range(v: &Vec<char>, from: usize, to: usize) -> (s: String)
    requires
        from <= to <= v@.len(),
    ensures
        s@ == v@.subrange(from as int, to as int),
{
    let mut s: String = String::new();
    let mut i: usize = from;
    while i < to
        invariant
            from <= i <= to <= v@.len(),
            s@ == v@.subrange(from as int, i as int),
        decreases to - i,
    {
        s.push(v[i]);
        i = i + 1;
    }
    s
}

/// Whether `p` stands in `s` at offset `i`.
pub fn occurs(s: &Vec<char>, p: &Vec<char>, i: usize) -> (r: bool)
    ensures
        r == occurs_at(s@, p@, i as int),
{
    let n: usize = s.len();
    let m: usize = p.len();
    if i > n || m > n - i {
        return false;
    }
    let mut k: usize = 0;
    while k < m
        invariant
            n == s@.len(),
            m == p@.len(),
            i + m <= n,
            k <= m,
            forall|j: int| 0 <= j < k ==> s@[i + j] == p@[j],
        decreases m - k,
    {
        if s[i + k] != p[k] {
            assert(s@.subrange(i as int, i + m)[k as int] != p@[k as int]);
            return false;
        }
        k = k + 1;
    }
    assert(s@.subrange(i as int, i + m) =~= p@);
    true
}

/// Whether `s` starts with `p`.
pub fn starts_with(s: &str, p: &str) -> (r: bool)
    ensures
        r == p@.is_prefix_of(s@),
{
    let sv: Vec<char> = chars_of(s);
    let pv: Vec<char> = chars_of(p);
    let r: bool = occurs(&sv, &pv, 0);
    assert(occurs_at(s@, p@, 0) == p@.is_prefix_of(s@));
    r
}

/// Whether `s` ends with `p`.
pub fn ends_with(s: &str, p: &str) -> (r: bool)
    ensures
        r == p@.is_suffix_of(s@),
{
    let sv: Vec<char> = chars_of(s);
    let pv: Vec<char> = chars_of(p);
    if pv.len() > sv.len() {
        return false;
    }
    occurs(&sv, &pv, sv.len() - pv.len())
}

/// Whether `p` stands somewhere in `s`.
pub fn contains(s: &str, p: &str) -> (r: bool)
    ensures
        r == contains_text(s@, p@),
{
    let sv: Vec<char> = chars_of(s);
    let pv: Vec<char> = chars_of(p);
    if pv.len() > sv.len() {
        return false;
    }
    let last: usize = sv.len() - pv.len();
    let mut i: usize = 0;
    while i <= last
        invariant
            sv@ == s@,
            pv@ == p@,
            last == s@.len() - p@.len(),
            last < usize::MAX || i <= last,
            i <= last + 1,
            forall|j: int| 0 <= j < i ==> !#[trigger] occurs_at(s@, p@, j),
        decreases last + 1 - i,
    {
        if occurs(&sv, &pv, i) {
            return true;
        }
        if i == last {
            return false;
        }
        i = i + 1;
    }
    false
}

/// Two strings holding the same characters, one after the other.
pub fn join2(a: &str, b: &str) -> (r: String)
    ensures
        r@ == a@ + b@,
{
    let mut r: String = a.to_owned();
    r.append(b);
    r
}

/// Three strings, one after the other.
pub fn join3(a: &str, b: &str, c: &str) -> (r: String)
    ensures
        r@ == a@ + b@ + c@,
{
    let mut r: String = a.to_owned();
    r.append(b);
    r.append(c);
    r
}

/// The texts of `parts`, with `sep` between each two.
pub open spec fn joined(parts: Seq<Seq<char>>, sep: Seq<char>) -> Seq<char>
    decreases parts.len(),
{
    if parts.len() == 0 {
        Seq::empty()
    } else if parts.len() == 1 {
        parts[0]
    } else {
        joined(parts.drop_last(), sep) + sep + parts.last()
    }
}

/// The strings of `parts`, with `sep` between each two.
pub fn join(parts: &Vec<String>, sep: &str) -> (r: String)
    ensures
        r@ == joined(texts(parts@), sep@),
{
    let mut r: String = String::new();
    let n: usize = parts.len();
    let mut i: usize = 0;
    while i < n
        invariant
            n == parts@.len(),
            i <= n,
            r@ == joined(texts(parts@).take(i as int), sep@),
        decreases n - i,
    {
        if i > 0 {
            r.append(sep);
        }
        r.append(parts[i].as_str());
        proof {
            let t = texts(parts@);
            assert(t.take(i + 1).drop_last() =~= t.take(i as int));
            assert(t.take(i + 1).last() == parts@[i as int]@);
        }
        i = i + 1;
    }
    assert(texts(parts@).take(n as int) =~= texts(parts@));
    r
}

/// The characters that Unicode gives the property `White_Space`.
pub open spec fn is_white_space(c: char) -> bool {
    ||| '\u{9}' <= c <= '\u{d}'
    ||| c == ' '
    ||| c == '\u{85}'
    ||| c == '\u{a0}'
    ||| c == '\u{1680}'
    ||| '\u{2000}' <= c <= '\u{200a}'
    ||| c == '\u{2028}'
    ||| c == '\u{2029}'
    ||| c == '\u{202f}'
    ||| c == '\u{205f}'
    ||| c == '\u{3000}'
}

/// Whether `c` is white space.
pub fn white_space(c: char) -> (r: bool)
    ensures
        r == is_white_space(c),
{
    ('\u{9}' <= c && c <= '\u{d}') || c == ' ' || c == '\u{85}' || c == '\u{a0}' || c == '\u{1680}'
        || ('\u{2000}' <= c && c <= '\u{200a}') || c == '\u{2028}' || c == '\u{2029}' || c
        == '\u{202f}' || c == '\u{205f}' || c == '\u{3000}'
}

/// `s` without the white space at its end.
pub open spec fn trimmed_end(s: Seq<char>) -> Seq<char>
    decreases s.len(),
{
    if s.len() > 0 && is_white_space(s.last()) {
        trimmed_end(s.drop_last())
    } else {
        s
    }
}

/// `s` without the white space at its start.
pub open spec fn trimmed_start(s: Seq<char>) -> Seq<char>
    decreases s.len(),
{
    if s.len() > 0 && is_white_space(s[0]) {
        trimmed_start(s.drop_first())
    } else {
        s
    }
}

/// `s` without the white space at either end.
pub open spec fn trimmed(s: Seq<char>) -> Seq<char> {
    trimmed_end(trimmed_start(s))
}

/// `s` without the white space at either end.
pub fn trim(s: &str) -> (r: String)
    ensures
        r@ == trimmed(s@),
{
    let v: Vec<char> = chars_of(s);
    let n: usize = v.len();
    let mut from: usize = 0;
    assert(s@.skip(0) =~= s@);
    while from < n && white_space(v[from])
        invariant
            v@ == s@,
            n == v@.len(),
            from <= n,
            trimmed_start(s@) == trimmed_start(s@.skip(from as int)),
        decreases n - from,
    {
        assert(s@.skip(from as int).drop_first() =~= s@.skip(from + 1));
        from = from + 1;
    }
    let ghost t = s@.skip(from as int);
    assert(trimmed_start(s@) == t);
    let mut to: usize = n;
    while to > from && white_space(v[to - 1])
        invariant
            v@ == s@,
            n == v@.len(),
            from <= to <= n,
            t == s@.skip(from as int),
            trimmed_end(t) == trimmed_end(s@.subrange(from as int, to as int)),
        decreases to,
    {
        assert(s@.subrange(from as int, to as int).drop_last() =~= s@.subrange(
            from as int,
            to - 1,
        ));
        to = to - 1;
    }
    string_of_range(&v, from, to)
}

/// `s` without the white space at its end.
pub fn trim_end(s: &str) -> (r: String)
    ensures
        r@ == trimmed_end(s@),
{
    let v: Vec<char> = chars_of(s);
    let n: usize = v.len();
    let mut to: usize = n;
    assert(s@.take(n as int) =~= s@);
    while to > 0 && white_space(v[to - 1])
        invariant
            v@ == s@,
            n == v@.len(),
            to <= n,
            trimmed_end(s@) == trimmed_end(s@.take(to as int)),
        decreases to,
    {
        assert(s@.take(to as int).drop_last() =~= s@.take(to - 1));
        to = to - 1;
    }
    string_of_range(&v, 0, to)
}

/// The decimal digit that stands for `d`.
pub open spec fn digit_char(d: nat) -> char {
    if d == 0 {
        '0'
    } else if d == 1 {
        '1'
    } else if d == 2 {
        '2'
    } else if d == 3 {
        '3'
    } else if d == 4 {
        '4'
    } else if d == 5 {
        '5'
    } else if d == 6 {
        '6'
    } else if d == 7 {
        '7'
    } else if d == 8 {
        '8'
    } else {
        '9'
    }
}

/// `n` in decimal digits.
pub open spec fn decimal(n: nat) -> Seq<char>
    decreases n,
{
    if n < 10 {
        seq![digit_char(n)]
    } else {
        decimal(n / 10).push(digit_char(n % 10))
    }
}

/// `i` in decimal digits, after a minus sign where it is negative.
pub open spec fn decimal_int(i: int) -> Seq<char> {
    if i < 0 {
        seq!['-'] + decimal((-i) as nat)
    } else {
        decimal(i as nat)
    }
}

fn digit(d: u64) -> (c: char)
    requires
        d < 10,
    ensures
        c == digit_char(d as nat),
{
    match d {
        0 => '0',
        1 => '1',
        2 => '2',
        3 => '3',
        4 => '4',
        5 => '5',
        6 => '6',
        7 => '7',
        8 => '8',
        _ => '9',
    }
}

/// `n` in decimal digits.
pub fn u64_text(n: u64) -> (s: String)
    ensures
        s@ == decimal(n as nat),
    decreases n,
{
    if n < 10 {
        let mut s: String = String::new();
        s.push(digit(n));
        assert(s@ =~= decimal(n as nat));
        s
    } else {
        let mut s: String = u64_text(n / 10);
        s.push(digit(n % 10));
        s
    }
}

/// `n` in decimal digits, after a minus sign where it is negative.
pub fn i64_text(n: i64) -> (s: String)
    ensures
        s@ == decimal_int(n as int),
{
    if n >= 0 {
        u64_text(n as u64)
    } else {
        let m: u64 = if n == i64::MIN {
            0x8000_0000_0000_0000u64
        } else {
            (-n) as u64
        };
        let mut s: String = String::new();
        s.push('-');
        s.append(u64_text(m).as_str());
        assert(seq!['-'] =~= Seq::empty().push('-'));
        s
    }
}

/// The number of a decimal digit.
pub open spec fn digit_value(c: char) -> Option<nat> {
    if '0' <= c <= '9' {
        Some((c as nat - '0' as nat) as nat)
    } else {
        None
    }
}

/// Whether `c` is an ASCII digit, and which.
pub fn digit_of(c: char) -> (r: Option<u64>)
    ensures
        r is Some == digit_value(c) is Some,
        r matches Some(d) ==> d == digit_value(c)->0 && d < 10,
{
    if '0' <= c && c <= '9' {
        Some((c as u32 - '0' as u32) as u64)
    } else {
        None
    }
}

/// The ways in which a text fails to be a number.
#[derive(Clone, Copy, PartialEq, Eq, Debug, Structural)]
pub enum IntError {
    Empty,
    InvalidDigit,
    PosOverflow,
}

/// What reading the digits of `s` from left to right onto `acc` gives.
pub open spec fn digits_value(s: Seq<char>, acc: nat) -> Result<nat, IntError>
    decreases s.len(),
{
    if s.len() == 0 {
        Ok(acc)
    } else {
        match digit_value(s[0]) {
            None => Err(IntError::InvalidDigit),
            Some(d) => if acc * 10 + d > u64::MAX {
                Err(IntError::PosOverflow)
            } else {
                digits_value(s.drop_first(), acc * 10 + d)
            },
        }
    }
}

/// The number that `s` denotes: decimal digits, with or without a plus sign
/// before them.
pub open spec fn u64_value(s: Seq<char>) -> Result<nat, IntError> {
    if s.len() == 0 {
        Err(IntError::Empty)
    } else if s.len() == 1 && (s[0] == '+' || s[0] == '-') {
        Err(IntError::InvalidDigit)
    } else if s[0] == '+' {
        digits_value(s.drop_first(), 0)
    } else {
        digits_value(s, 0)
    }
}

/// Reads a number without sign.
pub fn parse_u64(s: &str) -> (r: Result<u64, IntError>)
    ensures
        match r {
            Ok(n) => u64_value(s@) == Ok::<nat, IntError>(n as nat),
            Err(e) => u64_value(s@) == Err::<nat, IntError>(e),
        },
{
    let v: Vec<char> = chars_of(s);
    let n: usize = v.len();
    if n == 0 {
        return Err(IntError::Empty);
    }
    if n == 1 && (v[0] == '+' || v[0] == '-') {
        return Err(IntError::InvalidDigit);
    }
    let mut i: usize = if v[0] == '+' {
        1
    } else {
        0
    };
    let mut acc: u64 = 0;
    assert(s@.skip(0) =~= s@);
    assert(s@.skip(1) =~= s@.drop_first());
    while i < n
        invariant
            v@ == s@,
            n == v@.len(),
            i <= n,
            u64_value(s@) == digits_value(s@.skip(i as int), acc as nat),
        decreases n - i,
    {
        assert(s@.skip(i as int)[0] == v@[i as int]);
        assert(s@.skip(i as int).drop_first() =~= s@.skip(i + 1));
        match digit_of(v[i]) {
            None => {
                return Err(IntError::InvalidDigit);
            },
            Some(d) => {
                if acc > (u64::MAX - d) / 10 {
                    return Err(IntError::PosOverflow);
                }
                acc = acc * 10 + d;
            },
        }
        i = i + 1;
    }
    Ok(acc)
}

impl IntError {
    /// What the failure is called in a message.
    pub open spec fn spec_message(self) -> Seq<char> {
        match self {
            IntError::Empty => "cannot parse integer from empty string"@,
            IntError::InvalidDigit => "invalid digit found in string"@,
            IntError::PosOverflow => "number too large to fit in target type"@,
        }
    }

    /// What the failure is called in a message.
    pub fn message(&self) -> (r: &'static str)
        ensures
            r@ == self.spec_message(),
    {
        match self {
            IntError::Empty => "cannot parse integer from empty string",
            IntError::InvalidDigit => "invalid digit found in string",
            IntError::PosOverflow => "number too large to fit in target type",
        }
    }
}

/// `s` with every occurrence of `from`, taken from left to right, replaced by
/// `to`.
pub open spec fn replaced(s: Seq<char>, from: Seq<char>, to: Seq<char>) -> Seq<char>
    decreases s.len(),
{
    if s.len() == 0 {
        s
    } else if from.len() > 0 && occurs_at(s, from, 0) {
        to + replaced(s.skip(from.len() as int), from, to)
    } else {
        seq![s[0]] + replaced(s.skip(1), from, to)
    }
}

/// `s` with every occurrence of `from` replaced by `to`.
pub fn replace(s: &str, from: &str, to: &str) -> (r: String)
    requires
        from@.len() > 0,
    ensures
        r@ == replaced(s@, from@, to@),
{
    let sv: Vec<char> = chars_of(s);
    let fv: Vec<char> = chars_of(from);
    let n: usize = sv.len();
    let m: usize = fv.len();
    let mut r: String = String::new();
    let mut i: usize = 0;
    assert(s@.skip(0) =~= s@);
    while i < n
        invariant
            sv@ == s@,
            fv@ == from@,
            n == s@.len(),
            m == from@.len(),
            m > 0,
            i <= n,
            r@ + replaced(s@.skip(i as int), from@, to@) == replaced(s@, from@, to@),
        decreases n - i,
    {
        let ghost rest = s@.skip(i as int);
        let ghost before = r@;
        if occurs(&sv, &fv, i) {
            proof {
                assert(rest.subrange(0, m as int) =~= s@.subrange(i as int, i + m));
                assert(rest.skip(m as int) =~= s@.skip(i + m));
            }
            r.append(to);
            i = i + m;
            assert(before + (to@ + replaced(s@.skip(i as int), from@, to@)) =~= r@ + replaced(
                s@.skip(i as int),
                from@,
                to@,
            ));
        } else {
            proof {
                if occurs_at(rest, from@, 0) {
                    assert(rest.subrange(0, m as int) =~= s@.subrange(i as int, i + m));
                }
                assert(rest.skip(1) =~= s@.skip(i + 1));
            }
            r.push(sv[i]);
            i = i + 1;
            assert(before + (seq![rest[0]] + replaced(s@.skip(i as int), from@, to@)) =~= r@
                + replaced(s@.skip(i as int), from@, to@));
        }
    }
    assert(r@ + replaced(s@.skip(n as int), from@, to@) =~= r@);
    r
}

/// A text in which the pattern does not stand is left as it is.
pub proof fn lemma_replaced_absent(s: Seq<char>, from: Seq<char>, to: Seq<char>)
    requires
        !contains_text(s, from),
    ensures
        replaced(s, from, to) == s,
    decreases s.len(),
{
    if s.len() > 0 {
        assert(!occurs_at(s, from, 0));
        let rest = s.skip(1);
        assert forall|i: int| !#[trigger] occurs_at(rest, from, i) by {
            if occurs_at(rest, from, i) {
                assert(rest.subrange(i, i + from.len()) =~= s.subrange(i + 1, i + 1 + from.len()));
                assert(occurs_at(s, from, i + 1));
            }
        }
        lemma_replaced_absent(rest, from, to);
        assert(seq![s[0]] + rest =~= s);
    }
}

/// Replacing a pattern by itself changes nothing.
pub proof fn lemma_replaced_same(s: Seq<char>, from: Seq<char>)
    ensures
        replaced(s, from, from) == s,
    decreases s.len(),
{
    if s.len() > 0 {
        if from.len() > 0 && occurs_at(s, from, 0) {
            lemma_replaced_same(s.skip(from.len() as int), from);
            assert(from + s.skip(from.len() as int) =~= s);
        } else {
            lemma_replaced_same(s.skip(1), from);
            assert(seq![s[0]] + s.skip(1) =~= s);
        }
    }
}

/// `s` without a carriage return at its end.
pub open spec fn without_return(s: Seq<char>) -> Seq<char> {
    if s.len() > 0 && s.last() == '\r' {
        s.drop_last()
    } else {
        s
    }
}

/// The lines of `s`: what stands between line feeds, each line that a line feed
/// ends without the carriage return before it. There is one more line than
/// there are line feeds.
pub open spec fn lines_of(s: Seq<char>) -> Seq<Seq<char>>
    decreases s.len(),
{
    if s.contains('\n') {
        let i = s.index_of_first('\n')->0;
        if 0 <= i < s.len() {
            seq![without_return(s.take(i))] + lines_of(s.skip(i + 1))
        } else {
            Seq::empty()
        }
    } else {
        seq![s]
    }
}

/// The lines of `s`.
pub fn split_lines(s: &str) -> (r: Vec<String>)
    ensures
        texts(r@) == lines_of(s@),
        r@.len() >= 1,
{
    let v: Vec<char> = chars_of(s);
    let n: usize = v.len();
    let mut r: Vec<String> = Vec::new();
    let mut from: usize = 0;
    let mut i: usize = 0;
    assert(s@.skip(0) =~= s@);
    assert(texts(r@) + lines_of(s@.skip(0)) =~= lines_of(s@));
    while i < n
        invariant
            v@ == s@,
            n == v@.len(),
            from <= i <= n,
            forall|k: int| from <= k < i ==> s@[k] != '\n',
            texts(r@) + lines_of(s@.skip(from as int)) == lines_of(s@),
        decreases n - i,
    {
        if v[i] == '\n' {
            let ghost rest = s@.skip(from as int);
            let ghost before = r@;
            let line: String = if i > from && v[i - 1] == '\r' {
                string_of_range(&v, from, i - 1)
            } else {
                string_of_range(&v, from, i)
            };
            proof {
                let k = i - from;
                rest.index_of_first_ensures('\n');
                assert(rest[k] == '\n');
                assert(rest.contains('\n'));
                assert(rest.index_of_first('\n') == Some(k));
                assert(rest.take(k) =~= s@.subrange(from as int, i as int));
                assert(line@ =~= without_return(rest.take(k)));
                assert(rest.skip(k + 1) =~= s@.skip(i + 1));
            }
            r.push(line);
            proof {
                assert(texts(r@) =~= texts(before).push(line@));
                assert(texts(before) + (seq![line@] + lines_of(s@.skip(i + 1))) =~= texts(r@)
                    + lines_of(s@.skip(i + 1)));
            }
            from = i + 1;
        }
        i = i + 1;
    }
    let ghost rest = s@.skip(from as int);
    let ghost before = r@;
    let line: String = string_of_range(&v, from, n);
    proof {
        assert(line@ =~= rest);
        assert(!rest.contains('\n'));
    }
    r.push(line);
    proof {
        assert(texts(r@) =~= texts(before).push(rest));
        assert(texts(before) + seq![rest] =~= texts(r@));
    }
    r
}

/// The text in lower case.
pub uninterp spec fn lowercase(s: Seq<char>) -> Seq<char>;

/// An ASCII letter in lower case.
pub open spec fn ascii_lower(c: char) -> char {
    if 'A' <= c <= 'Z' {
        ((c as u32 + 32) as u32) as char
    } else {
        c
    }
}

/// `str::to_lowercase` of std: the text in lower case, by the rules of Unicode. It
/// depends on the text alone. Of ASCII text only the letters from `A` to `Z` change,
/// each to the letter that stands 32 places after it.
#[verifier::external_body]
pub(crate) fn to_lowercase(s: &str) -> (r: String)
    ensures
        r@ == lowercase(s@),
        vstd::utf8::is_ascii_chars(s@) ==> r@ == s@.map_values(|c: char| ascii_lower(c)),
{
    s.to_lowercase()
}

proof fn lemma_digits_push(s: Seq<char>, c: char, acc: nat, n: nat)
    requires
        digits_value(s, acc) == Ok::<nat, IntError>(n),
        '0' <= c <= '9',
        n * 10 + (c as nat - '0' as nat) <= u64::MAX,
    ensures
        digits_value(s.push(c), acc) == Ok::<nat, IntError>(
            (n * 10 + (c as nat - '0' as nat)) as nat,
        ),
    decreases s.len(),
{
    if s.len() == 0 {
        let m = (acc * 10 + (c as nat - '0' as nat)) as nat;
        assert(s.push(c).drop_first() =~= Seq::empty());
        assert(s.push(c)[0] == c);
        assert(digits_value(Seq::empty(), m) == Ok::<nat, IntError>(m));
    } else {
        let d = digit_value(s[0])->0;
        lemma_digits_push(s.drop_first(), c, (acc * 10 + d) as nat, n);
        assert(s.push(c).drop_first() =~= s.drop_first().push(c));
        assert(s.push(c)[0] == s[0]);
    }
}

/// A number that is written in digits is read as that number, so that no two numbers are
/// written alike.
pub proof fn law_numbers_read_back(n: nat)
    requires
        n <= u64::MAX,
    ensures
        digits_value(decimal(n), 0) == Ok::<nat, IntError>(n),
        u64_value(decimal(n)) == Ok::<nat, IntError>(n),
        decimal(n).len() > 0,
        '0' <= decimal(n)[0] <= '9',
        n > 0 ==> decimal(n)[0] != '0',
        forall|i: int| 0 <= i < decimal(n).len() ==> '0' <= #[trigger] decimal(n)[i] <= '9',
    decreases n,
{
    if n >= 10 {
        law_numbers_read_back(n / 10);
        lemma_digits_push(decimal(n / 10), digit_char(n % 10), 0, n / 10);
        assert((n / 10) * 10 + n % 10 == n);
    } else {
        let c = digit_char(n);
        let s = decimal(n);
        assert(s[0] == c);
        assert(s.drop_first() =~= Seq::empty());
        assert(digit_value(c) == Some(n));
        assert(digits_value(Seq::empty(), n) == Ok::<nat, IntError>(n));
    }
}

/// A negative number is written as its opposite with a minus sign before it.
pub proof fn law_negative_numbers(i: int)
    ensures
        i >= 0 ==> decimal_int(i) == decimal(i as nat),
        i < 0 ==> decimal_int(i) == seq!['-'] + decimal((-i) as nat),
{
}

/// Texts are joined part by part: two lists of parts that are joined and then put
/// together with the separator are the parts of both joined.
pub proof fn law_joined_in_pieces(a: Seq<Seq<char>>, b: Seq<Seq<char>>, sep: Seq<char>)
    requires
        a.len() > 0,
        b.len() > 0,
    ensures
        joined(a + b, sep) == joined(a, sep) + sep + joined(b, sep),
        a.len() == 1 ==> joined(a, sep) == a[0],
        joined(Seq::empty(), sep).len() == 0,
    decreases b.len(),
{
    let c = a + b;
    if b.len() == 1 {
        assert(c.drop_last() =~= a);
    } else {
        law_joined_in_pieces(a, b.drop_last(), sep);
        assert(c.drop_last() =~= a + b.drop_last());
        assert(joined(a, sep) + sep + joined(b.drop_last(), sep) + sep + b.last() =~= joined(a, sep)
            + sep + (joined(b.drop_last(), sep) + sep + b.last()));
    }
}

/// A text loses the white space at its ends and nothing else.
pub proof fn law_trimmed(s: Seq<char>)
    ensures
        exists|from: int, to: int|
            0 <= from <= to <= s.len() && trimmed(s) == #[trigger] s.subrange(from, to) && (
            forall|i: int| 0 <= i < from || to <= i < s.len() ==> is_white_space(#[trigger] s[i])),
        trimmed(s).len() > 0 ==> !is_white_space(trimmed(s)[0]) && !is_white_space(
            trimmed(s).last(),
        ),
{
    let t = trimmed_start(s);
    let from = lemma_trimmed_start(s);
    let to = lemma_trimmed_end(t);
    assert(trimmed(s) =~= s.subrange(from, from + to));
    assert forall|i: int| 0 <= i < from || from + to <= i < s.len() implies is_white_space(
        #[trigger] s[i],
    ) by {
        if i >= from + to {
            assert(t[i - from] == s[i]);
        }
    }
    if trimmed(s).len() > 0 {
        assert(trimmed(s)[0] == t[0]);
    }
}

proof fn lemma_trimmed_start(s: Seq<char>) -> (from: int)
    ensures
        0 <= from <= s.len(),
        trimmed_start(s) == s.skip(from),
        forall|i: int| 0 <= i < from ==> is_white_space(#[trigger] s[i]),
        trimmed_start(s).len() > 0 ==> !is_white_space(trimmed_start(s)[0]),
    decreases s.len(),
{
    if s.len() > 0 && is_white_space(s[0]) {
        let n = lemma_trimmed_start(s.drop_first());
        assert(s.drop_first().skip(n) =~= s.skip(n + 1));
        assert forall|i: int| 0 <= i < n + 1 implies is_white_space(#[trigger] s[i]) by {
            if i > 0 {
                assert(s.drop_first()[i - 1] == s[i]);
            }
        }
        n + 1
    } else {
        assert(s.skip(0) =~= s);
        0
    }
}

proof fn lemma_trimmed_end(s: Seq<char>) -> (to: int)
    ensures
        0 <= to <= s.len(),
        trimmed_end(s) == s.take(to),
        forall|i: int| to <= i < s.len() ==> is_white_space(#[trigger] s[i]),
        trimmed_end(s).len() > 0 ==> !is_white_space(trimmed_end(s).last()),
    decreases s.len(),
{
    if s.len() > 0 && is_white_space(s.last()) {
        let n = lemma_trimmed_end(s.drop_last());
        assert(s.drop_last().take(n) =~= s.take(n));
        assert forall|i: int| n <= i < s.len() implies is_white_space(#[trigger] s[i]) by {
            if i < s.len() - 1 {
                assert(s.drop_last()[i] == s[i]);
            }
        }
        n
    } else {
        assert(s.take(s.len() as int) =~= s);
        s.len() as int
    }
}

/// The lines of a text without carriage returns are the text again when they are joined
/// by line feeds, and no line holds a line feed.
pub proof fn law_lines_are_the_text(s: Seq<char>)
    requires
        !s.contains('\r'),
    ensures
        joined(lines_of(s), seq!['\n']) == s,
        lines_of(s).len() > 0,
        forall|i: int| 0 <= i < lines_of(s).len() ==> !(#[trigger] lines_of(s)[i]).contains('\n'),
    decreases s.len(),
{
    s.index_of_first_ensures('\n');
    if s.contains('\n') {
        let i = s.index_of_first('\n')->0;
        let first = s.take(i);
        let rest = s.skip(i + 1);
        assert(!rest.contains('\r')) by {
            if rest.contains('\r') {
                let k = choose|k: int| 0 <= k < rest.len() && rest[k] == '\r';
                assert(s[k + i + 1] == '\r');
            }
        }
        assert(without_return(first) == first) by {
            if first.len() > 0 {
                assert(first.last() == s[i - 1]);
                assert(s.contains(s[i - 1]));
            }
        }
        law_lines_are_the_text(rest);
        law_joined_in_pieces(seq![first], lines_of(rest), seq!['\n']);
        assert(joined(seq![first], seq!['\n']) == first);
        assert(first + seq!['\n'] + rest =~= s);
        assert(lines_of(s) == seq![first] + lines_of(rest));
        assert forall|k: int| 0 <= k < lines_of(s).len() implies !(
        #[trigger] lines_of(s)[k]).contains('\n') by {
            if k == 0 {
                assert(lines_of(s)[0] == first);
                if first.contains('\n') {
                    let p = choose|p: int| 0 <= p < first.len() && first[p] == '\n';
                    assert(s[p] == '\n');
                }
            } else {
                assert(lines_of(s)[k] == lines_of(rest)[k - 1]);
            }
        }
    } else {
        assert(lines_of(s) =~= seq![s]);
    }
}

/// A line that a carriage return and a line feed end is the line without them.
pub proof fn law_carriage_returns_end_lines(line: Seq<char>, rest: Seq<char>)
    requires
        !line.contains('\n'),
    ensures
        lines_of(line + seq!['\r', '\n'] + rest) == seq![line] + lines_of(rest),
        lines_of(line + seq!['\n'] + rest)[0] == without_return(line),
{
    let s = line + seq!['\r', '\n'] + rest;
    let n = line.len() as int;
    s.index_of_first_ensures('\n');
    assert(s[n + 1] == '\n');
    let i = s.index_of_first('\n')->0;
    if i < n {
        assert(line[i] == '\n');
    } else if i == n {
        assert(s[n] == '\r');
    }
    assert(i == n + 1);
    assert(s.take(i) =~= line.push('\r'));
    assert(without_return(s.take(i)) =~= line);
    assert(s.skip(i + 1) =~= rest);
    let t = line + seq!['\n'] + rest;
    t.index_of_first_ensures('\n');
    assert(t[n] == '\n');
    let j = t.index_of_first('\n')->0;
    if j < n {
        assert(line[j] == '\n');
    }
    assert(t.take(j) =~= line);
}

/// Replacing a character goes from left to right and leaves every other character.
pub proof fn law_replacing_characters(s: Seq<char>, c: char, d: char, to: Seq<char>)
    ensures
        replaced(Seq::empty(), seq![c], to).len() == 0,
        replaced(seq![c] + s, seq![c], to) == to + replaced(s, seq![c], to),
        d != c ==> replaced(seq![d] + s, seq![c], to) == seq![d] + replaced(s, seq![c], to),
{
    let a = seq![c] + s;
    assert(a.subrange(0, 1) =~= seq![c]);
    assert(a.skip(1) =~= s);
    let b = seq![d] + s;
    assert(b.subrange(0, 1) =~= seq![d]);
    assert(seq![d][0] == d && seq![c][0] == c);
    assert(b.skip(1) =~= s);
}

/// The characters that count as white space.
pub proof fn law_white_space(c: char)
    ensures
        c == ' ' || c == '\t' || c == '\n' || c == '\r' ==> is_white_space(c),
        c == '\u{b}' || c == '\u{c}' || c == '\u{85}' || c == '\u{a0}' || c == '\u{1680}' || c
            == '\u{2028}' || c == '\u{2029}' || c == '\u{202f}' || c == '\u{205f}' || c
            == '\u{3000}' ==> is_white_space(c),
        is_white_space(c) && c < '\u{80}' ==> c == ' ' || '\t' <= c <= '\r',
        is_white_space(c) && c >= '\u{80}' ==> c == '\u{85}' || c == '\u{a0}' || c == '\u{1680}'
            || '\u{2000}' <= c <= '\u{200a}' || c == '\u{2028}' || c == '\u{2029}' || c
            == '\u{202f}' || c == '\u{205f}' || c == '\u{3000}',
        '\u{2000}' <= c <= '\u{200a}' ==> is_white_space(c),
{
}

/// Only the letters from A to Z change in lower case, each to the letter that is 32 places
/// after it.
pub proof fn law_lower_case(c: char)
    ensures
        'A' <= c <= 'Z' ==> ascii_lower(c) as u32 == c as u32 + 32,
        !('A' <= c <= 'Z') ==> ascii_lower(c) == c,
{
}

/// Why a text is no number, in words.
pub proof fn law_messages_of_numbers()
    ensures
        IntError::Empty.spec_message() == "cannot parse integer from empty string"@,
        IntError::InvalidDigit.spec_message() == "invalid digit found in string"@,
        IntError::PosOverflow.spec_message() == "number too large to fit in target type"@,
{
}

} // verus!
