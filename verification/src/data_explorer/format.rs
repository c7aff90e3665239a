//! Formatting of columns for display.
//!
//! The elements of a column come as plain values. Floating point numbers come as
//! texts, with the notation that their magnitude asks for.
use vstd::prelude::*;

use crate::text;

verus! {

/// How numbers are formatted.
#[derive(Debug)]
pub struct FormatOptions {
    pub large_num_digits: i64,
    pub small_num_digits: i64,
    pub max_integral_digits: i64,
    pub max_value_length: i64,
    pub thousands_sep: Option<String>,
}

/// A value for the grid of the frontend: a text, or the code of a special value.
#[derive(Debug, PartialEq, Eq)]
pub enum ColumnValue {
    FormattedValue(String),
    SpecialValueCode(i64),
}

/// What a value for the grid stands for.
#[verifier::ext_equal]
pub enum ColumnValueModel {
    Text(Seq<char>),
    Code(i64),
}

impl View for ColumnValue {
    type V = ColumnValueModel;

    open spec fn view(&self) -> ColumnValueModel {
        match self {
            ColumnValue::FormattedValue(t) => ColumnValueModel::Text(t@),
            ColumnValue::SpecialValueCode(c) => ColumnValueModel::Code(*c),
        }
    }
}

/// A formatted element of a column.
#[derive(Debug)]
pub enum FormattedValue {
    Unknown,
    NULL,
    NA,
    NaN,
    Inf,
    NegInf,
    Value(String),
}

/// What a formatted element stands for.
#[verifier::ext_equal]
pub enum Formatted {
    Unknown,
    NULL,
    NA,
    NaN,
    Inf,
    NegInf,
    Value(Seq<char>),
}

impl View for FormattedValue {
    type V = Formatted;

    open spec fn view(&self) -> Formatted {
        match self {
            FormattedValue::Unknown => Formatted::Unknown,
            FormattedValue::NULL => Formatted::NULL,
            FormattedValue::NA => Formatted::NA,
            FormattedValue::NaN => Formatted::NaN,
            FormattedValue::Inf => Formatted::Inf,
            FormattedValue::NegInf => Formatted::NegInf,
            FormattedValue::Value(v) => Formatted::Value(v@),
        }
    }
}

/// What formatted elements stand for.
pub open spec fn models(values: Seq<FormattedValue>) -> Seq<Formatted> {
    values.map_values(|v: FormattedValue| v@)
}

/// The value for the grid.
pub open spec fn column_value(v: Formatted) -> ColumnValueModel {
    match v {
        Formatted::Unknown => ColumnValueModel::Text("????"@),
        Formatted::NULL => ColumnValueModel::Code(0),
        Formatted::NA => ColumnValueModel::Code(1),
        Formatted::NaN => ColumnValueModel::Code(2),
        Formatted::Inf => ColumnValueModel::Code(10),
        Formatted::NegInf => ColumnValueModel::Code(11),
        Formatted::Value(t) => ColumnValueModel::Text(t),
    }
}

/// The text of a formatted element.
pub open spec fn display_text(v: Formatted) -> Seq<char> {
    match v {
        Formatted::Unknown => "????"@,
        Formatted::NULL => "NULL"@,
        Formatted::NA => "NA"@,
        Formatted::NaN => "NaN"@,
        Formatted::Inf => "Inf"@,
        Formatted::NegInf => "-Inf"@,
        Formatted::Value(t) => t,
    }
}

impl FormattedValue {
    /// The value for the grid.
    pub fn into_column_value(self) -> (r: ColumnValue)
        ensures
            r@ == column_value(self@),
    {
        match self {
            FormattedValue::Unknown => ColumnValue::FormattedValue("????".to_owned()),
            FormattedValue::NULL => ColumnValue::SpecialValueCode(0),
            FormattedValue::NA => ColumnValue::SpecialValueCode(1),
            FormattedValue::NaN => ColumnValue::SpecialValueCode(2),
            FormattedValue::Inf => ColumnValue::SpecialValueCode(10),
            FormattedValue::NegInf => ColumnValue::SpecialValueCode(11),
            FormattedValue::Value(v) => ColumnValue::FormattedValue(v),
        }
    }

    /// The text.
    pub fn into_text(self) -> (r: String)
        ensures
            r@ == display_text(self@),
    {
        match self {
            FormattedValue::Unknown => "????".to_owned(),
            FormattedValue::NULL => "NULL".to_owned(),
            FormattedValue::NA => "NA".to_owned(),
            FormattedValue::NaN => "NaN".to_owned(),
            FormattedValue::Inf => "Inf".to_owned(),
            FormattedValue::NegInf => "-Inf".to_owned(),
            FormattedValue::Value(v) => v,
        }
    }
}

/// The first `max_len` characters, or all if there are not as many.
pub open spec fn truncated(s: Seq<char>, max_len: i64) -> Seq<char> {
    if (max_len as usize) < s.len() {
        s.take((max_len as usize) as int)
    } else {
        s
    }
}

/// Cuts a text after `max_len` characters.
pub fn truncate_inplace(s: &mut String, max_len: i64)
    ensures
        final(s)@ == truncated(old(s)@, max_len),
{
    #[verifier::truncate]
    let max: usize = max_len as usize;
    let v: Vec<char> = text::chars_of(s.as_str());
    if max < v.len() {
        *s = text::string_of_range(&v, 0, max);
    }
}

/// A formatted element with its text cut after `max_len` characters.
pub open spec fn truncated_value(v: Formatted, max_len: i64) -> Formatted {
    match v {
        Formatted::Value(t) => Formatted::Value(truncated(t, max_len)),
        other => other,
    }
}

/// The number of characters from the first decimal point to the end.
pub open spec fn fraction_len(s: Seq<char>) -> int {
    if s.contains('.') {
        s.len() - s.index_of_first('.')->0
    } else {
        0
    }
}

/// The last `k` characters of a number, with a separator before every third digit
/// from the decimal point on, and the number of digits before the point.
pub open spec fn grouped(s: Seq<char>, k: int, sep: Seq<char>) -> (Seq<char>, int)
    decreases k,
{
    if k <= 0 || k > s.len() {
        (Seq::empty(), 0)
    } else {
        let (rest, count) = grouped(s, k - 1, sep);
        let c = s[s.len() - k];
        if k - 1 < fraction_len(s) || c == '-' {
            (seq![c] + rest, count)
        } else if count != 0 && count % 3 == 0 {
            (seq![c] + sep + rest, count + 1)
        } else {
            (seq![c] + rest, count + 1)
        }
    }
}

/// A number with a separator between thousands.
pub open spec fn with_thousands_sep(s: Seq<char>, sep: Option<Seq<char>>) -> Seq<char> {
    match sep {
        None => s,
        Some(sep) => grouped(s, s.len() as int, sep).0,
    }
}

fn reversed_text(v: &Vec<char>) -> (r: String)
    ensures
        r@ == v@.reverse(),
{
    let mut r: String = String::new();
    let n: usize = v.len();
    let mut i: usize = 0;
    while i < n
        invariant
            n == v@.len(),
            i <= n,
            r@ == v@.reverse().take(i as int),
        decreases n - i,
    {
        r.push(v[n - 1 - i]);
        i = i + 1;
    }
    r
}

fn fraction_chars(v: &Vec<char>) -> (r: usize)
    ensures
        r == fraction_len(v@),
{
    let n: usize = v.len();
    let mut i: usize = 0;
    while i < n && v[i] != '.'
        invariant
            n == v@.len(),
            i <= n,
            forall|k: int| 0 <= k < i ==> v@[k] != '.',
        decreases n - i,
    {
        i = i + 1;
    }
    proof {
        v@.index_of_first_ensures('.');
    }
    if i < n {
        assert(v@[i as int] == '.');
        assert(v@.index_of_first('.') == Some(i as int));
        n - i
    } else {
        assert(!v@.contains('.'));
        0
    }
}

/// Appends the characters of `v`, the last one first.
fn push_reversed(out: &mut Vec<char>, v: &Vec<char>)
    ensures
        final(out)@ == old(out)@ + v@.reverse(),
{
    let n: usize = v.len();
    let mut i: usize = 0;
    while i < n
        invariant
            n == v@.len(),
            i <= n,
            out@ == old(out)@ + v@.reverse().take(i as int),
        decreases n - i,
    {
        out.push(v[n - 1 - i]);
        assert(v@.reverse().take(i + 1) =~= v@.reverse().take(i as int).push(v@[n - 1 - i]));
        i = i + 1;
    }
    assert(v@.reverse().take(n as int) =~= v@.reverse());
}

/// Separates the thousands of a number.
pub fn apply_thousands_sep(x: String, sep: Option<&str>) -> (r: String)
    ensures
        r@ == with_thousands_sep(
            x@,
            match sep {
                Some(s) => Some(s@),
                None => None,
            },
        ),
{
    let sep: &str = match sep {
        None => {
            return x;
        },
        Some(sep) => sep,
    };
    let v: Vec<char> = text::chars_of(x.as_str());
    let separator: Vec<char> = text::chars_of(sep);
    let n: usize = v.len();
    let fraction: usize = fraction_chars(&v);
    // The result is built from its end.
    let mut out: Vec<char> = Vec::new();
    let mut count: usize = 0;
    let mut i: usize = 0;
    assert(out@.reverse() =~= Seq::empty());
    while i < n
        invariant
            v@ == x@,
            separator@ == sep@,
            n == v@.len(),
            fraction == fraction_len(x@),
            i <= n,
            count <= i,
            (out@.reverse(), count as int) == grouped(x@, i as int, sep@),
        decreases n - i,
    {
        let c: char = v[n - 1 - i];
        let ghost before = out@;
        let ghost rest = before.reverse();
        if i < fraction || c == '-' {
            out.push(c);
            assert(out@.reverse() =~= seq![c] + rest);
        } else {
            if count % 3 == 0 && count != 0 {
                push_reversed(&mut out, &separator);
                out.push(c);
                assert(out@.reverse() =~= seq![c] + sep@ + rest);
            } else {
                out.push(c);
                assert(out@.reverse() =~= seq![c] + rest);
            }
            count = count + 1;
        }
        i = i + 1;
    }
    reversed_text(&out)
}

/// The text from the first `e` on.
pub open spec fn exponent_part(s: Seq<char>) -> Seq<char> {
    s.skip(s.index_of_first('e')->0)
}

/// The exponent has a sign and at most one digit.
pub open spec fn short_exponent(s: Seq<char>) -> bool {
    s.contains('e') && vstd::utf8::encode_utf8(exponent_part(s)).len() <= 3
}

/// A number in scientific notation with at least two digits in its exponent, which
/// starts with a sign.
pub open spec fn padded_exponent(s: Seq<char>) -> Seq<char> {
    if short_exponent(s) {
        s.insert(s.index_of_first('e')->0 + 2, '0')
    } else {
        s
    }
}

/// An exponent that is short starts with a sign, or with another character of one byte.
pub open spec fn pad_ok(s: Seq<char>) -> bool {
    short_exponent(s) ==> exponent_part(s).len() >= 2 && exponent_part(s)[1] < '\u{80}'
}

/// Whether the exponent of a number in scientific notation can be padded.
pub fn can_pad(x: &str) -> (r: bool)
    ensures
        r == pad_ok(x@),
{
    let v: Vec<char> = text::chars_of(x);
    let n: usize = v.len();
    let mut e: usize = 0;
    while e < n && v[e] != 'e'
        invariant
            v@ == x@,
            n == v@.len(),
            e <= n,
            forall|k: int| 0 <= k < e ==> v@[k] != 'e',
        decreases n - e,
    {
        e = e + 1;
    }
    proof {
        x@.index_of_first_ensures('e');
    }
    if e == n {
        assert(!x@.contains('e'));
        return true;
    }
    assert(x@[e as int] == 'e');
    assert(x@.index_of_first('e') == Some(e as int));
    let exponent: String = text::string_of_range(&v, e, n);
    assert(exponent@ =~= exponent_part(x@));
    if exponent.as_str().as_bytes().len() > 3 {
        return true;
    }
    n - e >= 2 && v[e + 1] < '\u{80}'
}

/// Pads the exponent of a number in scientific notation to two digits. The exponent
/// has to start with a sign.
pub fn pad_exponent(x: String) -> (r: String)
    requires
        pad_ok(x@),
    ensures
        r@ == padded_exponent(x@),
{
    let v: Vec<char> = text::chars_of(x.as_str());
    let n: usize = v.len();
    let mut e: usize = 0;
    while e < n && v[e] != 'e'
        invariant
            v@ == x@,
            n == v@.len(),
            e <= n,
            forall|k: int| 0 <= k < e ==> v@[k] != 'e',
        decreases n - e,
    {
        e = e + 1;
    }
    proof {
        x@.index_of_first_ensures('e');
    }
    if e == n {
        assert(!x@.contains('e'));
        return x;
    }
    assert(x@[e as int] == 'e');
    assert(x@.index_of_first('e') == Some(e as int));
    let exponent: String = text::string_of_range(&v, e, n);
    assert(exponent@ =~= exponent_part(x@));
    if exponent.as_str().as_bytes().len() > 3 {
        return x;
    }
    let mut padded: Vec<char> = v;
    padded.insert(e + 2, '0');
    text::string_of(&padded)
}

/// A floating point number, by how it is to be formatted.
#[derive(Debug)]
pub enum DblText {
    NA,
    NaN,
    Inf,
    NegInf,
    /// A number of many digits, in scientific notation without a sign before a
    /// positive exponent.
    Large(String),
    /// A number of at least one, with a fixed number of digits.
    Medium(String),
    /// A number below one, with a fixed number of digits.
    Small(String),
    /// Zero, with a fixed number of digits.
    Zero(String),
    /// A number close to zero, in scientific notation.
    VerySmall(String),
}

/// A number in scientific notation with a sign before its exponent.
pub open spec fn with_plus(s: Seq<char>) -> Seq<char> {
    text::replaced(s, "e"@, "e+"@)
}

/// The notations have exponents that can be padded.
pub open spec fn dbl_ok(x: DblText) -> bool {
    match x {
        DblText::Large(t) => pad_ok(with_plus(t@)),
        DblText::VerySmall(t) => pad_ok(t@),
        _ => true,
    }
}

/// The separator of the options.
pub open spec fn separator(options: FormatOptions) -> Option<Seq<char>> {
    text::opt_text(options.thousands_sep)
}

/// A formatted floating point number.
pub open spec fn dbl_formatted(x: DblText, options: FormatOptions) -> Formatted {
    match x {
        DblText::NA => Formatted::NA,
        DblText::NaN => Formatted::NaN,
        DblText::Inf => Formatted::Inf,
        DblText::NegInf => Formatted::NegInf,
        DblText::Large(t) => Formatted::Value(padded_exponent(with_plus(t@))),
        DblText::Medium(t) => Formatted::Value(with_thousands_sep(t@, separator(options))),
        DblText::Small(t) => Formatted::Value(with_thousands_sep(t@, separator(options))),
        DblText::Zero(t) => Formatted::Value(t@),
        DblText::VerySmall(t) => Formatted::Value(padded_exponent(t@)),
    }
}

fn sep_of(options: &FormatOptions) -> (r: Option<&str>)
    ensures
        match r {
            Some(s) => separator(*options) == Some(s@),
            None => separator(*options) is None,
        },
{
    match &options.thousands_sep {
        Some(s) => Some(s.as_str()),
        None => None,
    }
}

/// Formats a floating point number.
pub fn format_dbl_elt(x: &DblText, options: &FormatOptions) -> (r: FormattedValue)
    requires
        dbl_ok(*x),
    ensures
        r@ == dbl_formatted(*x, *options),
{
    match x {
        DblText::NA => FormattedValue::NA,
        DblText::NaN => FormattedValue::NaN,
        DblText::Inf => FormattedValue::Inf,
        DblText::NegInf => FormattedValue::NegInf,
        DblText::Large(t) => {
            proof {
                reveal_strlit("e");
            }
            FormattedValue::Value(pad_exponent(text::replace(t.as_str(), "e", "e+")))
        },
        DblText::Medium(t) => FormattedValue::Value(
            apply_thousands_sep(t.clone(), sep_of(options)),
        ),
        DblText::Small(t) => FormattedValue::Value(
            apply_thousands_sep(t.clone(), sep_of(options)),
        ),
        DblText::Zero(t) => FormattedValue::Value(t.clone()),
        DblText::VerySmall(t) => FormattedValue::Value(pad_exponent(t.clone())),
    }
}

/// A formatted integer.
pub open spec fn int_formatted(x: Option<i32>, options: FormatOptions) -> Formatted {
    match x {
        None => Formatted::NA,
        Some(v) => Formatted::Value(
            with_thousands_sep(text::decimal_int(v as int), separator(options)),
        ),
    }
}

/// Formats an integer.
pub fn format_int_elt(x: Option<i32>, options: &FormatOptions) -> (r: FormattedValue)
    ensures
        r@ == int_formatted(x, *options),
{
    match x {
        None => FormattedValue::NA,
        Some(v) => FormattedValue::Value(
            apply_thousands_sep(text::i64_text(v as i64), sep_of(options)),
        ),
    }
}

/// `s` without the blanks at its end.
pub open spec fn no_blanks_end(s: Seq<char>) -> Seq<char>
    decreases s.len(),
{
    if s.len() > 0 && s.last() == ' ' {
        no_blanks_end(s.drop_last())
    } else {
        s
    }
}

/// `s` without the blanks at its start.
pub open spec fn no_blanks_start(s: Seq<char>) -> Seq<char>
    decreases s.len(),
{
    if s.len() > 0 && s[0] == ' ' {
        no_blanks_start(s.drop_first())
    } else {
        s
    }
}

/// `s` without the blanks at either end.
pub open spec fn no_blanks(s: Seq<char>) -> Seq<char> {
    no_blanks_end(no_blanks_start(s))
}

/// `s` without the blanks at either end.
pub fn trim_blanks(s: &str) -> (r: String)
    ensures
        r@ == no_blanks(s@),
{
    let v: Vec<char> = text::chars_of(s);
    let n: usize = v.len();
    let mut from: usize = 0;
    assert(s@.skip(0) =~= s@);
    while from < n && v[from] == ' '
        invariant
            v@ == s@,
            n == v@.len(),
            from <= n,
            no_blanks_start(s@) == no_blanks_start(s@.skip(from as int)),
        decreases n - from,
    {
        assert(s@.skip(from as int).drop_first() =~= s@.skip(from + 1));
        from = from + 1;
    }
    let ghost t = s@.skip(from as int);
    assert(no_blanks_start(s@) == t);
    let mut to: usize = n;
    while to > from && v[to - 1] == ' '
        invariant
            v@ == s@,
            n == v@.len(),
            from <= to <= n,
            t == s@.skip(from as int),
            no_blanks_end(t) == no_blanks_end(s@.subrange(from as int, to as int)),
        decreases to,
    {
        assert(s@.subrange(from as int, to as int).drop_last() =~= s@.subrange(
            from as int,
            to - 1,
        ));
        to = to - 1;
    }
    string_between(&v, from, to)
}

fn string_between(v: &Vec<char>, from: usize, to: usize) -> (r: String)
    requires
        from <= to <= v@.len(),
    ensures
        r@ == v@.subrange(from as int, to as int),
{
    text::string_of_range(v, from, to)
}

/// An element of a list, by what is shown of it.
#[derive(Debug)]
pub struct ListElement {
    /// The classes of the element, or none if R cannot tell them.
    pub class: Vec<String>,
    /// The dimensions of the element, or none if it has none.
    pub dims: Vec<i32>,
    pub length: i64,
}

/// The dimensions as texts.
pub open spec fn dim_texts(dims: Seq<i32>) -> Seq<Seq<char>> {
    dims.map_values(|d: i32| text::decimal_int(d as int))
}

/// What is shown of an element of a list: its class, and its dimensions or its
/// length.
pub open spec fn list_element_text(x: ListElement) -> Seq<char> {
    "<"@ + (if x.class@.len() == 0 {
        "????:"@
    } else {
        x.class@[0]@
    }) + " ["@ + (if x.dims@.len() == 0 {
        text::decimal_int(x.length as int)
    } else {
        text::joined(dim_texts(x.dims@), " x "@)
    }) + "]>"@
}

/// What is shown of an element of a list.
pub fn format_list_elt(x: &ListElement) -> (r: String)
    ensures
        r@ == list_element_text(*x),
{
    let class: String = if x.class.len() == 0 {
        "????:".to_owned()
    } else {
        x.class[0].clone()
    };
    let dims: String = if x.dims.len() == 0 {
        text::i64_text(x.length)
    } else {
        let mut parts: Vec<String> = Vec::new();
        let n: usize = x.dims.len();
        let mut i: usize = 0;
        assert(text::texts(parts@) =~= dim_texts(x.dims@).take(0));
        while i < n
            invariant
                n == x.dims@.len(),
                i <= n,
                text::texts(parts@) == dim_texts(x.dims@).take(i as int),
            decreases n - i,
        {
            let ghost before = parts@;
            parts.push(text::i64_text(x.dims[i] as i64));
            assert(text::texts(parts@) =~= text::texts(before).push(dim_texts(x.dims@)[i as int]));
            assert(dim_texts(x.dims@).take(i + 1) =~= dim_texts(x.dims@).take(i as int).push(
                dim_texts(x.dims@)[i as int],
            ));
            i = i + 1;
        }
        assert(dim_texts(x.dims@).take(n as int) =~= dim_texts(x.dims@));
        text::join(&parts, " x ")
    };
    let mut r: String = text::join3("<", class.as_str(), " [");
    r.append(dims.as_str());
    r.append("]>");
    r
}

/// The elements of a column.
#[derive(Debug)]
pub enum ColumnData {
    /// A column with a class: what R's `format()` gives for each element, if it
    /// does, which elements R's `is.na()` says are missing, if it does, and the
    /// number of elements.
    Classed {
        formatted: Option<Vec<Option<String>>>,
        is_na: Option<Vec<Option<bool>>>,
        length: usize,
    },
    Double(Vec<DblText>),
    Integer(Vec<Option<i32>>),
    Character(Vec<Option<String>>),
    Logical(Vec<Option<bool>>),
    /// The parts of each number.
    Complex(Vec<Option<(String, String)>>),
    /// `None` stands for `NULL`.
    List(Vec<Option<ListElement>>),
    /// A column of a type that is not supported, with the number of elements.
    Unsupported { length: usize },
}

/// What R's `format()` gives for an element.
pub open spec fn object_formatted(x: Option<String>) -> Formatted {
    match x {
        Some(v) => Formatted::Value(no_blanks(v@)),
        None => Formatted::NA,
    }
}

/// Elements of unknown format.
pub open spec fn all_unknown(n: nat) -> Seq<Formatted> {
    Seq::new(n, |i: int| Formatted::Unknown)
}

/// The number of elements for which both are known.
pub open spec fn shorter(a: nat, b: nat) -> nat {
    if a <= b {
        a
    } else {
        b
    }
}

/// The elements of a column, formatted but not cut.
pub open spec fn uncut(data: ColumnData, options: FormatOptions) -> Seq<Formatted> {
    match data {
        ColumnData::Classed { formatted, is_na, length } => match formatted {
            None => all_unknown(length as nat),
            Some(f) => match is_na {
                None => f@.map_values(|x: Option<String>| object_formatted(x)),
                Some(na) => Seq::new(
                    shorter(na@.len(), f@.len()),
                    |i: int|
                        if na@[i] == Some(true) {
                            Formatted::NA
                        } else {
                            object_formatted(f@[i])
                        },
                ),
            },
        },
        ColumnData::Double(x) => x@.map_values(|e: DblText| dbl_formatted(e, options)),
        ColumnData::Integer(x) => x@.map_values(|e: Option<i32>| int_formatted(e, options)),
        ColumnData::Character(x) => x@.map_values(
            |e: Option<String>|
                match e {
                    Some(v) => Formatted::Value(v@),
                    None => Formatted::NA,
                },
        ),
        ColumnData::Logical(x) => x@.map_values(
            |e: Option<bool>|
                match e {
                    Some(true) => Formatted::Value("TRUE"@),
                    Some(false) => Formatted::Value("FALSE"@),
                    None => Formatted::NA,
                },
        ),
        ColumnData::Complex(x) => x@.map_values(
            |e: Option<(String, String)>|
                match e {
                    Some((re, im)) => Formatted::Value(re@ + "+"@ + im@ + "i"@),
                    None => Formatted::NA,
                },
        ),
        ColumnData::List(x) => x@.map_values(
            |e: Option<ListElement>|
                match e {
                    Some(elt) => Formatted::Value(list_element_text(elt)),
                    None => Formatted::NULL,
                },
        ),
        ColumnData::Unsupported { length } => all_unknown(length as nat),
    }
}

/// The elements of a column, formatted.
pub open spec fn formatted_column(data: ColumnData, options: FormatOptions) -> Seq<Formatted> {
    uncut(data, options).map_values(|v: Formatted| truncated_value(v, options.max_value_length))
}

/// The notations of a column's numbers have exponents that can be padded.
pub open spec fn data_ok(data: ColumnData) -> bool {
    data matches ColumnData::Double(x) ==> forall|i: int|
        0 <= i < x@.len() ==> dbl_ok(#[trigger] x@[i])
}

/// Whether the notations of all numbers of a column have exponents that can be padded.
pub fn can_format(data: &ColumnData) -> (r: bool)
    ensures
        r == data_ok(*data),
{
    let x: &Vec<DblText> = match data {
        ColumnData::Double(x) => x,
        _ => {
            return true;
        },
    };
    let n: usize = x.len();
    let mut i: usize = 0;
    while i < n
        invariant
            *data == ColumnData::Double(*x),
            n == x@.len(),
            i <= n,
            forall|k: int| 0 <= k < i ==> dbl_ok(#[trigger] x@[k]),
        decreases n - i,
    {
        proof {
            reveal_strlit("e");
        }
        let ok: bool = match &x[i] {
            DblText::Large(t) => can_pad(text::replace(t.as_str(), "e", "e+").as_str()),
            DblText::VerySmall(t) => can_pad(t.as_str()),
            _ => true,
        };
        if !ok {
            assert(!dbl_ok(data->Double_0@[i as int]));
            return false;
        }
        i = i + 1;
    }
    true
}

fn unknown_format(n: usize) -> (r: Vec<FormattedValue>)
    ensures
        models(r@) == all_unknown(n as nat),
{
    let mut r: Vec<FormattedValue> = Vec::new();
    let mut i: usize = 0;
    while i < n
        invariant
            i <= n,
            r@.len() == i,
            forall|k: int| 0 <= k < i ==> (#[trigger] r@[k])@ == Formatted::Unknown,
        decreases n - i,
    {
        r.push(FormattedValue::Unknown);
        i = i + 1;
    }
    assert(models(r@) =~= all_unknown(n as nat));
    r
}

fn object_value(x: &Option<String>) -> (r: FormattedValue)
    ensures
        r@ == object_formatted(*x),
{
    match x {
        Some(v) => FormattedValue::Value(trim_blanks(v.as_str())),
        None => FormattedValue::NA,
    }
}

/// Formats a column with a class, from what R's `format()` and `is.na()` give.
fn format_object(
    formatted: &Option<Vec<Option<String>>>,
    is_na: &Option<Vec<Option<bool>>>,
    length: usize,
    Ghost(options): Ghost<FormatOptions>,
) -> (r: Vec<FormattedValue>)
    ensures
        models(r@) == uncut(
            ColumnData::Classed { formatted: *formatted, is_na: *is_na, length },
            options,
        ),
{
    let ghost all = uncut(
        ColumnData::Classed { formatted: *formatted, is_na: *is_na, length },
        options,
    );
    let f: &Vec<Option<String>> = match formatted {
        None => {
            return unknown_format(length);
        },
        Some(f) => f,
    };
    let n: usize = match is_na {
        None => f.len(),
        Some(na) => {
            if na.len() <= f.len() {
                na.len()
            } else {
                f.len()
            }
        },
    };
    let mut r: Vec<FormattedValue> = Vec::new();
    let mut i: usize = 0;
    while i < n
        invariant
            formatted == Some(*f),
            n == all.len(),
            n <= f@.len(),
            is_na matches Some(na) ==> n <= na@.len(),
            all == uncut(
                ColumnData::Classed { formatted: *formatted, is_na: *is_na, length },
                options,
            ),
            i <= n,
            r@.len() == i,
            forall|k: int| 0 <= k < i ==> (#[trigger] r@[k])@ == all[k],
        decreases n - i,
    {
        let missing: bool = match is_na {
            None => false,
            Some(na) => match na[i] {
                Some(m) => m,
                None => false,
            },
        };
        if missing {
            r.push(FormattedValue::NA);
        } else {
            r.push(object_value(&f[i]));
        }
        i = i + 1;
    }
    assert(models(r@) =~= all);
    r
}

/// Formats the element at a place of a column without a class.
fn format_elt(data: &ColumnData, i: usize, options: &FormatOptions) -> (r: FormattedValue)
    requires
        data_ok(*data),
        !(data is Classed),
        i < uncut(*data, *options).len(),
    ensures
        r@ == uncut(*data, *options)[i as int],
{
    match data {
        ColumnData::Double(x) => format_dbl_elt(&x[i], options),
        ColumnData::Integer(x) => format_int_elt(x[i], options),
        ColumnData::Character(x) => match &x[i] {
            Some(v) => FormattedValue::Value(v.clone()),
            None => FormattedValue::NA,
        },
        ColumnData::Logical(x) => match x[i] {
            Some(true) => FormattedValue::Value("TRUE".to_owned()),
            Some(false) => FormattedValue::Value("FALSE".to_owned()),
            None => FormattedValue::NA,
        },
        ColumnData::Complex(x) => match &x[i] {
            Some((re, im)) => {
                let mut t: String = text::join3(re.as_str(), "+", im.as_str());
                t.append("i");
                FormattedValue::Value(t)
            },
            None => FormattedValue::NA,
        },
        ColumnData::List(x) => match &x[i] {
            Some(elt) => FormattedValue::Value(format_list_elt(elt)),
            None => FormattedValue::NULL,
        },
        _ => FormattedValue::Unknown,
    }
}

fn data_len(data: &ColumnData, Ghost(options): Ghost<FormatOptions>) -> (r: usize)
    requires
        !(data is Classed),
    ensures
        r == uncut(*data, options).len(),
{
    match data {
        ColumnData::Double(x) => x.len(),
        ColumnData::Integer(x) => x.len(),
        ColumnData::Character(x) => x.len(),
        ColumnData::Logical(x) => x.len(),
        ColumnData::Complex(x) => x.len(),
        ColumnData::List(x) => x.len(),
        ColumnData::Unsupported { length } => *length,
        ColumnData::Classed { .. } => 0,
    }
}

fn format_values(data: &ColumnData, options: &FormatOptions) -> (r: Vec<FormattedValue>)
    requires
        data_ok(*data),
    ensures
        models(r@) == uncut(*data, *options),
{
    if let ColumnData::Classed { formatted, is_na, length } = data {
        return format_object(formatted, is_na, *length, Ghost(*options));
    }
    let ghost all = uncut(*data, *options);
    let n: usize = data_len(data, Ghost(*options));
    let mut r: Vec<FormattedValue> = Vec::new();
    let mut i: usize = 0;
    while i < n
        invariant
            data_ok(*data),
            !(data is Classed),
            all == uncut(*data, *options),
            n == all.len(),
            i <= n,
            r@.len() == i,
            forall|k: int| 0 <= k < i ==> (#[trigger] r@[k])@ == all[k],
        decreases n - i,
    {
        r.push(format_elt(data, i, options));
        i = i + 1;
    }
    assert(models(r@) =~= all);
    r
}

fn cut(v: FormattedValue, max_len: i64) -> (r: FormattedValue)
    ensures
        r@ == truncated_value(v@, max_len),
{
    match v {
        FormattedValue::Value(t) => {
            let mut s: String = t;
            truncate_inplace(&mut s, max_len);
            FormattedValue::Value(s)
        },
        other => other,
    }
}

/// Formats a column for the grid.
pub fn format_column(data: &ColumnData, options: &FormatOptions) -> (r: Vec<ColumnValue>)
    requires
        data_ok(*data),
    ensures
        r@.map_values(|v: ColumnValue| v@) == formatted_column(*data, *options).map_values(
            |v: Formatted| column_value(v),
        ),
{
    let ghost all = formatted_column(*data, *options);
    let ghost plain = uncut(*data, *options);
    let values: Vec<FormattedValue> = format_values(data, options);
    let n: usize = values.len();
    assert(n == models(values@).len());
    let mut r: Vec<ColumnValue> = Vec::new();
    for v in it: values
        invariant
            it.seq() == values@,
            plain == models(values@),
            all == plain.map_values(|v: Formatted| truncated_value(v, options.max_value_length)),
            r@.len() == it.index(),
            forall|k: int| 0 <= k < r@.len() ==> (#[trigger] r@[k])@ == column_value(all[k]),
    {
        assert(v@ == plain[it.index() as int]);
        r.push(cut(v, options.max_value_length).into_column_value());
    }
    assert(r@.map_values(|v: ColumnValue| v@) =~= all.map_values(|v: Formatted| column_value(v)));
    r
}

/// Formats a column as texts.
pub fn format_string(data: &ColumnData, options: &FormatOptions) -> (r: Vec<String>)
    requires
        data_ok(*data),
    ensures
        text::texts(r@) == formatted_column(*data, *options).map_values(
            |v: Formatted| display_text(v),
        ),
{
    let ghost all = formatted_column(*data, *options);
    let ghost plain = uncut(*data, *options);
    let values: Vec<FormattedValue> = format_values(data, options);
    let mut r: Vec<String> = Vec::new();
    for v in it: values
        invariant
            it.seq() == values@,
            plain == models(values@),
            all == plain.map_values(|v: Formatted| truncated_value(v, options.max_value_length)),
            r@.len() == it.index(),
            forall|k: int| 0 <= k < r@.len() ==> (#[trigger] r@[k])@ == display_text(all[k]),
    {
        assert(v@ == plain[it.index() as int]);
        r.push(cut(v, options.max_value_length).into_text());
    }
    assert(text::texts(r@) =~= all.map_values(|v: Formatted| display_text(v)));
    r
}

/// A formatted text is never longer than the options allow, if they allow any length
/// that a text can have.
pub proof fn law_values_are_cut(data: ColumnData, options: FormatOptions, i: int)
    requires
        0 <= i < formatted_column(data, options).len(),
        0 <= options.max_value_length <= usize::MAX,
    ensures
        formatted_column(data, options)[i] matches Formatted::Value(t) ==> t.len()
            <= options.max_value_length,
{
}

/// Separators change no digit: without them the number is what it was.
pub proof fn law_separators_keep_digits(s: Seq<char>, sep: char)
    requires
        !s.contains(sep),
    ensures
        with_thousands_sep(s, Some(seq![sep])).filter(|c: char| c != sep) == s,
{
    lemma_grouped_keeps(s, s.len() as int, sep);
    assert(s.skip(0) =~= s);
}

proof fn lemma_grouped_keeps(s: Seq<char>, k: int, sep: char)
    requires
        !s.contains(sep),
        0 <= k <= s.len(),
    ensures
        grouped(s, k, seq![sep]).0.filter(|c: char| c != sep) == s.skip(s.len() - k),
    decreases k,
{
    let keep = |c: char| c != sep;
    if k > 0 {
        lemma_grouped_keeps(s, k - 1, sep);
        let (rest, count) = grouped(s, k - 1, seq![sep]);
        let c = s[s.len() - k];
        assert(s.contains(c));
        let one = seq![c];
        lemma_filter_one(c, keep);
        lemma_filter_one(sep, keep);
        Seq::filter_distributes_over_add(one, rest, keep);
        Seq::filter_distributes_over_add(one, seq![sep], keep);
        Seq::filter_distributes_over_add(one + seq![sep], rest, keep);
        assert(one + Seq::<char>::empty() =~= one);
        assert(one + s.skip(s.len() - k + 1) =~= s.skip(s.len() - k));
    } else {
        assert(s.skip(s.len() as int) =~= Seq::empty());
        assert(Seq::<char>::empty().filter(keep) =~= Seq::empty());
    }
}

proof fn lemma_filter_one(c: char, keep: spec_fn(char) -> bool)
    ensures
        seq![c].filter(keep) == (if keep(c) {
            seq![c]
        } else {
            Seq::empty()
        }),
{
    reveal(Seq::filter);
    assert(seq![c].drop_last() =~= Seq::empty());
    assert(Seq::<char>::empty().filter(keep) =~= Seq::empty());
    assert(Seq::<char>::empty().push(c) =~= seq![c]);
}

/// Values that are no numbers and no texts are told by a code or by a word of their own:
/// no two of them are told alike.
pub proof fn law_special_values()
    ensures
        column_value(Formatted::NULL) == ColumnValueModel::Code(0),
        column_value(Formatted::NA) == ColumnValueModel::Code(1),
        column_value(Formatted::NaN) == ColumnValueModel::Code(2),
        column_value(Formatted::Inf) == ColumnValueModel::Code(10),
        column_value(Formatted::NegInf) == ColumnValueModel::Code(11),
        display_text(Formatted::NULL) == "NULL"@,
        display_text(Formatted::NA) == "NA"@,
        display_text(Formatted::NaN) == "NaN"@,
        display_text(Formatted::Inf) == "Inf"@,
        display_text(Formatted::NegInf) == "-Inf"@,
        forall|t: Seq<char>| #[trigger] column_value(Formatted::Value(t)) == ColumnValueModel::Text(
            t,
        ),
        forall|t: Seq<char>| #[trigger] display_text(Formatted::Value(t)) == t,
{
}

/// A text is cut after the number of characters that is allowed, and is left as it is
/// where it has no more.
pub proof fn law_texts_are_cut(s: Seq<char>, max_len: i64)
    requires
        0 <= max_len <= usize::MAX,
    ensures
        s.len() <= max_len ==> truncated(s, max_len) == s,
        s.len() > max_len ==> truncated(s, max_len).len() == max_len && truncated(
            s,
            max_len,
        ).is_prefix_of(s),
{
    if s.len() > max_len {
        assert(truncated(s, max_len) =~= s.subrange(0, max_len as int));
    }
}

/// The characters are those of a whole number.
pub open spec fn is_plain(s: Seq<char>) -> bool {
    !s.contains('.') && !s.contains('-')
}

proof fn lemma_plain_count(s: Seq<char>, k: int, sep: Seq<char>)
    requires
        is_plain(s),
        0 <= k <= s.len(),
    ensures
        grouped(s, k, sep).1 == k,
        k <= 3 ==> grouped(s, k, sep).0 == s.skip(s.len() - k),
    decreases k,
{
    if k > 0 {
        lemma_plain_count(s, k - 1, sep);
        let c = s[s.len() - k];
        assert(s.contains(c));
        assert(k <= 3 ==> seq![c] + s.skip(s.len() - (k - 1)) =~= s.skip(s.len() - k));
    } else {
        assert(s.skip(s.len() as int) =~= Seq::empty());
    }
}

proof fn lemma_groups(a: Seq<char>, b: Seq<char>, j: int, sep: Seq<char>)
    requires
        is_plain(a),
        is_plain(a + b),
        b.len() == 3,
        0 < j <= a.len(),
    ensures
        grouped(a + b, 3 + j, sep).0 == grouped(a, j, sep).0 + sep + b,
    decreases j,
{
    let s = a + b;
    lemma_plain_count(s, 3, sep);
    lemma_plain_count(s, 3 + j - 1, sep);
    lemma_plain_count(a, j - 1, sep);
    assert(s.skip(s.len() - 3) =~= b);
    let c = s[s.len() - (3 + j)];
    assert(c == a[a.len() - j]);
    assert(s.contains(c) && a.contains(c));
    if j == 1 {
        assert(seq![c] + sep + b =~= grouped(a, 1, sep).0 + sep + b);
        lemma_plain_count(a, 1, sep);
        assert(a.skip(a.len() - 1) =~= seq![c]);
    } else {
        lemma_groups(a, b, j - 1, sep);
        let rest = grouped(a, j - 1, sep).0;
        assert(seq![c] + (rest + sep + b) =~= (seq![c] + rest) + sep + b);
        assert(seq![c] + sep + (rest + sep + b) =~= (seq![c] + sep + rest) + sep + b);
    }
}

/// A separator comes before every third digit from the end of a whole number: a number
/// of up to three digits has none, and a longer one has one before its last three digits,
/// with the digits before them separated in the same way.
pub proof fn law_groups_of_three(s: Seq<char>, sep: Seq<char>)
    requires
        is_plain(s),
    ensures
        with_thousands_sep(s, None) == s,
        s.len() <= 3 ==> with_thousands_sep(s, Some(sep)) == s,
        s.len() > 3 ==> with_thousands_sep(s, Some(sep)) == with_thousands_sep(
            s.take(s.len() - 3),
            Some(sep),
        ) + sep + s.skip(s.len() - 3),
{
    if s.len() <= 3 {
        lemma_plain_count(s, s.len() as int, sep);
        assert(s.skip(0) =~= s);
    } else {
        let a = s.take(s.len() - 3);
        let b = s.skip(s.len() - 3);
        assert(a + b =~= s);
        assert(is_plain(a)) by {
            assert forall|i: int| 0 <= i < a.len() implies s.contains(#[trigger] a[i]) by {
                assert(s[i] == a[i]);
            }
        }
        lemma_groups(a, b, a.len() as int, sep);
    }
}

proof fn lemma_fraction(whole: Seq<char>, fraction: Seq<char>, j: int, sep: Seq<char>)
    requires
        !whole.contains('.'),
        fraction.len() > 0,
        fraction[0] == '.',
        0 <= j <= whole.len(),
    ensures
        fraction_len(whole + fraction) == fraction.len(),
        grouped(whole + fraction, fraction.len() + j, sep) == (
            grouped(whole, j, sep).0 + fraction,
            grouped(whole, j, sep).1,
        ),
    decreases j,
{
    let s = whole + fraction;
    let p = whole.len() as int;
    s.index_of_first_ensures('.');
    assert(s[p] == '.');
    assert(s.contains('.'));
    let q = s.index_of_first('.')->0;
    if q < p {
        assert(whole[q] == '.');
    }
    assert(q == p);
    if j == 0 {
        lemma_in_fraction(whole, fraction, fraction.len() as int, sep);
        assert(fraction.skip(0) =~= fraction);
        assert(Seq::<char>::empty() + fraction =~= fraction);
    } else {
        lemma_fraction(whole, fraction, j - 1, sep);
        let c = s[s.len() - (fraction.len() + j)];
        assert(c == whole[whole.len() - j]);
        assert(fraction_len(whole) == 0);
        let rest = grouped(whole, j - 1, sep).0;
        assert(seq![c] + (rest + fraction) =~= (seq![c] + rest) + fraction);
        assert(seq![c] + sep + (rest + fraction) =~= (seq![c] + sep + rest) + fraction);
    }
}

proof fn lemma_in_fraction(whole: Seq<char>, fraction: Seq<char>, k: int, sep: Seq<char>)
    requires
        fraction_len(whole + fraction) == fraction.len(),
        0 <= k <= fraction.len(),
    ensures
        grouped(whole + fraction, k, sep) == (fraction.skip(fraction.len() - k), 0int),
    decreases k,
{
    let s = whole + fraction;
    if k > 0 {
        lemma_in_fraction(whole, fraction, k - 1, sep);
        let c = s[s.len() - k];
        assert(c == fraction[fraction.len() - k]);
        assert(seq![c] + fraction.skip(fraction.len() - (k - 1)) =~= fraction.skip(
            fraction.len() - k,
        ));
    } else {
        assert(fraction.skip(fraction.len() as int) =~= Seq::empty());
    }
}

/// What stands from the decimal point on is left as it is, and only the whole part of a
/// number is separated.
pub proof fn law_fractions_are_kept(whole: Seq<char>, fraction: Seq<char>, sep: Seq<char>)
    requires
        !whole.contains('.'),
        fraction.len() > 0,
        fraction[0] == '.',
    ensures
        with_thousands_sep(whole + fraction, Some(sep)) == with_thousands_sep(whole, Some(sep))
            + fraction,
{
    lemma_fraction(whole, fraction, whole.len() as int, sep);
}

proof fn lemma_sign(s: Seq<char>, k: int, sep: Seq<char>)
    requires
        !s.contains('.'),
        0 <= k <= s.len(),
    ensures
        grouped(seq!['-'] + s, k, sep) == grouped(s, k, sep),
    decreases k,
{
    let t = seq!['-'] + s;
    assert(!t.contains('.')) by {
        if t.contains('.') {
            let i = choose|i: int| 0 <= i < t.len() && t[i] == '.';
            assert(s[i - 1] == '.');
        }
    }
    if k > 0 {
        lemma_sign(s, k - 1, sep);
        assert(t[t.len() - k] == s[s.len() - k]);
    }
}

/// A minus sign is kept before the number, and no separator comes after it.
pub proof fn law_signs_are_kept(s: Seq<char>, sep: Seq<char>)
    requires
        !s.contains('.'),
    ensures
        with_thousands_sep(seq!['-'] + s, Some(sep)) == seq!['-'] + with_thousands_sep(
            s,
            Some(sep),
        ),
{
    let t = seq!['-'] + s;
    lemma_sign(s, s.len() as int, sep);
    assert(t[0] == '-');
    assert(t.len() - t.len() == 0);
    assert(grouped(t, t.len() as int, sep).0 == seq!['-'] + grouped(t, s.len() as int, sep).0);
}

/// An exponent of one digit gets a zero before it, and a longer one is left as it is.
pub proof fn law_exponents_have_two_digits(
    mantissa: Seq<char>,
    sign: char,
    digit: char,
    more: Seq<char>,
)
    requires
        !mantissa.contains('e'),
        sign == '+' || sign == '-',
        '0' <= digit <= '9',
        more.len() > 0,
    ensures
        padded_exponent(mantissa + seq!['e', sign, digit]) == mantissa + seq!['e', sign, '0', digit],
        padded_exponent(mantissa + seq!['e', sign, digit] + more) == mantissa + seq![
            'e',
            sign,
            digit,
        ] + more,
        padded_exponent(mantissa) == mantissa,
{
    let part = seq!['e', sign, digit];
    let s = mantissa + part;
    let long = mantissa + part + more;
    let p = mantissa.len() as int;
    lemma_first_e(mantissa, part);
    lemma_first_e(mantissa, part + more);
    assert(long =~= mantissa + (part + more));
    assert(s.skip(p) =~= part);
    assert(long.skip(p) =~= part + more);
    assert(vstd::utf8::is_ascii_chars(part));
    vstd::utf8::is_ascii_chars_encode_utf8(part);
    assert(vstd::utf8::encode_utf8(part).len() == 3);
    lemma_encoded_len(part + more);
    assert(s.insert(p + 2, '0') =~= mantissa + seq!['e', sign, '0', digit]);
}

proof fn lemma_first_e(mantissa: Seq<char>, part: Seq<char>)
    requires
        !mantissa.contains('e'),
        part.len() > 0,
        part[0] == 'e',
    ensures
        (mantissa + part).contains('e'),
        (mantissa + part).index_of_first('e') == Some(mantissa.len() as int),
{
    let s = mantissa + part;
    s.index_of_first_ensures('e');
    assert(s[mantissa.len() as int] == 'e');
    let q = s.index_of_first('e')->0;
    if q < mantissa.len() {
        assert(mantissa[q] == 'e');
    }
}

proof fn lemma_encoded_len(s: Seq<char>)
    ensures
        vstd::utf8::encode_utf8(s).len() >= s.len(),
    decreases s.len(),
{
    if s.len() > 0 {
        lemma_encoded_len(s.drop_first());
    }
}

/// A column is formatted value by value: there are as many as before, in their order. A
/// missing value is told as such, a text is shown as it is and a truth value as R writes
/// it, and a whole number by its digits, all of them cut to the length that is allowed.
pub proof fn law_columns_are_formatted_by_value(
    x: Vec<Option<String>>,
    b: Vec<Option<bool>>,
    n: Vec<Option<i32>>,
    options: FormatOptions,
    i: int,
)
    ensures
        formatted_column(ColumnData::Character(x), options).len() == x@.len(),
        formatted_column(ColumnData::Logical(b), options).len() == b@.len(),
        formatted_column(ColumnData::Integer(n), options).len() == n@.len(),
        0 <= i < x@.len() ==> formatted_column(ColumnData::Character(x), options)[i] == (
        match x@[i] {
            Some(t) => Formatted::Value(truncated(t@, options.max_value_length)),
            None => Formatted::NA,
        }),
        0 <= i < b@.len() ==> formatted_column(ColumnData::Logical(b), options)[i] == (
        match b@[i] {
            Some(true) => Formatted::Value(truncated("TRUE"@, options.max_value_length)),
            Some(false) => Formatted::Value(truncated("FALSE"@, options.max_value_length)),
            None => Formatted::NA,
        }),
        0 <= i < n@.len() ==> formatted_column(ColumnData::Integer(n), options)[i] == (
        match n@[i] {
            Some(v) => Formatted::Value(
                truncated(
                    with_thousands_sep(
                        text::decimal_int(v as int),
                        text::opt_text(options.thousands_sep),
                    ),
                    options.max_value_length,
                ),
            ),
            None => Formatted::NA,
        }),
{
}

/// Numbers are told by what they are: special ones as such, those of a usual size with
/// separators, zero as it is, and very large and very small ones with an exponent of at
/// least two digits, of which a positive one has a sign.
pub proof fn law_numbers_are_formatted_by_size(t: String, options: FormatOptions)
    ensures
        dbl_formatted(DblText::NA, options) == Formatted::NA,
        dbl_formatted(DblText::NaN, options) == Formatted::NaN,
        dbl_formatted(DblText::Inf, options) == Formatted::Inf,
        dbl_formatted(DblText::NegInf, options) == Formatted::NegInf,
        dbl_formatted(DblText::Zero(t), options) == Formatted::Value(t@),
        dbl_formatted(DblText::Medium(t), options) == Formatted::Value(
            with_thousands_sep(t@, text::opt_text(options.thousands_sep)),
        ),
        dbl_formatted(DblText::Small(t), options) == Formatted::Value(
            with_thousands_sep(t@, text::opt_text(options.thousands_sep)),
        ),
        dbl_formatted(DblText::VerySmall(t), options) == Formatted::Value(padded_exponent(t@)),
        dbl_formatted(DblText::Large(t), options) == Formatted::Value(
            padded_exponent(text::replaced(t@, "e"@, "e+"@)),
        ),
{
}

/// An element of a list is shown by its first class and by its dimensions, or by its
/// length if it has none.
pub proof fn law_list_elements_are_shown(x: ListElement)
    ensures
        x.class@.len() > 0 && x.dims@.len() == 0 ==> list_element_text(x) == "<"@ + x.class@[0]@
            + " ["@ + text::decimal_int(x.length as int) + "]>"@,
        x.class@.len() > 0 && x.dims@.len() == 2 ==> list_element_text(x) == "<"@ + x.class@[0]@
            + " ["@ + (text::decimal_int(x.dims@[0] as int) + " x "@ + text::decimal_int(
            x.dims@[1] as int,
        )) + "]>"@,
{
    if x.dims@.len() == 2 {
        let d = dim_texts(x.dims@);
        assert(d.drop_last() =~= seq![d[0]]);
        assert(text::joined(d.drop_last(), " x "@) == d[0]);
    }
}

/// An object with a class shows the texts that R gives for its values, without blanks
/// around them, and what R says is missing as missing.
pub proof fn law_objects_are_formatted_by_r(
    f: Vec<Option<String>>,
    na: Vec<Option<bool>>,
    length: usize,
    options: FormatOptions,
    i: int,
)
    requires
        f@.len() == na@.len(),
        0 <= i < f@.len(),
    ensures
        ({
            let all = uncut(
                ColumnData::Classed { formatted: Some(f), is_na: Some(na), length },
                options,
            );
            &&& all.len() == f@.len()
            &&& na@[i] == Some(true) ==> all[i] == Formatted::NA
            &&& na@[i] != Some(true) && f@[i] is Some ==> all[i] == Formatted::Value(
                no_blanks(f@[i]->0@),
            )
            &&& f@[i] is None ==> all[i] == Formatted::NA
        }),
{
}

} // verus!
