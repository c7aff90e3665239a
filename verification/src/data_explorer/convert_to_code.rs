//! Conversion of a view of a table to code.
use vstd::prelude::*;

use crate::data_explorer::data_explorer_comm::{
    CodeSyntaxName, ColumnDisplayType, ConvertedCode, FilterBetween, FilterComparison,
    FilterComparisonOp, FilterSetMembership, FilterTextSearch, RowFilter, RowFilterParams,
    RowFilterType, TextSearchType,
};
use crate::text;

verus! {

/// A sort key with the name of its column.
#[derive(Debug)]
pub struct ResolvedSortKey {
    pub column_name: String,
    pub ascending: bool,
}

/// The characters that end a string of R, or stand for something else in it.
pub open spec fn special_in_string(c: char) -> bool {
    c == '"' || c == '\\'
}

/// The characters that stand for something else in a pattern.
pub open spec fn special_in_pattern(c: char) -> bool {
    ||| c == '.'
    ||| c == '*'
    ||| c == '+'
    ||| c == '?'
    ||| c == '['
    ||| c == ']'
    ||| c == '('
    ||| c == ')'
    ||| c == '{'
    ||| c == '}'
    ||| c == '^'
    ||| c == '$'
    ||| c == '|'
    ||| c == '\\'
}

/// A character, with a backslash before it if it is special.
pub open spec fn backslashed_char(c: char, special: spec_fn(char) -> bool) -> Seq<char> {
    if special(c) {
        seq!['\\', c]
    } else {
        seq![c]
    }
}

/// `s` with a backslash before each special character.
pub open spec fn backslashed(s: Seq<char>, special: spec_fn(char) -> bool) -> Seq<char>
    decreases s.len(),
{
    if s.len() == 0 {
        Seq::empty()
    } else {
        backslashed(s.drop_last(), special) + backslashed_char(s.last(), special)
    }
}

/// `s` as a string of R.
pub open spec fn quoted(s: Seq<char>) -> Seq<char> {
    "\""@ + backslashed(s, |c: char| special_in_string(c)) + "\""@
}

/// `s` as a pattern that matches it alone.
pub open spec fn escaped(s: Seq<char>) -> Seq<char> {
    backslashed(s, |c: char| special_in_pattern(c))
}

/// What `s` stands for where a backslash makes the special character after it an
/// ordinary one. None if a special character stands alone, or a backslash stands before
/// an ordinary one.
pub open spec fn read_back(s: Seq<char>, special: spec_fn(char) -> bool) -> Option<Seq<char>>
    decreases s.len(),
{
    if s.len() == 0 {
        Some(Seq::empty())
    } else if s[0] == '\\' {
        if s.len() < 2 || !special(s[1]) {
            None
        } else {
            match read_back(s.skip(2), special) {
                Some(rest) => Some(seq![s[1]] + rest),
                None => None,
            }
        }
    } else if special(s[0]) {
        None
    } else {
        match read_back(s.skip(1), special) {
            Some(rest) => Some(seq![s[0]] + rest),
            None => None,
        }
    }
}

proof fn lemma_backslashed_first(s: Seq<char>, special: spec_fn(char) -> bool)
    requires
        s.len() > 0,
    ensures
        backslashed(s, special) == backslashed_char(s[0], special) + backslashed(
            s.skip(1),
            special,
        ),
    decreases s.len(),
{
    if s.len() == 1 {
        assert(s.drop_last() =~= Seq::empty());
        assert(s.skip(1) =~= Seq::empty());
        assert(backslashed(s, special) =~= backslashed_char(s[0], special) + backslashed(
            s.skip(1),
            special,
        ));
    } else {
        lemma_backslashed_first(s.drop_last(), special);
        assert(s.drop_last().skip(1) =~= s.skip(1).drop_last());
        assert(s.skip(1).last() == s.last());
        assert(backslashed(s, special) =~= backslashed_char(s[0], special) + backslashed(
            s.skip(1),
            special,
        ));
    }
}

proof fn lemma_reads_back(s: Seq<char>, special: spec_fn(char) -> bool)
    requires
        special('\\'),
    ensures
        read_back(backslashed(s, special), special) == Some(s),
    decreases s.len(),
{
    if s.len() > 0 {
        lemma_backslashed_first(s, special);
        lemma_reads_back(s.skip(1), special);
        let whole = backslashed(s, special);
        let rest = backslashed(s.skip(1), special);
        if special(s[0]) {
            assert(whole.skip(2) =~= rest);
        } else {
            assert(whole.skip(1) =~= rest);
        }
        assert(seq![s[0]] + s.skip(1) =~= s);
    }
}

/// A quoted string is read as the string: it stands between double quotes, and what is
/// between them holds no quote that would end it and stands for the string.
pub proof fn law_quoted_reads_back(s: Seq<char>)
    ensures
        quoted(s).len() >= 2,
        quoted(s).first() == '"',
        quoted(s).last() == '"',
        read_back(
            quoted(s).subrange(1, quoted(s).len() - 1),
            |c: char| special_in_string(c),
        ) == Some(s),
{
    reveal_strlit("\"");
    let special = |c: char| special_in_string(c);
    lemma_reads_back(s, special);
    assert(quoted(s).subrange(1, quoted(s).len() - 1) =~= backslashed(s, special));
}

/// An escaped text is a pattern without special characters that stands for the text.
pub proof fn law_escaped_reads_back(s: Seq<char>)
    ensures
        read_back(escaped(s), |c: char| special_in_pattern(c)) == Some(s),
{
    lemma_reads_back(s, |c: char| special_in_pattern(c));
}

/// Quotes a string for R code.
pub fn quote_string(s: &str) -> (r: String)
    ensures
        r@ == quoted(s@),
{
    let ghost special = |c: char| special_in_string(c);
    let v: Vec<char> = text::chars_of(s);
    let n: usize = v.len();
    let mut inner: String = String::new();
    let mut i: usize = 0;
    while i < n
        invariant
            v@ == s@,
            n == v@.len(),
            i <= n,
            special == (|c: char| special_in_string(c)),
            inner@ == backslashed(s@.take(i as int), special),
        decreases n - i,
    {
        let c: char = v[i];
        let ghost before = inner@;
        if c == '"' || c == '\\' {
            inner.push('\\');
        }
        inner.push(c);
        assert(inner@ =~= before + backslashed_char(c, special));
        assert(s@.take(i + 1).drop_last() =~= s@.take(i as int));
        i = i + 1;
    }
    assert(s@.take(n as int) =~= s@);
    text::join3("\"", inner.as_str(), "\"")
}

/// Whether a character stands for something else in a pattern.
fn is_special_in_pattern(c: char) -> (r: bool)
    ensures
        r == special_in_pattern(c),
{
    c == '.' || c == '*' || c == '+' || c == '?' || c == '[' || c == ']' || c == '(' || c == ')'
        || c == '{' || c == '}' || c == '^' || c == '$' || c == '|' || c == '\\'
}

/// Escapes special characters of a pattern.
pub fn escape_regex(s: &str) -> (r: String)
    ensures
        r@ == escaped(s@),
{
    let ghost special = |c: char| special_in_pattern(c);
    let v: Vec<char> = text::chars_of(s);
    let n: usize = v.len();
    let mut r: String = String::new();
    let mut i: usize = 0;
    while i < n
        invariant
            v@ == s@,
            n == v@.len(),
            i <= n,
            special == (|c: char| special_in_pattern(c)),
            r@ == backslashed(s@.take(i as int), special),
        decreases n - i,
    {
        let c: char = v[i];
        let ghost before = r@;
        if is_special_in_pattern(c) {
            r.push('\\');
        }
        r.push(c);
        assert(r@ =~= before + backslashed_char(c, special));
        assert(s@.take(i + 1).drop_last() =~= s@.take(i as int));
        i = i + 1;
    }
    assert(s@.take(n as int) =~= s@);
    r
}

/// A logical value of R, where `lower` is the value in lower case. Anything else
/// is kept as it is.
pub open spec fn logical(value: Seq<char>, lower: Seq<char>) -> Seq<char> {
    if lower == "true"@ {
        "TRUE"@
    } else if lower == "false"@ {
        "FALSE"@
    } else {
        value
    }
}

/// A logical value of R, where `lower` is the value in lower case.
pub fn logical_for_r(value: &str, lower: &str) -> (r: String)
    ensures
        r@ == logical(value@, lower@),
{
    if text::same(lower, "true") {
        "TRUE".to_owned()
    } else if text::same(lower, "false") {
        "FALSE".to_owned()
    } else {
        value.to_owned()
    }
}

/// A value as R code, by the type of its column: numbers as they are, logical
/// values as R writes them, and everything else as a string.
pub open spec fn value_for_r(display_type: ColumnDisplayType, value: Seq<char>) -> Seq<char> {
    match display_type {
        ColumnDisplayType::Boolean => logical(value, text::lowercase(value)),
        ColumnDisplayType::Number => value,
        _ => quoted(value),
    }
}

/// A value as R code, by the type of its column.
pub fn format_value_for_r(display_type: ColumnDisplayType, value: &str) -> (r: String)
    ensures
        r@ == value_for_r(display_type, value@),
{
    match display_type {
        ColumnDisplayType::Boolean => {
            let lower: String = text::to_lowercase(value);
            logical_for_r(value, lower.as_str())
        },
        ColumnDisplayType::Number => value.to_owned(),
        _ => quote_string(value),
    }
}

/// A comparison operator of R.
pub open spec fn operator(op: FilterComparisonOp) -> Seq<char> {
    match op {
        FilterComparisonOp::Eq => "=="@,
        FilterComparisonOp::NotEq => "!="@,
        FilterComparisonOp::Lt => "<"@,
        FilterComparisonOp::LtEq => "<="@,
        FilterComparisonOp::Gt => ">"@,
        FilterComparisonOp::GtEq => ">="@,
    }
}

/// A search for a text, as R code. A text is searched literally, and a pattern where the
/// place of the text matters.
pub open spec fn search_code(
    search_type: TextSearchType,
    term: Seq<char>,
    column: Seq<char>,
) -> Seq<char> {
    match search_type {
        TextSearchType::Contains => "grepl("@ + quoted(term) + ", "@ + column
            + ", fixed = TRUE)"@,
        TextSearchType::NotContains => "!grepl("@ + quoted(term) + ", "@ + column
            + ", fixed = TRUE)"@,
        TextSearchType::StartsWith => "grepl("@ + quoted("^"@ + escaped(term)) + ", "@ + column
            + ")"@,
        TextSearchType::EndsWith => "grepl("@ + quoted(escaped(term) + "$"@) + ", "@ + column
            + ")"@,
        TextSearchType::RegexMatch => "grepl("@ + quoted(term) + ", "@ + column + ")"@,
    }
}

/// The strings in quotes.
pub open spec fn all_quoted(values: Seq<String>) -> Seq<Seq<char>> {
    values.map_values(|v: String| quoted(v@))
}

/// A row filter as a filter expression of dplyr. A filter without the parameters
/// that its type asks for gives none.
pub open spec fn dplyr_filter(filter: RowFilter) -> Option<Seq<char>> {
    let column = filter.column_schema.column_name@;
    let shown = filter.column_schema.type_display;
    match filter.filter_type {
        RowFilterType::Compare => match filter.params {
            Some(RowFilterParams::Comparison(c)) => Some(
                column + " "@ + operator(c.op) + " "@ + value_for_r(shown, c.value@),
            ),
            _ => None,
        },
        RowFilterType::Between => match filter.params {
            Some(RowFilterParams::Between(b)) => Some(
                column + " >= "@ + value_for_r(shown, b.left_value@) + " & "@ + column + " <= "@
                    + value_for_r(shown, b.right_value@),
            ),
            _ => None,
        },
        RowFilterType::NotBetween => match filter.params {
            Some(RowFilterParams::Between(b)) => Some(
                column + " < "@ + value_for_r(shown, b.left_value@) + " | "@ + column + " > "@
                    + value_for_r(shown, b.right_value@),
            ),
            _ => None,
        },
        RowFilterType::IsNull => Some("is.na("@ + column + ")"@),
        RowFilterType::NotNull => Some("!is.na("@ + column + ")"@),
        RowFilterType::IsTrue => Some(column + " == TRUE"@),
        RowFilterType::IsFalse => Some(column + " == FALSE"@),
        RowFilterType::IsEmpty => Some(column + " == \"\""@),
        RowFilterType::NotEmpty => Some(column + " != \"\""@),
        RowFilterType::Search => match filter.params {
            Some(RowFilterParams::TextSearch(s)) => Some(
                search_code(s.search_type, s.term@, column),
            ),
            _ => None,
        },
        RowFilterType::SetMembership => match filter.params {
            Some(RowFilterParams::SetMembership(set)) => {
                let values = text::joined(all_quoted(set.values@), ", "@);
                Some(
                    if set.inclusive {
                        column + " %in% c("@ + values + ")"@
                    } else {
                        "!("@ + column + " %in% c("@ + values + "))"@
                    },
                )
            },
            _ => None,
        },
    }
}

fn quote_all(values: &Vec<String>) -> (r: Vec<String>)
    ensures
        text::texts(r@) == all_quoted(values@),
{
    let mut r: Vec<String> = Vec::new();
    let n: usize = values.len();
    let mut i: usize = 0;
    assert(text::texts(r@) =~= all_quoted(values@).take(0));
    while i < n
        invariant
            n == values@.len(),
            i <= n,
            text::texts(r@) == all_quoted(values@).take(i as int),
        decreases n - i,
    {
        let ghost before = r@;
        r.push(quote_string(values[i].as_str()));
        assert(text::texts(r@) =~= text::texts(before).push(quoted(values@[i as int]@)));
        assert(all_quoted(values@).take(i + 1) =~= all_quoted(values@).take(i as int).push(
            quoted(values@[i as int]@),
        ));
        i = i + 1;
    }
    assert(all_quoted(values@).take(n as int) =~= all_quoted(values@));
    r
}

fn search_to_dplyr(search_type: TextSearchType, term: &str, column: &str) -> (r: String)
    ensures
        r@ == search_code(search_type, term@, column@),
{
    let pattern: String = match search_type {
        TextSearchType::StartsWith => text::join2("^", escape_regex(term).as_str()),
        TextSearchType::EndsWith => text::join2(escape_regex(term).as_str(), "$"),
        _ => term.to_owned(),
    };
    let mut r: String = match search_type {
        TextSearchType::NotContains => "!grepl(".to_owned(),
        _ => "grepl(".to_owned(),
    };
    r.append(quote_string(pattern.as_str()).as_str());
    r.append(", ");
    r.append(column);
    match search_type {
        TextSearchType::Contains | TextSearchType::NotContains => {
            r.append(", fixed = TRUE)");
        },
        _ => {
            r.append(")");
        },
    }
    r
}

/// Converts a row filter to a filter expression of dplyr.
pub fn row_filter_to_dplyr(filter: &RowFilter) -> (r: Option<String>)
    ensures
        text::opt_text(r) == dplyr_filter(*filter),
{
    let column: &str = filter.column_schema.column_name.as_str();
    let shown: ColumnDisplayType = filter.column_schema.type_display;
    match filter.filter_type {
        RowFilterType::Compare => match &filter.params {
            Some(RowFilterParams::Comparison(c)) => {
                let op: &str = match c.op {
                    FilterComparisonOp::Eq => "==",
                    FilterComparisonOp::NotEq => "!=",
                    FilterComparisonOp::Lt => "<",
                    FilterComparisonOp::LtEq => "<=",
                    FilterComparisonOp::Gt => ">",
                    FilterComparisonOp::GtEq => ">=",
                };
                let mut r: String = text::join3(column, " ", op);
                r.append(" ");
                r.append(format_value_for_r(shown, c.value.as_str()).as_str());
                Some(r)
            },
            _ => None,
        },
        RowFilterType::Between => match &filter.params {
            Some(RowFilterParams::Between(b)) => {
                let mut r: String = text::join2(column, " >= ");
                r.append(format_value_for_r(shown, b.left_value.as_str()).as_str());
                r.append(" & ");
                r.append(column);
                r.append(" <= ");
                r.append(format_value_for_r(shown, b.right_value.as_str()).as_str());
                Some(r)
            },
            _ => None,
        },
        RowFilterType::NotBetween => match &filter.params {
            Some(RowFilterParams::Between(b)) => {
                let mut r: String = text::join2(column, " < ");
                r.append(format_value_for_r(shown, b.left_value.as_str()).as_str());
                r.append(" | ");
                r.append(column);
                r.append(" > ");
                r.append(format_value_for_r(shown, b.right_value.as_str()).as_str());
                Some(r)
            },
            _ => None,
        },
        RowFilterType::IsNull => Some(text::join3("is.na(", column, ")")),
        RowFilterType::NotNull => Some(text::join3("!is.na(", column, ")")),
        RowFilterType::IsTrue => Some(text::join2(column, " == TRUE")),
        RowFilterType::IsFalse => Some(text::join2(column, " == FALSE")),
        RowFilterType::IsEmpty => Some(text::join2(column, " == \"\"")),
        RowFilterType::NotEmpty => Some(text::join2(column, " != \"\"")),
        RowFilterType::Search => match &filter.params {
            Some(RowFilterParams::TextSearch(s)) => Some(
                search_to_dplyr(s.search_type, s.term.as_str(), column),
            ),
            _ => None,
        },
        RowFilterType::SetMembership => match &filter.params {
            Some(RowFilterParams::SetMembership(set)) => {
                let quoted_values: Vec<String> = quote_all(&set.values);
                let values: String = text::join(&quoted_values, ", ");
                if set.inclusive {
                    let mut r: String = text::join2(column, " %in% c(");
                    r.append(values.as_str());
                    r.append(")");
                    Some(r)
                } else {
                    let mut r: String = text::join3("!(", column, " %in% c(");
                    r.append(values.as_str());
                    r.append("))");
                    Some(r)
                }
            },
            _ => None,
        },
    }
}

/// The filter expressions that filters give, in their order.
pub open spec fn filter_expressions(filters: Seq<RowFilter>) -> Seq<Seq<char>>
    decreases filters.len(),
{
    if filters.len() == 0 {
        Seq::empty()
    } else {
        let rest = filter_expressions(filters.drop_last());
        match dplyr_filter(filters.last()) {
            Some(e) => rest.push(e),
            None => rest,
        }
    }
}

/// The operation that filters rows. None if no filter gives an expression.
pub open spec fn filter_operation(filters: Seq<RowFilter>) -> Option<Seq<char>> {
    let expressions = filter_expressions(filters);
    if expressions.len() == 0 {
        None
    } else {
        Some("filter(\n    "@ + text::joined(expressions, ",\n    "@) + "\n  )"@)
    }
}

/// The operation that filters rows.
pub fn convert_filters(filters: &Vec<RowFilter>) -> (r: Option<String>)
    ensures
        text::opt_text(r) == filter_operation(filters@),
{
    let mut expressions: Vec<String> = Vec::new();
    let n: usize = filters.len();
    let mut i: usize = 0;
    assert(text::texts(expressions@) =~= Seq::empty());
    while i < n
        invariant
            n == filters@.len(),
            i <= n,
            text::texts(expressions@) == filter_expressions(filters@.take(i as int)),
        decreases n - i,
    {
        assert(filters@.take(i + 1).drop_last() =~= filters@.take(i as int));
        let ghost before = expressions@;
        if let Some(e) = row_filter_to_dplyr(&filters[i]) {
            expressions.push(e);
            assert(text::texts(expressions@) =~= text::texts(before).push(e@));
        }
        i = i + 1;
    }
    assert(filters@.take(n as int) =~= filters@);
    assert(text::texts(expressions@).len() == expressions@.len());
    if expressions.len() == 0 {
        None
    } else {
        let inner: String = text::join(&expressions, ",\n    ");
        Some(text::join3("filter(\n    ", inner.as_str(), "\n  )"))
    }
}

/// A sort key as a sort expression of dplyr.
pub open spec fn sort_expression(key: ResolvedSortKey) -> Seq<char> {
    if key.ascending {
        key.column_name@
    } else {
        "desc("@ + key.column_name@ + ")"@
    }
}

/// The operation that sorts rows. None if there are no sort keys.
pub open spec fn sort_operation(keys: Seq<ResolvedSortKey>) -> Option<Seq<char>> {
    if keys.len() == 0 {
        None
    } else {
        Some(
            "arrange("@ + text::joined(
                keys.map_values(|k: ResolvedSortKey| sort_expression(k)),
                ", "@,
            ) + ")"@,
        )
    }
}

/// The operation that sorts rows.
pub fn convert_sorts(sort_keys: &Vec<ResolvedSortKey>) -> (r: Option<String>)
    ensures
        text::opt_text(r) == sort_operation(sort_keys@),
{
    let n: usize = sort_keys.len();
    if n == 0 {
        return None;
    }
    let ghost all = sort_keys@.map_values(|k: ResolvedSortKey| sort_expression(k));
    let mut expressions: Vec<String> = Vec::new();
    let mut i: usize = 0;
    assert(text::texts(expressions@) =~= all.take(0));
    while i < n
        invariant
            n == sort_keys@.len(),
            i <= n,
            all == sort_keys@.map_values(|k: ResolvedSortKey| sort_expression(k)),
            text::texts(expressions@) == all.take(i as int),
        decreases n - i,
    {
        let ghost before = expressions@;
        let key: &ResolvedSortKey = &sort_keys[i];
        let e: String = if key.ascending {
            key.column_name.clone()
        } else {
            text::join3("desc(", key.column_name.as_str(), ")")
        };
        expressions.push(e);
        assert(text::texts(expressions@) =~= text::texts(before).push(all[i as int]));
        assert(all.take(i + 1) =~= all.take(i as int).push(all[i as int]));
        i = i + 1;
    }
    assert(all.take(n as int) =~= all);
    let inner: String = text::join(&expressions, ", ");
    Some(text::join3("arrange(", inner.as_str(), ")"))
}

/// Builds a chain of pipes.
pub struct PipeBuilder {
    pub table_name: String,
    pub operations: Vec<String>,
}

/// The lines of code of a chain of pipes: the imports and an empty line, if there
/// are imports, and then the table and the operations in one line each.
pub open spec fn pipe_lines(
    imports: Seq<Seq<char>>,
    table: Seq<char>,
    operations: Seq<Seq<char>>,
) -> Seq<Seq<char>> {
    let head = if imports.len() == 0 {
        imports
    } else {
        imports.push(Seq::empty())
    };
    head.push(text::joined(seq![table] + operations, " |>\n  "@))
}

impl PipeBuilder {
    pub fn new(table_name: String) -> (r: Self)
        ensures
            r.table_name == table_name,
            r.operations@.len() == 0,
    {
        Self { table_name, operations: Vec::new() }
    }

    pub fn add_operation(&mut self, operation: String)
        ensures
            final(self).table_name == old(self).table_name,
            final(self).operations@ == old(self).operations@.push(operation),
    {
        self.operations.push(operation);
    }

    /// The lines of code.
    pub fn build(self, library_imports: Vec<String>) -> (r: ConvertedCode)
        ensures
            text::texts(r.converted_code@) == pipe_lines(
                text::texts(library_imports@),
                self.table_name@,
                text::texts(self.operations@),
            ),
    {
        let ghost imports = text::texts(library_imports@);
        let mut lines: Vec<String> = library_imports;
        if lines.len() > 0 {
            let ghost before = lines@;
            lines.push(String::new());
            assert(text::texts(lines@) =~= imports.push(Seq::empty()));
        } else {
            assert(text::texts(lines@) =~= imports);
        }
        let ghost head = text::texts(lines@);
        let ghost table = self.table_name;
        let ghost operations = self.operations@;
        let mut parts: Vec<String> = Vec::new();
        parts.push(self.table_name);
        let mut rest: Vec<String> = self.operations;
        parts.append(&mut rest);
        assert(text::texts(parts@) =~= seq![table@] + text::texts(operations));
        let pipe: String = text::join(&parts, " |>\n  ");
        let ghost before = lines@;
        lines.push(pipe);
        assert(text::texts(lines@) =~= head.push(pipe@));
        ConvertedCode { converted_code: lines }
    }
}

/// The operations of a view: its filters, then its sort keys.
pub open spec fn operations(filters: Seq<RowFilter>, keys: Seq<ResolvedSortKey>) -> Seq<Seq<char>> {
    (match filter_operation(filters) {
        Some(o) => seq![o],
        None => Seq::empty(),
    }) + (match sort_operation(keys) {
        Some(o) => seq![o],
        None => Seq::empty(),
    })
}

/// The lines of code that reproduce a view of the table `object_name`.
pub open spec fn view_code(
    filters: Seq<RowFilter>,
    object_name: Option<Seq<char>>,
    keys: Seq<ResolvedSortKey>,
) -> Seq<Seq<char>> {
    pipe_lines(
        seq!["library(dplyr)"@],
        match object_name {
            Some(name) => name,
            None => "dat"@,
        },
        operations(filters, keys),
    )
}

/// Converts a view of a table to code that reproduces it.
pub fn convert_to_code(
    row_filters: &Vec<RowFilter>,
    object_name: Option<&str>,
    resolved_sort_keys: &Vec<ResolvedSortKey>,
) -> (r: ConvertedCode)
    ensures
        text::texts(r.converted_code@) == view_code(
            row_filters@,
            match object_name {
                Some(name) => Some(name@),
                None => None,
            },
            resolved_sort_keys@,
        ),
{
    let table_name: &str = match object_name {
        Some(name) => name,
        None => "dat",
    };
    let mut builder: PipeBuilder = PipeBuilder::new(table_name.to_owned());
    let filter_op: Option<String> = convert_filters(row_filters);
    let sort_op: Option<String> = convert_sorts(resolved_sort_keys);
    assert(text::texts(builder.operations@) =~= Seq::empty());
    if let Some(op) = filter_op {
        builder.add_operation(op);
    }
    let ghost first = match filter_operation(row_filters@) {
        Some(o) => seq![o],
        None => Seq::empty(),
    };
    assert(text::texts(builder.operations@) =~= first);
    if let Some(op) = sort_op {
        builder.add_operation(op);
    }
    assert(text::texts(builder.operations@) =~= operations(row_filters@, resolved_sort_keys@));
    let imports: Vec<String> = vec!["library(dplyr)".to_owned()];
    assert(text::texts(imports@) =~= seq!["library(dplyr)"@]);
    builder.build(imports)
}

/// The syntax of code that is suggested.
pub fn suggest_code_syntax() -> (r: CodeSyntaxName)
    ensures
        r.code_syntax_name@ == "dplyr"@,
{
    CodeSyntaxName { code_syntax_name: "dplyr".to_owned() }
}

/// The code always starts with the import of dplyr and an empty line, and the third
/// and last line reproduces the view. Without filters and sort keys that line is the
/// name of the table.
pub proof fn law_code_lines(
    filters: Seq<RowFilter>,
    object_name: Option<Seq<char>>,
    keys: Seq<ResolvedSortKey>,
)
    ensures
        view_code(filters, object_name, keys).len() == 3,
        view_code(filters, object_name, keys)[0] == "library(dplyr)"@,
        view_code(filters, object_name, keys)[1].len() == 0,
        filters.len() == 0 && keys.len() == 0 ==> view_code(filters, object_name, keys)[2] == (
        match object_name {
            Some(name) => name,
            None => "dat"@,
        }),
{
    if filters.len() == 0 && keys.len() == 0 {
        let table = match object_name {
            Some(name) => name,
            None => "dat"@,
        };
        assert(seq![table] + operations(filters, keys) =~= seq![table]);
    }
}

/// The rows are sorted by the columns of the sort keys, in the order of the keys: the
/// code arranges by the name of a column whose key is ascending, and by `desc` of the
/// name of one whose key is not.
pub proof fn law_sort_keys_arrange_rows(name: Seq<char>, keys: Seq<ResolvedSortKey>)
    requires
        keys.len() > 0,
    ensures
        view_code(Seq::empty(), Some(name), keys)[2] == name + " |>\n  "@ + ("arrange("@
            + text::joined(
            Seq::new(
                keys.len(),
                |i: int|
                    if keys[i].ascending {
                        keys[i].column_name@
                    } else {
                        "desc("@ + keys[i].column_name@ + ")"@
                    },
            ),
            ", "@,
        ) + ")"@),
        keys.len() == 1 && keys[0].ascending ==> view_code(Seq::empty(), Some(name), keys)[2]
            == name + " |>\n  "@ + ("arrange("@ + keys[0].column_name@ + ")"@),
        keys.len() == 1 && !keys[0].ascending ==> view_code(Seq::empty(), Some(name), keys)[2]
            == name + " |>\n  "@ + ("arrange("@ + ("desc("@ + keys[0].column_name@ + ")"@)
            + ")"@),
{
    let exprs = Seq::new(
        keys.len(),
        |i: int|
            if keys[i].ascending {
                keys[i].column_name@
            } else {
                "desc("@ + keys[i].column_name@ + ")"@
            },
    );
    assert(keys.map_values(|k: ResolvedSortKey| sort_expression(k)) =~= exprs);
    let o = sort_operation(keys)->0;
    assert(filter_expressions(Seq::empty()).len() == 0);
    assert(operations(Seq::empty(), keys) =~= seq![o]);
    lemma_two_parts(name, o, " |>\n  "@);
    assert(seq![name] + operations(Seq::empty(), keys) =~= seq![name, o]);
}

proof fn lemma_two_parts(a: Seq<char>, b: Seq<char>, sep: Seq<char>)
    ensures
        text::joined(seq![a, b], sep) == a + sep + b,
{
    assert(seq![a, b].drop_last() =~= seq![a]);
    assert(text::joined(seq![a], sep) == a);
}

/// Code that sorts in the other direction is other code: of two views with one sort key
/// each, on the same column, the one that descends has `desc` around the column that the
/// other one arranges by.
pub proof fn law_directions_differ(
    name: Seq<char>,
    up: ResolvedSortKey,
    down: ResolvedSortKey,
)
    requires
        up.ascending,
        !down.ascending,
        up.column_name@ == down.column_name@,
    ensures
        view_code(Seq::empty(), Some(name), seq![up])[2] != view_code(
            Seq::empty(),
            Some(name),
            seq![down],
        )[2],
        view_code(Seq::empty(), Some(name), seq![up])[2].len() + 6 == view_code(
            Seq::empty(),
            Some(name),
            seq![down],
        )[2].len(),
{
    reveal_strlit("desc(");
    reveal_strlit(")");
    law_sort_keys_arrange_rows(name, seq![up]);
    law_sort_keys_arrange_rows(name, seq![down]);
    assert(view_code(Seq::empty(), Some(name), seq![up])[2].len() + 6 == view_code(
        Seq::empty(),
        Some(name),
        seq![down],
    )[2].len());
}

/// The rows are filtered by all filters that can be written down, in their order, each on
/// a line of its own, before they are sorted.
pub proof fn law_filters_come_first(
    name: Seq<char>,
    filters: Seq<RowFilter>,
    keys: Seq<ResolvedSortKey>,
)
    requires
        filters.len() > 0,
        forall|i: int| 0 <= i < filters.len() ==> dplyr_filter(#[trigger] filters[i]) is Some,
    ensures
        ({
            let written = Seq::new(filters.len(), |i: int| dplyr_filter(filters[i])->0);
            let filter = "filter(\n    "@ + text::joined(written, ",\n    "@) + "\n  )"@;
            &&& view_code(filters, Some(name), Seq::empty())[2] == name + " |>\n  "@ + filter
            &&& keys.len() > 0 ==> view_code(filters, Some(name), keys)[2] == name + " |>\n  "@
                + filter + " |>\n  "@ + sort_operation(keys)->0
        }),
{
    let written = Seq::new(filters.len(), |i: int| dplyr_filter(filters[i])->0);
    lemma_all_written(filters);
    let f = filter_operation(filters)->0;
    let sep = " |>\n  "@;
    assert(operations(filters, Seq::empty()) =~= seq![f]);
    assert(seq![name] + operations(filters, Seq::empty()) =~= seq![name, f]);
    lemma_two_parts(name, f, sep);
    if keys.len() > 0 {
        let o = sort_operation(keys)->0;
        assert(operations(filters, keys) =~= seq![f, o]);
        let parts = seq![name, f, o];
        assert(seq![name] + operations(filters, keys) =~= parts);
        assert(parts.drop_last() =~= seq![name, f]);
    }
}

proof fn lemma_all_written(filters: Seq<RowFilter>)
    requires
        forall|i: int| 0 <= i < filters.len() ==> dplyr_filter(#[trigger] filters[i]) is Some,
    ensures
        filter_expressions(filters) == Seq::new(
            filters.len(),
            |i: int| dplyr_filter(filters[i])->0,
        ),
    decreases filters.len(),
{
    if filters.len() > 0 {
        let rest = filters.drop_last();
        assert forall|i: int| 0 <= i < rest.len() implies dplyr_filter(#[trigger] rest[i]) is Some by {
            assert(rest[i] == filters[i]);
        }
        lemma_all_written(rest);
        assert(dplyr_filter(filters[filters.len() - 1]) is Some);
    }
    assert(filter_expressions(filters) =~= Seq::new(
        filters.len(),
        |i: int| dplyr_filter(filters[i])->0,
    ));
}

/// A comparison is written with the operator of R that it names, between the column and
/// the value. A number is written as it is, a text as a string, and a truth value as R
/// writes it.
pub proof fn law_comparisons_are_written(filter: RowFilter, c: FilterComparison)
    requires
        filter.filter_type == RowFilterType::Compare,
        filter.params == Some(RowFilterParams::Comparison(c)),
    ensures
        ({
            let column = filter.column_schema.column_name@;
            let op = match c.op {
                FilterComparisonOp::Eq => "=="@,
                FilterComparisonOp::NotEq => "!="@,
                FilterComparisonOp::Lt => "<"@,
                FilterComparisonOp::LtEq => "<="@,
                FilterComparisonOp::Gt => ">"@,
                FilterComparisonOp::GtEq => ">="@,
            };
            let shown = filter.column_schema.type_display;
            &&& shown == ColumnDisplayType::Number ==> dplyr_filter(filter) == Some(
                column + " "@ + op + " "@ + c.value@,
            )
            &&& shown == ColumnDisplayType::String || shown == ColumnDisplayType::Date || shown
                == ColumnDisplayType::Datetime || shown == ColumnDisplayType::Time
                ==> dplyr_filter(filter) == Some(column + " "@ + op + " "@ + quoted(c.value@))
            &&& shown == ColumnDisplayType::Boolean && text::lowercase(c.value@) == "true"@
                ==> dplyr_filter(filter) == Some(column + " "@ + op + " "@ + "TRUE"@)
            &&& shown == ColumnDisplayType::Boolean && text::lowercase(c.value@) == "false"@
                ==> dplyr_filter(filter) == Some(column + " "@ + op + " "@ + "FALSE"@)
        }),
{
    reveal_strlit("true");
    reveal_strlit("false");
    if text::lowercase(c.value@) == "false"@ {
        assert("true"@[0] != "false"@[0]);
    }
}

/// Filters that need no values, and those that keep the other rows: the filter that keeps
/// what another one drops is written with the opposite test.
pub proof fn law_opposite_filters(filter: RowFilter)
    ensures
        ({
            let column = filter.column_schema.column_name@;
            let of = |t: RowFilterType| dplyr_filter(RowFilter { filter_type: t, ..filter });
            &&& of(RowFilterType::IsNull) == Some("is.na("@ + column + ")"@)
            &&& of(RowFilterType::NotNull) == Some("!is.na("@ + column + ")"@)
            &&& of(RowFilterType::IsTrue) == Some(column + " == TRUE"@)
            &&& of(RowFilterType::IsFalse) == Some(column + " == FALSE"@)
            &&& of(RowFilterType::IsEmpty) == Some(column + " == \"\""@)
            &&& of(RowFilterType::NotEmpty) == Some(column + " != \"\""@)
        }),
{
}

/// A range keeps the rows from its left to its right value, both included, and the filter
/// that leaves a range out keeps those below the left or above the right value.
pub proof fn law_ranges_are_written(filter: RowFilter, b: FilterBetween)
    requires
        filter.params == Some(RowFilterParams::Between(b)),
        filter.column_schema.type_display == ColumnDisplayType::Number,
    ensures
        ({
            let column = filter.column_schema.column_name@;
            let of = |t: RowFilterType| dplyr_filter(RowFilter { filter_type: t, ..filter });
            &&& of(RowFilterType::Between) == Some(
                column + " >= "@ + b.left_value@ + " & "@ + column + " <= "@ + b.right_value@,
            )
            &&& of(RowFilterType::NotBetween) == Some(
                column + " < "@ + b.left_value@ + " | "@ + column + " > "@ + b.right_value@,
            )
        }),
{
}

/// A search is written as a call of `grepl` on the column: literal where the text may
/// stand anywhere, with a pattern that is tied to the start or the end of a value where
/// it has to stand there, and with the term as the pattern where it is one. The search
/// for rows without the text is the opposite of that for rows with it.
pub proof fn law_searches_are_written(filter: RowFilter, search: FilterTextSearch)
    requires
        filter.filter_type == RowFilterType::Search,
        filter.params == Some(RowFilterParams::TextSearch(search)),
    ensures
        ({
            let column = filter.column_schema.column_name@;
            let term = search.term@;
            &&& search.search_type == TextSearchType::Contains ==> dplyr_filter(filter) == Some(
                "grepl("@ + quoted(term) + ", "@ + column + ", fixed = TRUE)"@,
            )
            &&& search.search_type == TextSearchType::NotContains ==> dplyr_filter(filter) == Some(
                "!"@ + ("grepl("@ + quoted(term) + ", "@ + column + ", fixed = TRUE)"@),
            )
            &&& search.search_type == TextSearchType::StartsWith ==> dplyr_filter(filter) == Some(
                "grepl("@ + quoted("^"@ + escaped(term)) + ", "@ + column + ")"@,
            )
            &&& search.search_type == TextSearchType::EndsWith ==> dplyr_filter(filter) == Some(
                "grepl("@ + quoted(escaped(term) + "$"@) + ", "@ + column + ")"@,
            )
            &&& search.search_type == TextSearchType::RegexMatch ==> dplyr_filter(filter) == Some(
                "grepl("@ + quoted(term) + ", "@ + column + ")"@,
            )
        }),
{
    reveal_strlit("!");
    reveal_strlit("grepl(");
    reveal_strlit("!grepl(");
    let column = filter.column_schema.column_name@;
    let term = search.term@;
    assert("!grepl("@ + quoted(term) + ", "@ + column + ", fixed = TRUE)"@ =~= "!"@ + ("grepl("@
        + quoted(term) + ", "@ + column + ", fixed = TRUE)"@));
}

/// Membership in a set is written with the values as strings, in their order, and the
/// rows outside of the set are the opposite of those in it.
pub proof fn law_sets_are_written(filter: RowFilter, set: FilterSetMembership)
    requires
        filter.filter_type == RowFilterType::SetMembership,
        filter.params == Some(RowFilterParams::SetMembership(set)),
    ensures
        ({
            let column = filter.column_schema.column_name@;
            let values = text::joined(
                Seq::new(set.values@.len(), |i: int| quoted(set.values@[i]@)),
                ", "@,
            );
            let within = column + " %in% c("@ + values + ")"@;
            dplyr_filter(filter) == Some(
                if set.inclusive {
                    within
                } else {
                    "!("@ + within + ")"@
                },
            )
        }),
{
    reveal_strlit(")");
    reveal_strlit("))");
    let column = filter.column_schema.column_name@;
    assert(all_quoted(set.values@) =~= Seq::new(
        set.values@.len(),
        |i: int| quoted(set.values@[i]@),
    ));
    let values = text::joined(all_quoted(set.values@), ", "@);
    assert("!("@ + column + " %in% c("@ + values + "))"@ =~= "!("@ + (column + " %in% c("@ + values
        + ")"@) + ")"@);
}

/// A filter whose parameters are missing or those of another filter is not written.
pub proof fn law_filters_without_parameters(filter: RowFilter)
    ensures
        filter.params is None && (filter.filter_type == RowFilterType::Compare
            || filter.filter_type == RowFilterType::Between || filter.filter_type
            == RowFilterType::NotBetween || filter.filter_type == RowFilterType::Search
            || filter.filter_type == RowFilterType::SetMembership) ==> dplyr_filter(filter) is None,
{
}

/// In a string, quotes and backslashes get a backslash before them. In a pattern all the
/// characters do that stand for something else there. Others stay.
pub proof fn law_what_gets_a_backslash(s: Seq<char>, c: char)
    ensures
        quoted(Seq::empty()) == "\"\""@,
        c == '"' || c == '\\' ==> special_in_string(c),
        c != '"' && c != '\\' ==> !special_in_string(c),
        escaped(Seq::empty()).len() == 0,
        c == '.' || c == '*' || c == '+' || c == '?' || c == '[' || c == ']' || c == '(' || c == ')'
            || c == '{' || c == '}' || c == '^' || c == '$' || c == '|' || c == '\\' ==> escaped(
            s.push(c),
        ) == escaped(s) + seq!['\\', c],
        c != '.' && c != '*' && c != '+' && c != '?' && c != '[' && c != ']' && c != '(' && c != ')'
            && c != '{' && c != '}' && c != '^' && c != '$' && c != '|' && c != '\\' ==> escaped(
            s.push(c),
        ) == escaped(s) + seq![c],
{
    reveal_strlit("\"");
    reveal_strlit("\"\"");
    assert(s.push(c).drop_last() =~= s);
    assert(backslashed(Seq::empty(), |c: char| special_in_string(c)) =~= Seq::<char>::empty());
    assert(quoted(Seq::empty()) =~= "\"\""@);
}

} // verus!
