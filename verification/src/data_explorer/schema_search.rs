//! Search in the columns of a table.
use vstd::prelude::*;

use crate::data_explorer::data_explorer_comm::{
    ColumnDisplayType, ColumnFilter, ColumnFilterParams, ColumnFilterType, ColumnSchema,
    FilterTextSearch, SearchSchemaParams, SearchSchemaSortOrder, TextSearchType,
};
use crate::data_explorer::sorting::{
    ascending, comes_before, in_order, law_sorted_numbers, lemma_ascending_never_falls,
    never_falls, sort_ascending, sort_by_text, Direction,
};
use crate::text;

verus! {

/// A name is found by a term. Regular expressions are taken literally.
pub open spec fn found(search_type: TextSearchType, name: Seq<char>, term: Seq<char>) -> bool {
    match search_type {
        TextSearchType::Contains => text::contains_text(name, term),
        TextSearchType::NotContains => !text::contains_text(name, term),
        TextSearchType::StartsWith => term.is_prefix_of(name),
        TextSearchType::EndsWith => term.is_suffix_of(name),
        TextSearchType::RegexMatch => text::contains_text(name, term),
    }
}

/// Whether a name is found by a term.
pub fn search_text(search_type: TextSearchType, name: &str, term: &str) -> (r: bool)
    ensures
        r == found(search_type, name@, term@),
{
    match search_type {
        TextSearchType::Contains => text::contains(name, term),
        TextSearchType::NotContains => !text::contains(name, term),
        TextSearchType::StartsWith => text::starts_with(name, term),
        TextSearchType::EndsWith => text::ends_with(name, term),
        TextSearchType::RegexMatch => text::contains(name, term),
    }
}

/// A name is found by a search.
pub open spec fn text_matches(search: FilterTextSearch, name: Seq<char>) -> bool {
    if search.case_sensitive {
        found(search.search_type, name, search.term@)
    } else {
        found(search.search_type, text::lowercase(name), text::lowercase(search.term@))
    }
}

/// A column passes a filter. A filter whose parameters are not of its type lets no
/// column pass.
pub open spec fn column_matches(column: ColumnSchema, filter: ColumnFilter) -> bool {
    match (filter.filter_type, filter.params) {
        (ColumnFilterType::TextSearch, ColumnFilterParams::TextSearch(search)) => text_matches(
            search,
            column.column_name@,
        ),
        (
            ColumnFilterType::MatchDataTypes,
            ColumnFilterParams::MatchDataTypes { display_types },
        ) => display_types@.contains(column.type_display),
        _ => false,
    }
}

fn holds_type(types: &Vec<ColumnDisplayType>, t: ColumnDisplayType) -> (r: bool)
    ensures
        r == types@.contains(t),
{
    let n: usize = types.len();
    let mut i: usize = 0;
    while i < n
        invariant
            n == types@.len(),
            i <= n,
            forall|k: int| 0 <= k < i ==> types@[k] != t,
        decreases n - i,
    {
        if types[i] == t {
            return true;
        }
        i = i + 1;
    }
    false
}

/// Whether a column passes a filter.
pub fn column_matches_filter(column: &ColumnSchema, filter: &ColumnFilter) -> (r: bool)
    ensures
        r == column_matches(*column, *filter),
{
    match filter.filter_type {
        ColumnFilterType::TextSearch => match &filter.params {
            ColumnFilterParams::TextSearch(search) => {
                if search.case_sensitive {
                    search_text(
                        search.search_type,
                        column.column_name.as_str(),
                        search.term.as_str(),
                    )
                } else {
                    let name: String = text::to_lowercase(column.column_name.as_str());
                    let term: String = text::to_lowercase(search.term.as_str());
                    search_text(search.search_type, name.as_str(), term.as_str())
                }
            },
            _ => false,
        },
        ColumnFilterType::MatchDataTypes => match &filter.params {
            ColumnFilterParams::MatchDataTypes { display_types } => holds_type(
                display_types,
                column.type_display,
            ),
            _ => false,
        },
    }
}

/// A column passes all filters.
pub open spec fn matches_all(column: ColumnSchema, filters: Seq<ColumnFilter>) -> bool {
    forall|k: int| 0 <= k < filters.len() ==> column_matches(column, #[trigger] filters[k])
}

fn column_matches_all(column: &ColumnSchema, filters: &Vec<ColumnFilter>) -> (r: bool)
    ensures
        r == matches_all(*column, filters@),
{
    let n: usize = filters.len();
    let mut i: usize = 0;
    while i < n
        invariant
            n == filters@.len(),
            i <= n,
            forall|k: int| 0 <= k < i ==> column_matches(*column, #[trigger] filters@[k]),
        decreases n - i,
    {
        if !column_matches_filter(column, &filters[i]) {
            assert(!column_matches(*column, filters@[i as int]));
            return false;
        }
        i = i + 1;
    }
    true
}

/// The indices of the columns that pass all filters, in the order of the table.
pub open spec fn matching(columns: Seq<ColumnSchema>, filters: Seq<ColumnFilter>) -> Seq<i64>
    decreases columns.len(),
{
    if columns.len() == 0 {
        Seq::empty()
    } else {
        let rest = matching(columns.drop_last(), filters);
        if matches_all(columns.last(), filters) {
            rest.push((columns.len() - 1) as i64)
        } else {
            rest
        }
    }
}

/// The columns that pass all filters, one by one.
proof fn lemma_matching(columns: Seq<ColumnSchema>, filters: Seq<ColumnFilter>)
    requires
        columns.len() <= i64::MAX,
    ensures
        forall|k: int|
            0 <= k < matching(columns, filters).len() ==> 0 <= #[trigger] matching(
                columns,
                filters,
            )[k] < columns.len() && matches_all(
                columns[matching(columns, filters)[k] as int],
                filters,
            ),
        forall|k: int, l: int|
            0 <= k < l < matching(columns, filters).len() ==> matching(columns, filters)[k]
                < matching(columns, filters)[l],
    decreases columns.len(),
{
    if columns.len() > 0 {
        let shorter = columns.drop_last();
        let rest = matching(shorter, filters);
        let all = matching(columns, filters);
        lemma_matching(shorter, filters);
        assert forall|k: int| 0 <= k < all.len() implies 0 <= #[trigger] all[k] < columns.len()
            && matches_all(columns[all[k] as int], filters) by {
            if k < rest.len() {
                assert(all[k] == rest[k]);
                assert(columns[rest[k] as int] == shorter[rest[k] as int]);
            }
        }
        assert forall|k: int, l: int| 0 <= k < l < all.len() implies all[k] < all[l] by {
            assert(all[k] == rest[k]);
            if l < rest.len() {
                assert(all[l] == rest[l]);
            }
        }
    }
}

/// The indices of the columns that pass all filters.
fn matching_indices(columns: &Vec<ColumnSchema>, filters: &Vec<ColumnFilter>) -> (r: Vec<i64>)
    requires
        columns@.len() <= i64::MAX,
    ensures
        r@ == matching(columns@, filters@),
{
    let mut r: Vec<i64> = Vec::new();
    let n: usize = columns.len();
    let mut i: usize = 0;
    assert(columns@.take(0) =~= Seq::<ColumnSchema>::empty());
    while i < n
        invariant
            n == columns@.len(),
            n <= i64::MAX,
            i <= n,
            r@ == matching(columns@.take(i as int), filters@),
        decreases n - i,
    {
        assert(columns@.take(i + 1).drop_last() =~= columns@.take(i as int));
        if column_matches_all(&columns[i], filters) {
            r.push(i as i64);
        }
        i = i + 1;
    }
    assert(columns@.take(n as int) =~= columns@);
    r
}

/// What a column is sorted by.
pub open spec fn sort_text(column: ColumnSchema, order: SearchSchemaSortOrder) -> Seq<char> {
    match order {
        SearchSchemaSortOrder::AscendingName => column.column_name@,
        SearchSchemaSortOrder::DescendingName => column.column_name@,
        _ => text::lowercase(column.type_label@),
    }
}

/// What columns are sorted by, one for each column.
pub open spec fn is_sort_keys(
    keys: Seq<String>,
    columns: Seq<ColumnSchema>,
    order: SearchSchemaSortOrder,
) -> bool {
    &&& keys.len() == columns.len()
    &&& forall|i: int|
        0 <= i < keys.len() ==> (#[trigger] keys[i])@ == sort_text(columns[i], order)
}

fn keys_of(columns: &Vec<ColumnSchema>, order: SearchSchemaSortOrder) -> (r: Vec<String>)
    ensures
        is_sort_keys(r@, columns@, order),
{
    let mut r: Vec<String> = Vec::new();
    let n: usize = columns.len();
    let mut i: usize = 0;
    while i < n
        invariant
            n == columns@.len(),
            i <= n,
            r@.len() == i,
            forall|k: int|
                0 <= k < r@.len() ==> (#[trigger] r@[k])@ == sort_text(columns@[k], order),
        decreases n - i,
    {
        let key: String = match order {
            SearchSchemaSortOrder::AscendingName => columns[i].column_name.clone(),
            SearchSchemaSortOrder::DescendingName => columns[i].column_name.clone(),
            _ => text::to_lowercase(columns[i].type_label.as_str()),
        };
        r.push(key);
        i = i + 1;
    }
    r
}

/// The direction of an order that sorts.
pub open spec fn direction_of(order: SearchSchemaSortOrder) -> Option<Direction> {
    match order {
        SearchSchemaSortOrder::Original => None,
        SearchSchemaSortOrder::AscendingName => Some(Direction::Ascending),
        SearchSchemaSortOrder::DescendingName => Some(Direction::Descending),
        SearchSchemaSortOrder::AscendingType => Some(Direction::Ascending),
        SearchSchemaSortOrder::DescendingType => Some(Direction::Descending),
    }
}

/// What a search finds: the columns that pass all filters, in the order asked for.
/// Columns with equal names or types keep the order of the table.
pub open spec fn is_search_result(
    r: Seq<i64>,
    columns: Seq<ColumnSchema>,
    params: SearchSchemaParams,
) -> bool {
    match direction_of(params.sort_order) {
        None => r == matching(columns, params.filters@),
        Some(direction) => {
            &&& r.to_multiset() == matching(columns, params.filters@).to_multiset()
            &&& exists|keys: Seq<String>|
                #![trigger is_sort_keys(keys, columns, params.sort_order)]
                is_sort_keys(keys, columns, params.sort_order) && in_order(r, keys, direction)
        },
    }
}

/// The indices of the columns that pass all filters, in the order asked for.
pub fn search_schema(columns: &Vec<ColumnSchema>, params: &SearchSchemaParams) -> (r: Vec<i64>)
    requires
        columns@.len() <= i64::MAX,
    ensures
        is_search_result(r@, columns@, *params),
{
    let found: Vec<i64> = matching_indices(columns, &params.filters);
    let direction: Direction = match params.sort_order {
        SearchSchemaSortOrder::Original => {
            return found;
        },
        SearchSchemaSortOrder::AscendingName => Direction::Ascending,
        SearchSchemaSortOrder::DescendingName => Direction::Descending,
        SearchSchemaSortOrder::AscendingType => Direction::Ascending,
        SearchSchemaSortOrder::DescendingType => Direction::Descending,
    };
    proof {
        lemma_matching(columns@, params.filters@);
    }
    let keys: Vec<String> = keys_of(columns, params.sort_order);
    sort_by_text(found, &keys, direction)
}

/// A search finds a column if and only if the column passes all filters.
pub proof fn law_search_finds_matching(
    columns: Seq<ColumnSchema>,
    params: SearchSchemaParams,
    r: Seq<i64>,
    column: i64,
)
    requires
        columns.len() <= i64::MAX,
        is_search_result(r, columns, params),
    ensures
        r.contains(column) <==> 0 <= column < columns.len() && matches_all(
            columns[column as int],
            params.filters@,
        ),
{
    let all = matching(columns, params.filters@);
    lemma_matching(columns, params.filters@);
    lemma_all_matching(columns, params.filters@, column);
    all.to_multiset_ensures();
    r.to_multiset_ensures();
    if direction_of(params.sort_order) is Some {
        assert(r.contains(column) <==> r.to_multiset().count(column) > 0);
        assert(all.contains(column) <==> all.to_multiset().count(column) > 0);
    }
}

proof fn lemma_all_matching(columns: Seq<ColumnSchema>, filters: Seq<ColumnFilter>, column: i64)
    requires
        columns.len() <= i64::MAX,
    ensures
        matching(columns, filters).contains(column) <==> 0 <= column < columns.len()
            && matches_all(columns[column as int], filters),
    decreases columns.len(),
{
    if columns.len() > 0 {
        let rest = matching(columns.drop_last(), filters);
        lemma_all_matching(columns.drop_last(), filters, column);
        let last = (columns.len() - 1) as i64;
        if matches_all(columns.last(), filters) {
            assert(rest.push(last).contains(column) <==> rest.contains(column) || column == last)
                by {
                if rest.contains(column) {
                    let k = choose|k: int| 0 <= k < rest.len() && rest[k] == column;
                    assert(rest.push(last)[k] == column);
                }
                if column == last {
                    assert(rest.push(last)[rest.len() as int] == column);
                }
            }
        }
    }
}

/// The columns with indices in ascending order, up to the last that there is.
pub open spec fn schema_of(columns: Seq<ColumnSchema>, indices: Seq<i64>) -> Seq<ColumnSchema> {
    ascending(indices).filter(|i: i64| i < columns.len()).map_values(|i: i64| columns[i as int])
}

/// Why a schema cannot be told, in words: the lowest index is negative.
pub open spec fn schema_fault(indices: Seq<i64>) -> Option<Seq<char>> {
    if indices.len() > 0 && ascending(indices)[0] < 0 {
        Some("Column index out of range "@ + text::decimal_int(ascending(indices)[0] as int))
    } else {
        None
    }
}

/// The columns with the given indices. They are told in ascending order, and those
/// beyond the last column are left out.
pub fn get_schema(columns: &Vec<ColumnSchema>, column_indices: Vec<i64>) -> (r: Result<
    Vec<ColumnSchema>,
    String,
>)
    ensures
        match schema_fault(column_indices@) {
            Some(message) => r matches Err(m) && m@ == message,
            None => r matches Ok(out) && out@ == schema_of(columns@, column_indices@),
        },
{
    let ghost all = ascending(column_indices@);
    proof {
        lemma_ascending_never_falls(column_indices@);
    }
    let indices: Vec<i64> = sort_ascending(column_indices);
    let count: usize = columns.len();
    let n: usize = indices.len();
    let ghost keep = |i: i64| i < columns@.len();
    let ghost column_at = |i: i64| columns@[i as int];
    let mut out: Vec<ColumnSchema> = Vec::new();
    let mut i: usize = 0;
    assert(all.take(0).filter(keep) =~= Seq::<i64>::empty()) by {
        reveal(Seq::filter);
    }
    while i < n
        invariant
            count == columns@.len(),
            n == indices@.len(),
            i <= n,
            all == indices@,
            never_falls(all),
            i > 0 ==> all[0] >= 0,
            keep == (|i: i64| i < columns@.len()),
            column_at == (|i: i64| columns@[i as int]),
            all.len() == column_indices@.len(),
            all == ascending(column_indices@),
            out@ =~= all.take(i as int).filter(keep).map_values(column_at),
        decreases n - i,
    {
        let index: i64 = indices[i];
        if index < 0 {
            assert(i == 0) by {
                if i > 0 {
                    assert(all[0] <= all[i as int]);
                }
            }
            return Err(text::join2("Column index out of range ", text::i64_text(index).as_str()));
        }
        if index as u64 >= count as u64 {
            proof {
                lemma_rest_left_out(all, i as int, columns@.len() as int);
                assert(all[0] <= all[i as int]);
            }
            if i == 0 {
                assert(all[0] >= 0);
            }
            return Ok(out);
        }
        proof {
            let before = all.take(i as int);
            assert(all.take(i + 1) =~= before.push(index));
            before.lemma_filter_push(index, keep);
            assert(keep(index));
            assert(before.push(index).filter(keep) == before.filter(keep).push(index));
        }
        out.push(columns[index as usize].copied());
        i = i + 1;
    }
    assert(all.take(n as int) =~= all);
    Ok(out)
}

/// All numbers from one that is too large on are too large.
proof fn lemma_rest_left_out(s: Seq<i64>, i: int, n: int)
    requires
        never_falls(s),
        0 <= i < s.len(),
        s[i] >= n,
    ensures
        s.filter(|x: i64| x < n) == s.take(i).filter(|x: i64| x < n),
    decreases s.len() - i,
{
    let keep = |x: i64| x < n;
    let t = s.take(i);
    assert(s.take(i + 1) =~= t.push(s[i]));
    t.lemma_filter_push(s[i], keep);
    if i + 1 < s.len() {
        assert(s[i] <= s[i + 1]);
        lemma_rest_left_out(s, i + 1, n);
    } else {
        assert(s.take(i + 1) =~= s);
    }
}

/// A text stands somewhere in another.
pub open spec fn stands_somewhere(s: Seq<char>, p: Seq<char>) -> bool {
    exists|before: Seq<char>, after: Seq<char>| #[trigger] (before + p + after) == s
}

/// A text is found in a name where it stands: anywhere, nowhere, at the start or at the
/// end.
pub proof fn law_where_texts_are_found(name: Seq<char>, term: Seq<char>)
    ensures
        found(TextSearchType::Contains, name, term) <==> stands_somewhere(name, term),
        found(TextSearchType::NotContains, name, term) <==> !stands_somewhere(name, term),
        found(TextSearchType::RegexMatch, name, term) <==> stands_somewhere(name, term),
        found(TextSearchType::StartsWith, name, term) <==> exists|after: Seq<char>|
            #[trigger] (term + after) == name,
        found(TextSearchType::EndsWith, name, term) <==> exists|before: Seq<char>|
            #[trigger] (before + term) == name,
{
    if text::contains_text(name, term) {
        let i = choose|i: int| text::occurs_at(name, term, i);
        assert(name.take(i) + term + name.skip(i + term.len()) =~= name);
    }
    if stands_somewhere(name, term) {
        let (before, after) = choose|before: Seq<char>, after: Seq<char>|
            #[trigger] (before + term + after) == name;
        let i = before.len() as int;
        assert(name.subrange(i, i + term.len()) =~= term);
        assert(text::occurs_at(name, term, i));
    }
    if term.is_prefix_of(name) {
        assert(term + name.skip(term.len() as int) =~= name);
    }
    if exists|after: Seq<char>| #[trigger] (term + after) == name {
        let after = choose|after: Seq<char>| #[trigger] (term + after) == name;
        assert(name.subrange(0, term.len() as int) =~= term);
    }
    if term.is_suffix_of(name) {
        assert(name.take(name.len() - term.len()) + term =~= name);
    }
    if exists|before: Seq<char>| #[trigger] (before + term) == name {
        let before = choose|before: Seq<char>| #[trigger] (before + term) == name;
        assert(name.subrange(name.len() - term.len(), name.len() as int) =~= term);
    }
}

/// A search that minds the case looks for the term as it is, and one that does not for
/// the term in lower case in the name in lower case.
pub proof fn law_case_of_searches(search: FilterTextSearch, name: Seq<char>)
    ensures
        search.case_sensitive ==> text_matches(search, name) == found(
            search.search_type,
            name,
            search.term@,
        ),
        !search.case_sensitive ==> text_matches(search, name) == found(
            search.search_type,
            text::lowercase(name),
            text::lowercase(search.term@),
        ),
        !search.case_sensitive ==> forall|other: Seq<char>|
            text::lowercase(other) == text::lowercase(name) ==> #[trigger] text_matches(
                search,
                other,
            ) == text_matches(search, name),
{
}

/// A column is found if it meets all filters: more filters find fewer columns, and none
/// at all finds every column.
pub proof fn law_filters_narrow_the_search(
    column: ColumnSchema,
    some: Seq<ColumnFilter>,
    more: Seq<ColumnFilter>,
)
    ensures
        matches_all(column, Seq::empty()),
        matches_all(column, some + more) <==> matches_all(column, some) && matches_all(
            column,
            more,
        ),
{
    let all = some + more;
    if matches_all(column, all) {
        assert forall|k: int| 0 <= k < some.len() implies column_matches(
            column,
            #[trigger] some[k],
        ) by {
            assert(all[k] == some[k]);
        }
        assert forall|k: int| 0 <= k < more.len() implies column_matches(
            column,
            #[trigger] more[k],
        ) by {
            assert(all[some.len() + k] == more[k]);
        }
    }
    if matches_all(column, some) && matches_all(column, more) {
        assert forall|k: int| 0 <= k < all.len() implies column_matches(
            column,
            #[trigger] all[k],
        ) by {
            if k < some.len() {
                assert(all[k] == some[k]);
            } else {
                assert(all[k] == more[k - some.len()]);
            }
        }
    }
}

/// A filter by type finds the columns that are shown as one of the types.
pub proof fn law_type_filter_finds_types(
    column: ColumnSchema,
    filter: ColumnFilter,
    types: Vec<ColumnDisplayType>,
)
    requires
        filter.filter_type == ColumnFilterType::MatchDataTypes,
        filter.params == (ColumnFilterParams::MatchDataTypes { display_types: types }),
    ensures
        column_matches(column, filter) <==> exists|i: int|
            0 <= i < types@.len() && #[trigger] types@[i] == column.type_display,
{
}

/// The columns that a search finds come in the order that was asked for: as in the table,
/// by name or by the lower case name of the type, upwards or downwards. Columns that are
/// equal in that come as in the table.
pub proof fn law_order_of_found_columns(
    columns: Seq<ColumnSchema>,
    params: SearchSchemaParams,
    r: Seq<i64>,
    i: int,
    j: int,
)
    requires
        columns.len() <= i64::MAX,
        is_search_result(r, columns, params),
        0 <= i < j < r.len(),
    ensures
        0 <= r[i] < columns.len(),
        0 <= r[j] < columns.len(),
        ({
            let a = columns[r[i] as int];
            let b = columns[r[j] as int];
            match params.sort_order {
                SearchSchemaSortOrder::Original => r[i] < r[j],
                SearchSchemaSortOrder::AscendingName => comes_before(
                    a.column_name@,
                    b.column_name@,
                ) || a.column_name@ == b.column_name@ && r[i] < r[j],
                SearchSchemaSortOrder::DescendingName => comes_before(
                    b.column_name@,
                    a.column_name@,
                ) || a.column_name@ == b.column_name@ && r[i] < r[j],
                SearchSchemaSortOrder::AscendingType => comes_before(
                    text::lowercase(a.type_label@),
                    text::lowercase(b.type_label@),
                ) || text::lowercase(a.type_label@) == text::lowercase(b.type_label@) && r[i]
                    < r[j],
                SearchSchemaSortOrder::DescendingType => comes_before(
                    text::lowercase(b.type_label@),
                    text::lowercase(a.type_label@),
                ) || text::lowercase(a.type_label@) == text::lowercase(b.type_label@) && r[i]
                    < r[j],
            }
        }),
{
    law_search_finds_matching(columns, params, r, r[i]);
    law_search_finds_matching(columns, params, r, r[j]);
    assert(r.contains(r[i]) && r.contains(r[j]));
    if params.sort_order == SearchSchemaSortOrder::Original {
        lemma_matching_ascends(columns, params.filters@, i, j);
    } else {
        let direction = direction_of(params.sort_order)->0;
        let keys = choose|keys: Seq<String>|
            #![trigger is_sort_keys(keys, columns, params.sort_order)]
            is_sort_keys(keys, columns, params.sort_order) && in_order(r, keys, direction);
        assert(keys[r[i] as int]@ == sort_text(columns[r[i] as int], params.sort_order));
        assert(keys[r[j] as int]@ == sort_text(columns[r[j] as int], params.sort_order));
    }
}

proof fn lemma_matching_ascends(
    columns: Seq<ColumnSchema>,
    filters: Seq<ColumnFilter>,
    i: int,
    j: int,
)
    requires
        columns.len() <= i64::MAX,
        0 <= i < j < matching(columns, filters).len(),
    ensures
        matching(columns, filters)[i] < matching(columns, filters)[j] < columns.len(),
    decreases columns.len(),
{
    let rest = matching(columns.drop_last(), filters);
    if j < rest.len() {
        lemma_matching_ascends(columns.drop_last(), filters, i, j);
    } else {
        lemma_matching_below(columns.drop_last(), filters, i);
    }
}

proof fn lemma_matching_below(columns: Seq<ColumnSchema>, filters: Seq<ColumnFilter>, i: int)
    requires
        columns.len() <= i64::MAX,
        0 <= i < matching(columns, filters).len(),
    ensures
        0 <= matching(columns, filters)[i] < columns.len(),
    decreases columns.len(),
{
    if i < matching(columns.drop_last(), filters).len() {
        lemma_matching_below(columns.drop_last(), filters, i);
    }
}

/// The columns that are told for some indices are those of the table at these indices:
/// one for each index that is there, and no others.
pub proof fn law_schema_of_indices(columns: Seq<ColumnSchema>, indices: Seq<i64>, k: int)
    requires
        schema_fault(indices) is None,
        0 <= k < schema_of(columns, indices).len(),
    ensures
        exists|i: int|
            0 <= i < indices.len() && 0 <= #[trigger] indices[i] < columns.len()
                && schema_of(columns, indices)[k] == columns[indices[i] as int],
{
    let keep = |i: i64| i < columns.len();
    let sorted = ascending(indices);
    let kept = sorted.filter(keep);
    law_sorted_numbers(indices);
    sorted.lemma_filter_pred(keep, k);
    sorted.lemma_filter_contains_rev(keep, kept[k]);
    let p = choose|p: int| 0 <= p < sorted.len() && sorted[p] == kept[k];
    assert(sorted[0] <= sorted[p]);
    sorted.to_multiset_ensures();
    indices.to_multiset_ensures();
    assert(sorted.contains(kept[k]));
    assert(sorted.to_multiset().count(kept[k]) > 0);
    assert(indices.contains(kept[k]));
    let i = choose|i: int| 0 <= i < indices.len() && indices[i] == kept[k];
    assert(0 <= indices[i] < columns.len());
}

/// A request for columns fails exactly if it asks for one before the first.
pub proof fn law_schema_fails_below_zero(indices: Seq<i64>)
    ensures
        schema_fault(indices) is Some <==> exists|i: int|
            0 <= i < indices.len() && #[trigger] indices[i] < 0,
{
    let sorted = ascending(indices);
    law_sorted_numbers(indices);
    sorted.to_multiset_ensures();
    indices.to_multiset_ensures();
    if schema_fault(indices) is Some {
        assert(sorted.contains(sorted[0]));
        assert(sorted.to_multiset().count(sorted[0]) > 0);
        assert(indices.contains(sorted[0]));
    }
    if exists|i: int| 0 <= i < indices.len() && #[trigger] indices[i] < 0 {
        let i = choose|i: int| 0 <= i < indices.len() && #[trigger] indices[i] < 0;
        assert(indices.contains(indices[i]));
        assert(indices.to_multiset().count(indices[i]) > 0);
        assert(sorted.contains(indices[i]));
        let p = choose|p: int| 0 <= p < sorted.len() && sorted[p] == indices[i];
        assert(sorted[0] <= sorted[p]);
    }
}

} // verus!
