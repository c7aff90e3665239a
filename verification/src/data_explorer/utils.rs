//! How rows and columns of a view map to those of the table, and how columns are
//! shown.
use vstd::prelude::*;

use crate::data_explorer::data_explorer_comm::ColumnDisplayType;
use crate::text;

verus! {

/// The row of the table, counted from one, for a row of the view, counted from zero.
pub open spec fn table_row(view: Option<Seq<i32>>, row: i64) -> int {
    match view {
        Some(v) => v[row as int] as int,
        None => row + 1,
    }
}

/// The view's rows, as a sequence.
pub open spec fn view_rows(view: Option<Vec<i32>>) -> Option<Seq<i32>> {
    match view {
        Some(v) => Some(v@),
        None => None,
    }
}

/// The row stands in the view.
pub open spec fn row_ok(view: Option<Seq<i32>>, row: i64) -> bool {
    match view {
        Some(v) => 0 <= row < v.len(),
        None => row < i64::MAX,
    }
}

/// The rows and columns of the table, counted from one, for rows and columns of the
/// view, counted from zero. Where all rows or columns are asked for, all of the
/// table are meant.
pub fn tbl_subset_with_view_indices(
    view_indices: &Option<Vec<i32>>,
    i: Option<Vec<i64>>,
    j: Option<Vec<i64>>,
) -> (r: (Option<Vec<i64>>, Option<Vec<i64>>))
    requires
        i matches Some(rows) ==> forall|k: int|
            0 <= k < rows@.len() ==> row_ok(view_rows(*view_indices), #[trigger] rows@[k]),
        j matches Some(columns) ==> forall|k: int|
            0 <= k < columns@.len() ==> #[trigger] columns@[k] < i64::MAX,
    ensures
        is_cut_out(r.0, r.1, view_rows(*view_indices), i, j),
{
    let rows: Option<Vec<i64>> = match i {
        None => None,
        Some(rows) => {
            let mut out: Vec<i64> = Vec::new();
            let n: usize = rows.len();
            let mut k: usize = 0;
            while k < n
                invariant
                    n == rows@.len(),
                    k <= n,
                    out@.len() == k,
                    forall|a: int|
                        0 <= a < rows@.len() ==> row_ok(
                            view_rows(*view_indices),
                            #[trigger] rows@[a],
                        ),
                    forall|a: int|
                        0 <= a < k ==> #[trigger] out@[a] == table_row(
                            view_rows(*view_indices),
                            rows@[a],
                        ),
                decreases n - k,
            {
                let row: i64 = rows[k];
                assert(row_ok(view_rows(*view_indices), rows@[k as int]));
                match view_indices {
                    Some(view) => {
                        let _count: usize = view.len();
                        out.push(view[row as usize] as i64);
                    },
                    None => {
                        out.push(row + 1);
                    },
                }
                k = k + 1;
            }
            Some(out)
        },
    };
    let columns: Option<Vec<i64>> = match j {
        None => None,
        Some(columns) => {
            let mut out: Vec<i64> = Vec::new();
            let n: usize = columns.len();
            let mut k: usize = 0;
            while k < n
                invariant
                    n == columns@.len(),
                    k <= n,
                    out@.len() == k,
                    forall|a: int| 0 <= a < columns@.len() ==> #[trigger] columns@[a] < i64::MAX,
                    forall|a: int| 0 <= a < k ==> #[trigger] out@[a] == columns@[a] + 1,
                decreases n - k,
            {
                out.push(columns[k] + 1);
                k = k + 1;
            }
            Some(out)
        },
    };
    (rows, columns)
}

/// The internal type of a vector, as far as the type that is shown depends on it.
#[derive(Clone, Copy, Debug, PartialEq, Eq, Structural)]
pub enum VectorType {
    Logical,
    Integer,
    Double,
    Complex,
    Character,
    List,
    Other,
}

/// What the type that is shown depends on.
#[derive(Debug)]
pub struct ColumnType {
    pub is_s4: bool,
    pub is_object: bool,
    /// The classes that the column inherits from.
    pub classes: Vec<String>,
    pub vector_type: VectorType,
}

/// The column inherits from a class.
pub open spec fn inherits(classes: Seq<String>, class: Seq<char>) -> bool {
    text::texts(classes).contains(class)
}

/// Whether the column inherits from a class.
pub fn r_inherits(classes: &Vec<String>, class: &str) -> (r: bool)
    ensures
        r == inherits(classes@, class@),
{
    let n: usize = classes.len();
    let mut i: usize = 0;
    while i < n
        invariant
            n == classes@.len(),
            i <= n,
            forall|k: int| 0 <= k < i ==> classes@[k]@ != class@,
        decreases n - i,
    {
        if text::same(classes[i].as_str(), class) {
            assert(text::texts(classes@)[i as int] == class@);
            return true;
        }
        i = i + 1;
    }
    assert forall|k: int| 0 <= k < text::texts(classes@).len() implies text::texts(classes@)[k]
        != class@ by {}
    false
}

/// The type that is shown for an element of a column with a class. Classes come
/// before the internal type: a labelled vector is shown by its labels whatever its
/// internal type is.
pub open spec fn class_display_type(classes: Seq<String>) -> ColumnDisplayType {
    if inherits(classes, "haven_labelled"@) {
        ColumnDisplayType::String
    } else if inherits(classes, "logical"@) {
        ColumnDisplayType::Boolean
    } else if inherits(classes, "integer"@) || inherits(classes, "double"@) || inherits(
        classes,
        "complex"@,
    ) || inherits(classes, "numeric"@) {
        ColumnDisplayType::Number
    } else if inherits(classes, "character"@) || inherits(classes, "factor"@) {
        ColumnDisplayType::String
    } else if inherits(classes, "Date"@) {
        ColumnDisplayType::Date
    } else if inherits(classes, "POSIXct"@) || inherits(classes, "POSIXlt"@) {
        ColumnDisplayType::Datetime
    } else {
        ColumnDisplayType::Unknown
    }
}

/// The type that is shown for an element of a column.
pub open spec fn spec_display_type(x: ColumnType) -> ColumnDisplayType {
    if x.is_s4 {
        ColumnDisplayType::Unknown
    } else if x.is_object {
        class_display_type(x.classes@)
    } else {
        match x.vector_type {
            VectorType::Logical => ColumnDisplayType::Boolean,
            VectorType::Integer => ColumnDisplayType::Number,
            VectorType::Double => ColumnDisplayType::Number,
            VectorType::Complex => ColumnDisplayType::Number,
            VectorType::Character => ColumnDisplayType::String,
            _ => ColumnDisplayType::Unknown,
        }
    }
}

/// The type that is shown for an element of a column.
pub fn display_type(x: &ColumnType) -> (r: ColumnDisplayType)
    ensures
        r == spec_display_type(*x),
{
    if x.is_s4 {
        return ColumnDisplayType::Unknown;
    }
    if x.is_object {
        if r_inherits(&x.classes, "haven_labelled") {
            return ColumnDisplayType::String;
        }
        if r_inherits(&x.classes, "logical") {
            return ColumnDisplayType::Boolean;
        }
        if r_inherits(&x.classes, "integer") || r_inherits(&x.classes, "double") || r_inherits(
            &x.classes,
            "complex",
        ) || r_inherits(&x.classes, "numeric") {
            return ColumnDisplayType::Number;
        }
        if r_inherits(&x.classes, "character") || r_inherits(&x.classes, "factor") {
            return ColumnDisplayType::String;
        }
        if r_inherits(&x.classes, "Date") {
            return ColumnDisplayType::Date;
        }
        if r_inherits(&x.classes, "POSIXct") || r_inherits(&x.classes, "POSIXlt") {
            return ColumnDisplayType::Datetime;
        }
        return ColumnDisplayType::Unknown;
    }
    match x.vector_type {
        VectorType::Logical => ColumnDisplayType::Boolean,
        VectorType::Integer => ColumnDisplayType::Number,
        VectorType::Double => ColumnDisplayType::Number,
        VectorType::Complex => ColumnDisplayType::Number,
        VectorType::Character => ColumnDisplayType::String,
        _ => ColumnDisplayType::Unknown,
    }
}

/// How columns are shown: a plain vector by the type of its values, an object by its
/// classes, of which the first in this list that it has decides, and an S4 object as
/// unknown.
pub proof fn law_how_columns_are_shown(x: ColumnType, class: String)
    ensures
        x.is_s4 ==> spec_display_type(x) == ColumnDisplayType::Unknown,
        !x.is_s4 && !x.is_object ==> {
            &&& x.vector_type == VectorType::Logical ==> spec_display_type(x)
                == ColumnDisplayType::Boolean
            &&& x.vector_type == VectorType::Integer || x.vector_type == VectorType::Double
                || x.vector_type == VectorType::Complex ==> spec_display_type(x)
                == ColumnDisplayType::Number
            &&& x.vector_type == VectorType::Character ==> spec_display_type(x)
                == ColumnDisplayType::String
        },
        !x.is_s4 && x.is_object && x.classes@ == seq![class] ==> {
            &&& class@ == "haven_labelled"@ || class@ == "character"@ || class@ == "factor"@
                ==> spec_display_type(x) == ColumnDisplayType::String
            &&& class@ == "logical"@ ==> spec_display_type(x) == ColumnDisplayType::Boolean
            &&& class@ == "integer"@ || class@ == "double"@ || class@ == "complex"@ || class@
                == "numeric"@ ==> spec_display_type(x) == ColumnDisplayType::Number
            &&& class@ == "Date"@ ==> spec_display_type(x) == ColumnDisplayType::Date
            &&& class@ == "POSIXct"@ || class@ == "POSIXlt"@ ==> spec_display_type(x)
                == ColumnDisplayType::Datetime
        },
{
    reveal_strlit("haven_labelled");
    reveal_strlit("logical");
    reveal_strlit("integer");
    reveal_strlit("double");
    reveal_strlit("complex");
    reveal_strlit("numeric");
    reveal_strlit("character");
    reveal_strlit("factor");
    reveal_strlit("Date");
    reveal_strlit("POSIXct");
    reveal_strlit("POSIXlt");
    if x.classes@ == seq![class] {
        let t = text::texts(x.classes@);
        assert(t =~= seq![class@]);
        assert(t[0] == class@);
        assert("logical"@[0] != "integer"@[0] && "logical"@[0] != "complex"@[0]);
        assert("logical"@[0] != "numeric"@[0] && "logical"@[0] != "POSIXct"@[0]);
        assert("logical"@[0] != "POSIXlt"@[0] && "integer"@[0] != "POSIXct"@[0]);
        assert("integer"@[0] != "POSIXlt"@[0] && "complex"@[0] != "POSIXct"@[0]);
        assert("complex"@[0] != "POSIXlt"@[0] && "numeric"@[0] != "POSIXct"@[0]);
        assert("numeric"@[0] != "POSIXlt"@[0] && "double"@[0] != "factor"@[0]);
        assert forall|c: Seq<char>| #[trigger] inherits(x.classes@, c) <==> c == class@ by {
            if c == class@ {
                assert(t[0] == c);
            }
        }
    }
}

/// A row of the view is the row of the table that stands there. Without sorts and filters
/// the rows of the view are those of the table, which count from one.
pub proof fn law_rows_of_the_view(v: Seq<i32>, row: i64)
    ensures
        0 <= row < v.len() ==> table_row(Some(v), row) == v[row as int],
        table_row(None, row) - 1 == row,
{
}

/// A labelled column is shown by its labels, whatever other classes it has. A column whose
/// classes are none of those that are known is shown as unknown.
pub proof fn law_classes_come_first(x: ColumnType)
    requires
        !x.is_s4,
        x.is_object,
    ensures
        text::texts(x.classes@).contains("haven_labelled"@) ==> spec_display_type(x)
            == ColumnDisplayType::String,
        !text::texts(x.classes@).contains("haven_labelled"@) && text::texts(x.classes@).contains(
            "logical"@,
        ) ==> spec_display_type(x) == ColumnDisplayType::Boolean,
        (forall|i: int|
            0 <= i < x.classes@.len() ==> {
                let c = (#[trigger] x.classes@[i])@;
                c != "haven_labelled"@ && c != "logical"@ && c != "integer"@ && c != "double"@ && c
                    != "complex"@ && c != "numeric"@ && c != "character"@ && c != "factor"@ && c
                    != "Date"@ && c != "POSIXct"@ && c != "POSIXlt"@
            }) ==> spec_display_type(x) == ColumnDisplayType::Unknown,
{
    let t = text::texts(x.classes@);
    if forall|i: int|
        0 <= i < x.classes@.len() ==> {
            let c = (#[trigger] x.classes@[i])@;
            c != "haven_labelled"@ && c != "logical"@ && c != "integer"@ && c != "double"@ && c
                != "complex"@ && c != "numeric"@ && c != "character"@ && c != "factor"@ && c
                != "Date"@ && c != "POSIXct"@ && c != "POSIXlt"@
        } {
        assert forall|c: Seq<char>| #[trigger] t.contains(c) implies c != "haven_labelled"@ && c
            != "logical"@ && c != "integer"@ && c != "double"@ && c != "complex"@ && c
            != "numeric"@ && c != "character"@ && c != "factor"@ && c != "Date"@ && c
            != "POSIXct"@ && c != "POSIXlt"@ by {
            let i = choose|i: int| 0 <= i < t.len() && t[i] == c;
            assert(x.classes@[i]@ == c);
        }
    }
}

/// The rows and columns of the table for rows and columns of a view.
pub open spec fn is_cut_out(
    rows_out: Option<Vec<i64>>,
    columns_out: Option<Vec<i64>>,
    view: Option<Seq<i32>>,
    i: Option<Vec<i64>>,
    j: Option<Vec<i64>>,
) -> bool {
    &&& match (i, rows_out) {
        (Some(rows), Some(out)) => out@.len() == rows@.len() && forall|k: int|
            0 <= k < out@.len() ==> #[trigger] out@[k] == table_row(
                view,
                rows@[k],
            ),
        (None, None) => true,
        _ => false,
    }
    &&& match (j, columns_out) {
        (Some(columns), Some(out)) => out@.len() == columns@.len() && forall|k: int|
            0 <= k < out@.len() ==> #[trigger] out@[k] == columns@[k] + 1,
        (None, None) => true,
        _ => false,
    }
}

/// Rows are cut out of the table as the view shows them, and columns by their place, both
/// counted from one. What is not chosen is not cut.
pub proof fn law_what_is_cut_out(
    rows_out: Option<Vec<i64>>,
    columns_out: Option<Vec<i64>>,
    v: Seq<i32>,
    i: Vec<i64>,
    j: Vec<i64>,
    k: int,
)
    requires
        0 <= k,
    ensures
        is_cut_out(rows_out, columns_out, Some(v), Some(i), Some(j)) ==> {
            &&& rows_out is Some && rows_out->0@.len() == i@.len()
            &&& columns_out is Some && columns_out->0@.len() == j@.len()
            &&& k < i@.len() && 0 <= i@[k] < v.len() ==> rows_out->0@[k] == v[i@[k] as int]
            &&& k < j@.len() ==> columns_out->0@[k] == j@[k] + 1
        },
        is_cut_out(rows_out, columns_out, None, Some(i), None) ==> {
            &&& rows_out is Some && rows_out->0@.len() == i@.len()
            &&& columns_out is None
            &&& k < i@.len() ==> rows_out->0@[k] == i@[k] + 1
        },
        is_cut_out(rows_out, columns_out, None, None, Some(j)) ==> rows_out is None && columns_out
            is Some,
{
}

} // verus!
