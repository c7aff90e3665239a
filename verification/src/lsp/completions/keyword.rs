//! Completions for keywords.
use vstd::prelude::*;

use crate::text;

verus! {

#[derive(Clone, Copy, Debug, PartialEq, Eq, Structural)]
pub enum CompletionItemKind {
    Keyword,
}

#[derive(Debug, PartialEq, Eq)]
pub struct CompletionItem {
    pub label: String,
    pub detail: Option<String>,
    pub kind: Option<CompletionItemKind>,
}

/// The keywords of R that have no definition in its base namespace. Those that have one
/// are completed from there.
pub open spec fn keywords() -> Seq<Seq<char>> {
    seq![
        "NULL"@,
        "NA"@,
        "TRUE"@,
        "FALSE"@,
        "Inf"@,
        "NaN"@,
        "NA_integer_"@,
        "NA_real_"@,
        "NA_character_"@,
        "NA_complex_"@,
        "in"@,
        "else"@,
        "next"@,
        "break"@,
    ]
}

fn keyword_labels() -> (r: Vec<&'static str>)
    ensures
        r@.len() == keywords().len(),
        forall|i: int| 0 <= i < r@.len() ==> (#[trigger] r@[i])@ == keywords()[i],
{
    vec![
        "NULL",
        "NA",
        "TRUE",
        "FALSE",
        "Inf",
        "NaN",
        "NA_integer_",
        "NA_real_",
        "NA_character_",
        "NA_complex_",
        "in",
        "else",
        "next",
        "break",
    ]
}

/// A completion for each keyword.
pub fn completions_from_keywords() -> (r: Vec<CompletionItem>)
    ensures
        are_completions(r@),
{
    let labels: Vec<&'static str> = keyword_labels();
    let n: usize = labels.len();
    let mut r: Vec<CompletionItem> = Vec::new();
    let mut i: usize = 0;
    while i < n
        invariant
            n == labels@.len(),
            n == keywords().len(),
            i <= n,
            r@.len() == i,
            forall|k: int| 0 <= k < labels@.len() ==> (#[trigger] labels@[k])@ == keywords()[k],
            forall|k: int|
                0 <= k < r@.len() ==> {
                    let item = #[trigger] r@[k];
                    &&& item.label@ == keywords()[k]
                    &&& text::opt_text(item.detail) == Some("[keyword]"@)
                    &&& item.kind == Some(CompletionItemKind::Keyword)
                },
        decreases n - i,
    {
        r.push(
            CompletionItem {
                label: labels[i].to_owned(),
                detail: Some("[keyword]".to_owned()),
                kind: Some(CompletionItemKind::Keyword),
            },
        );
        i = i + 1;
    }
    r
}

/// The items complete all keywords.
pub open spec fn are_completions(items: Seq<CompletionItem>) -> bool {
    &&& items.len() == keywords().len()
    &&& forall|i: int|
        0 <= i < items.len() ==> {
            let item = #[trigger] items[i];
            &&& item.label@ == keywords()[i]
            &&& text::opt_text(item.detail) == Some("[keyword]"@)
            &&& item.kind == Some(CompletionItemKind::Keyword)
        }
}

/// Every keyword is offered, once and as a keyword, and nothing else is.
pub proof fn law_keywords_are_offered(items: Seq<CompletionItem>)
    requires
        are_completions(items),
    ensures
        items.len() == 14,
        items[0].label@ == "NULL"@,
        items[1].label@ == "NA"@,
        items[2].label@ == "TRUE"@,
        items[3].label@ == "FALSE"@,
        items[4].label@ == "Inf"@,
        items[5].label@ == "NaN"@,
        items[6].label@ == "NA_integer_"@,
        items[7].label@ == "NA_real_"@,
        items[8].label@ == "NA_character_"@,
        items[9].label@ == "NA_complex_"@,
        items[10].label@ == "in"@,
        items[11].label@ == "else"@,
        items[12].label@ == "next"@,
        items[13].label@ == "break"@,
        forall|i: int|
            0 <= i < items.len() ==> (#[trigger] items[i]).detail is Some && items[i].detail->0@
                == "[keyword]"@ && items[i].kind == Some(CompletionItemKind::Keyword),
{
    assert forall|i: int| 0 <= i < items.len() implies (#[trigger] items[i]).detail is Some
        && items[i].detail->0@ == "[keyword]"@ && items[i].kind == Some(
        CompletionItemKind::Keyword,
    ) by {
        assert(items[i].label@ == keywords()[i]);
    }
}

} // verus!
