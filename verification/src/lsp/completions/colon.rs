//! No completions on a single colon.
use vstd::prelude::*;

use crate::lsp::completions::keyword::CompletionItem;
use crate::text;

verus! {

/// The node at the cursor is a single colon. None if its text could not be had.
pub open spec fn single_colon(node: Option<Seq<char>>) -> bool {
    match node {
        Some(t) => t == ":"@,
        None => false,
    }
}

/// No items on a single colon, and nothing to say anywhere else.
pub open spec fn are_completions(
    r: Option<Vec<CompletionItem>>,
    node: Option<Seq<char>>,
) -> bool {
    match r {
        Some(items) => single_colon(node) && items@.len() == 0,
        None => !single_colon(node),
    }
}

fn is_single_colon(node: Option<&str>) -> (r: bool)
    ensures
        r == single_colon(text::opt_str(node)),
{
    match node {
        Some(t) => text::same(t, ":"),
        None => false,
    }
}

/// No completions at all on a single colon, which mostly comes before `::` or `:::`.
/// Elsewhere other sources decide.
pub fn completions_from_single_colon(node: Option<&str>) -> (r: Option<Vec<CompletionItem>>)
    ensures
        are_completions(r, text::opt_str(node)),
{
    if is_single_colon(node) {
        Some(Vec::new())
    } else {
        None
    }
}

/// Nothing is offered on a single colon. On anything else other completions are asked.
pub proof fn law_nothing_on_a_single_colon(r: Option<Vec<CompletionItem>>, node: Seq<char>)
    ensures
        are_completions(r, Some(":"@)) ==> (r matches Some(items) && items@.len() == 0),
        node != ":"@ && are_completions(r, Some(node)) ==> r is None,
        are_completions(r, None) ==> r is None,
{
}

} // verus!
