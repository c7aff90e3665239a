//! What R code tells the debugger and asks of it.
use vstd::prelude::*;

use crate::console::annotate::{
    annotate_source, is_annotated_source, AnnotateError, Annotated, RCode,
};
use crate::console::console_debug::{DebugState, DebugStoppedReason};
use crate::dap::breakpoints::Breakpoint;
use crate::dap::dap::{
    breakpoint_enabled, one_is_verified, range_is_verified, Dap, DapBackendEvent,
    DocumentBreakpoints,
};
use crate::text;
use crate::urls::{parse_url, url_text};

verus! {

/// Whether a breakpoint is enabled. None if the URI is none.
pub fn ps_is_breakpoint_enabled(dap: &Dap, uri: &str, id: &str) -> (r: Option<bool>)
    ensures
        match url_text(uri@) {
            Some(url) => r == Some(breakpoint_enabled(*dap, url, id@)),
            None => r is None,
        },
{
    match parse_url(uri) {
        Some(url) => Some(dap.is_breakpoint_enabled(url.as_str(), id)),
        None => None,
    }
}

/// A breakpoint is about to be evaluated, so it is verified. Nothing happens if the
/// URI is none.
pub fn ps_verify_breakpoint(dap: &mut Dap, uri: &str, id: &str) -> (r: Option<DapBackendEvent>)
    ensures
        match url_text(uri@) {
            Some(url) => one_is_verified(*final(dap), *old(dap), url, id@, r),
            None => *final(dap) == *old(dap) && r is None,
        },
{
    match parse_url(uri) {
        Some(url) => dap.verify_breakpoint(url.as_str(), id),
        None => None,
    }
}

/// Lines of a document were evaluated, so the breakpoints in them are verified.
/// Nothing happens if the URI is none.
pub fn ps_verify_breakpoints_range(
    dap: &mut Dap,
    uri: &str,
    start_line: i32,
    end_line: i32,
) -> (r: Vec<DapBackendEvent>)
    ensures
        lines_are_verified(
            *final(dap),
            *old(dap),
            url_text(uri@),
            start_line as u32,
            end_line as u32,
            r@,
        ),
{
    #[verifier::truncate]
    let start: u32 = start_line as u32;
    #[verifier::truncate]
    let end: u32 = end_line as u32;
    match parse_url(uri) {
        Some(url) => dap.verify_breakpoints(url.as_str(), start, end),
        None => Vec::new(),
    }
}

/// Where an expression stands: the name of its file and its lines.
#[derive(Debug)]
pub struct Srcref {
    pub filename: Option<String>,
    pub start: u32,
    pub end: u32,
}

/// The URL of the document that an expression stands in. Only names that are URIs of
/// files count: plain paths and empty names are passed over.
pub open spec fn document_of(srcref: Srcref) -> Option<Seq<char>> {
    match srcref.filename {
        Some(name) => if "file://"@.is_prefix_of(name@) {
            url_text(name@)
        } else {
            None
        },
        None => None,
    }
}

/// An expression was evaluated, so the breakpoints in it are verified. Nothing happens
/// if it stands in no document, or has no place at all.
pub fn ps_verify_breakpoints(dap: &mut Dap, srcref: Option<Srcref>) -> (r: Vec<DapBackendEvent>)
    ensures
        match srcref {
            Some(s) => lines_are_verified(
                *final(dap),
                *old(dap),
                document_of(s),
                s.start,
                s.end,
                r@,
            ),
            None => *final(dap) == *old(dap) && r@.len() == 0,
        },
{
    let srcref: Srcref = match srcref {
        Some(s) => s,
        None => {
            return Vec::new();
        },
    };
    let name: String = match srcref.filename {
        Some(name) => name,
        None => {
            return Vec::new();
        },
    };
    if !text::starts_with(name.as_str(), "file://") {
        return Vec::new();
    }
    match parse_url(name.as_str()) {
        Some(url) => dap.verify_breakpoints(url.as_str(), srcref.start, srcref.end),
        None => Vec::new(),
    }
}

/// Whether R stops in the debugger when a condition of some kind is signalled.
pub fn ps_debug_should_break_on_condition(dap: &Dap, filter: &str) -> (r: bool)
    ensures
        r == text::texts(dap.exception_breakpoint_filters@).contains(filter@),
{
    dap.is_exception_breakpoint_filter_enabled(filter)
}

/// R is about to stop because of a condition.
pub fn ps_debug_set_stopped_reason(state: &mut DebugState, class: String, message: String)
    ensures
        *final(state) == (DebugState {
            stopped_reason: Some(DebugStoppedReason::Condition { class, message }),
            ..*old(state)
        }),
{
    state.stopped_reason = Some(DebugStoppedReason::Condition { class, message });
}

/// R is about to stop because the user asked to pause.
pub fn ps_debug_set_stopped_reason_pause(state: &mut DebugState)
    ensures
        *final(state) == (DebugState {
            stopped_reason: Some(DebugStoppedReason::Pause),
            ..*old(state)
        }),
{
    state.stopped_reason = Some(DebugStoppedReason::Pause);
}

/// Whether R was interrupted to stop in the debugger. The answer is given once: the
/// next time it is no, unless R is interrupted again.
pub fn ps_is_interrupting_for_debugger(dap: &mut Dap) -> (r: bool)
    ensures
        r == old(dap).is_interrupting_for_debugger,
        *final(dap) == (Dap { is_interrupting_for_debugger: false, ..*old(dap) }),
{
    let r: bool = dap.is_interrupting_for_debugger;
    dap.is_interrupting_for_debugger = false;
    r
}

/// Why a file cannot be annotated.
#[derive(Clone, Copy, Debug, PartialEq, Eq, Structural)]
pub enum AnnotateSourceError {
    /// The URI is none.
    InvalidUri,
    Annotate(AnnotateError),
}

/// What annotating a file comes to. A file without breakpoints needs no annotation. For
/// others the breakpoints are kept as the annotation leaves them.
pub open spec fn source_annotated(
    r: Result<Option<String>, AnnotateSourceError>,
    new: Dap,
    old: Dap,
    url: Seq<char>,
    code: Seq<char>,
    wrapped: RCode,
) -> bool {
    if old.breakpoints@.contains_key(url) && old.breakpoints@[url].breakpoints@.len() > 0 {
        let before = old.breakpoints@[url];
        let after = new.breakpoints@[url];
        &&& new == (Dap { breakpoints: new.breakpoints, ..old })
        &&& new.breakpoints@ == old.breakpoints@.insert(url, after)
        &&& after.hash == before.hash
        &&& exists|a: Annotated|
            #![trigger is_annotated_source(a, code, wrapped, url, before.breakpoints@)]
            is_annotated_source(a, code, wrapped, url, before.breakpoints@)
                && after.breakpoints@ == a.breakpoints->0@ && match a.code {
                Ok(t) => r == Ok::<Option<String>, AnnotateSourceError>(Some(t)),
                Err(e) => r == Err::<Option<String>, AnnotateSourceError>(
                    AnnotateSourceError::Annotate(e),
                ),
            }
    } else {
        &&& new.breakpoints@ == old.breakpoints@
        &&& new == (Dap { breakpoints: new.breakpoints, ..old })
        &&& r == Ok::<Option<String>, AnnotateSourceError>(None)
    }
}

/// Annotates a file that R is about to source. `wrapped` is the parsed code in braces.
pub fn ps_annotate_source(dap: &mut Dap, uri: &str, code: &str, wrapped: &RCode) -> (r: Result<
    Option<String>,
    AnnotateSourceError,
>)
    ensures
        match url_text(uri@) {
            Some(url) => source_annotated(r, *final(dap), *old(dap), url, code@, *wrapped),
            None => *final(dap) == *old(dap) && r == Err::<Option<String>, AnnotateSourceError>(
                AnnotateSourceError::InvalidUri,
            ),
        },
{
    let url: String = match parse_url(uri) {
        Some(url) => url,
        None => {
            return Err(AnnotateSourceError::InvalidUri);
        },
    };
    let any: bool = match dap.breakpoints.get(url.as_str()) {
        Some(document) => document.breakpoints.len() > 0,
        None => false,
    };
    if !any {
        return Ok(None);
    }
    match dap.breakpoints.remove(url.as_str()) {
        Some(document) => {
            let ghost given = document.breakpoints@;
            let annotated: Annotated = annotate_source(
                code,
                wrapped,
                url.as_str(),
                document.breakpoints,
            );
            assert(is_annotated_source(annotated, code@, *wrapped, url@, given));
            let left: Vec<Breakpoint> = match annotated.breakpoints {
                Some(left) => left,
                None => Vec::new(),
            };
            let ghost key = url@;
            dap.breakpoints.insert(
                url,
                DocumentBreakpoints { hash: document.hash, breakpoints: left },
            );
            assert(dap.breakpoints@ =~= old(dap).breakpoints@.insert(key, dap.breakpoints@[key]));
            match annotated.code {
                Ok(t) => Ok(Some(t)),
                Err(e) => Err(AnnotateSourceError::Annotate(e)),
            }
        },
        None => Ok(None),
    }
}

/// What evaluated lines of a document come to, if there is one.
pub open spec fn lines_are_verified(
    new: Dap,
    old: Dap,
    url: Option<Seq<char>>,
    start: u32,
    end: u32,
    events: Seq<DapBackendEvent>,
) -> bool {
    match url {
        Some(url) => range_is_verified(new, old, url, start, end, events),
        None => new == old && events.len() == 0,
    }
}

/// An expression stands in a document if its file is named by a URI of a file. A plain path
/// is none.
pub proof fn law_documents_of_expressions(name: String, rest: Seq<char>, start: u32, end: u32)
    ensures
        name@ == "file://"@ + rest ==> document_of(Srcref { filename: Some(name), start, end })
            == url_text(name@),
        !"file://"@.is_prefix_of(name@) ==> document_of(
            Srcref { filename: Some(name), start, end },
        ) is None,
        document_of(Srcref { filename: None, start, end }) is None,
{
    if name@ == "file://"@ + rest {
        assert("file://"@ =~= name@.take("file://"@.len() as int));
    }
}

/// Evaluated lines change nothing outside of a document, and inside one they verify the
/// breakpoints of exactly these lines.
pub proof fn law_evaluated_lines(
    new: Dap,
    old: Dap,
    url: Seq<char>,
    start: u32,
    end: u32,
    events: Seq<DapBackendEvent>,
)
    ensures
        lines_are_verified(new, old, None, start, end, events) ==> new == old && events.len() == 0,
        lines_are_verified(new, old, Some(url), start, end, events) ==> range_is_verified(
            new,
            old,
            url,
            start,
            end,
            events,
        ),
{
}

/// A file without breakpoints is sourced as it is. Annotating one with breakpoints changes
/// nothing about other files, nor about the rest of the debugger's state.
pub proof fn law_other_files_stay(
    r: Result<Option<String>, AnnotateSourceError>,
    new: Dap,
    old: Dap,
    url: Seq<char>,
    code: Seq<char>,
    wrapped: RCode,
    other: Seq<char>,
)
    requires
        source_annotated(r, new, old, url, code, wrapped),
        other != url,
    ensures
        !old.breakpoints@.contains_key(url) || old.breakpoints@[url].breakpoints@.len() == 0 ==> r
            == Ok::<Option<String>, AnnotateSourceError>(None) && new.breakpoints@
            == old.breakpoints@,
        old.breakpoints@.contains_key(url) && old.breakpoints@[url].breakpoints@.len() > 0 ==> !(r
            matches Ok(None)) && new.breakpoints@.contains_key(url) && new.breakpoints@[url].hash
            == old.breakpoints@[url].hash,
        new.breakpoints@.contains_key(other) <==> old.breakpoints@.contains_key(other),
        old.breakpoints@.contains_key(other) ==> new.breakpoints@[other]
            == old.breakpoints@[other],
        new == (Dap { breakpoints: new.breakpoints, ..old }),
{
}

} // verus!
