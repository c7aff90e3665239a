//! How URLs that R asks to browse are shown.
use vstd::prelude::*;

use crate::text;

verus! {

/// The URL is one of the web.
pub open spec fn web_url(url: Seq<char>) -> bool {
    "http://"@.is_prefix_of(url) || "https://"@.is_prefix_of(url)
}

/// Whether a URL is one of the web.
pub fn is_web_url(url: &str) -> (r: bool)
    ensures
        r == web_url(url@),
{
    text::starts_with(url, "http://") || text::starts_with(url, "https://")
}

/// Whether a URL is one of R's help server. Without a port of the help proxy no URL
/// is, so that other ways of showing it are tried.
pub fn is_help_url(help_port: Option<u16>, served_by_help: bool) -> (r: bool)
    ensures
        r == (help_port is Some && served_by_help),
{
    match help_port {
        Some(_) => served_by_help,
        None => false,
    }
}

/// How a URL is shown.
#[derive(Debug, PartialEq, Eq)]
pub enum Browse {
    /// In the help pane, through the help proxy.
    Help(String),
    /// In the viewer of the frontend.
    ShowUrl(String),
    /// As a file, by the program that the system opens it with.
    OpenWithSystem(String),
}

/// How a URL is shown: help goes before the web, and what is neither is a file.
pub fn ps_browse_url_impl(url: String, is_help: bool) -> (r: Browse)
    ensures
        r == browsed(url, is_help),
{
    if is_help {
        Browse::Help(url)
    } else if is_web_url(url.as_str()) {
        Browse::ShowUrl(url)
    } else {
        Browse::OpenWithSystem(url)
    }
}

/// What R is told: whether the URL was shown. A failure is no error of R's.
pub fn ps_browse_url(shown: &Result<(), String>) -> (r: bool)
    ensures
        r == (*shown is Ok),
{
    match shown {
        Ok(()) => true,
        Err(_) => false,
    }
}

/// How a URL is shown.
pub open spec fn browsed(url: String, is_help: bool) -> Browse {
    if is_help {
        Browse::Help(url)
    } else if web_url(url@) {
        Browse::ShowUrl(url)
    } else {
        Browse::OpenWithSystem(url)
    }
}

/// Help is shown as help. Of other URLs, those of the web are shown by the frontend, and all
/// others are opened by the system. The URL stays the same.
pub proof fn law_how_urls_are_shown(url: String, rest: Seq<char>)
    ensures
        browsed(url, true) == Browse::Help(url),
        url@ == "http://"@ + rest || url@ == "https://"@ + rest ==> browsed(url, false)
            == Browse::ShowUrl(url),
        !"http"@.is_prefix_of(url@) ==> browsed(url, false) == Browse::OpenWithSystem(url),
        browsed(url, false) == Browse::ShowUrl(url) || browsed(url, false)
            == Browse::OpenWithSystem(url),
        browsed(url, false) == Browse::ShowUrl(url) ==> "http://"@.is_prefix_of(url@)
            || "https://"@.is_prefix_of(url@),
{
    reveal_strlit("http://");
    reveal_strlit("https://");
    reveal_strlit("http");
    if url@ == "http://"@ + rest {
        assert("http://"@ =~= url@.take(7));
    }
    if url@ == "https://"@ + rest {
        assert("https://"@ =~= url@.take(8));
    }
    if "http://"@.is_prefix_of(url@) {
        assert forall|i: int| 0 <= i < 4 implies url@[i] == "http"@[i] by {
            assert(url@[i] == "http://"@[i]);
        }
        assert("http"@ =~= url@.take(4));
    }
    if "https://"@.is_prefix_of(url@) {
        assert forall|i: int| 0 <= i < 4 implies url@[i] == "http"@[i] by {
            assert(url@[i] == "https://"@[i]);
        }
        assert("http"@ =~= url@.take(4));
    }
}

} // verus!
