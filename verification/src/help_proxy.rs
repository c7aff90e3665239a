//! The proxy in front of R's help server.
use vstd::prelude::*;

use crate::text;
use crate::urls::{path_of, url_path};

verus! {

/// The ports of the proxy and of R's help server.
#[derive(Clone, Copy, Debug, PartialEq, Eq, Structural)]
pub struct HelpProxy {
    pub source_port: u16,
    pub target_port: u16,
}

impl HelpProxy {
    /// A proxy that listens on one port and asks the help server on another.
    pub fn new(source_port: u16, target_port: u16) -> (r: Self)
        ensures
            r.source_port == source_port,
            r.target_port == target_port,
    {
        HelpProxy { source_port, target_port }
    }

    /// The URL that the help server is asked for, for a path that the proxy is asked
    /// for.
    pub fn target_url(&self, path: &str) -> (r: String)
        ensures
            r@ == target(self.target_port, path@),
    {
        let mut r: String = "http://localhost:".to_owned();
        r.append(text::u64_text(self.target_port as u64).as_str());
        r.append("/");
        r.append(path);
        r
    }
}

/// The URL that the help server is asked for.
pub open spec fn target(port: u16, path: Seq<char>) -> Seq<char> {
    "http://localhost:"@ + text::decimal(port as nat) + "/"@ + path
}

/// The resource that takes the place of what the help server gives for a path, which is
/// in lower case.
pub open spec fn replacement_of(path: Seq<char>) -> Option<Seq<char>> {
    if "r.css"@.is_suffix_of(path) {
        Some("R.css"@)
    } else if "prism.css"@.is_suffix_of(path) {
        Some("prism.css"@)
    } else {
        None
    }
}

/// The resource that takes the place of what the help server gives for a path, which is
/// in lower case.
pub fn replacement(path: &str) -> (r: Option<&'static str>)
    ensures
        match r {
            Some(name) => replacement_of(path@) == Some(name@),
            None => replacement_of(path@) is None,
        },
{
    if text::ends_with(path, "r.css") {
        Some("R.css")
    } else if text::ends_with(path, "prism.css") {
        Some("prism.css")
    } else {
        None
    }
}

/// What the proxy does about a path.
#[derive(Debug, PartialEq, Eq)]
pub enum ProxyRequest {
    /// The path makes no URL.
    BadGateway,
    /// The help server is asked for a URL, and a resource may take the place of what it
    /// gives.
    Fetch { url: String, replacement: Option<&'static str> },
}

/// What the proxy does about a path.
pub fn proxy_request(proxy: &HelpProxy, path: &str) -> (r: ProxyRequest)
    ensures
        is_proxied(r, proxy.target_port, path@),
{
    let url: String = proxy.target_url(path);
    match path_of(url.as_str()) {
        None => ProxyRequest::BadGateway,
        Some(p) => {
            let lower: String = text::to_lowercase(p.as_str());
            let replacement: Option<&'static str> = replacement(lower.as_str());
            ProxyRequest::Fetch { url, replacement }
        },
    }
}

/// What the help server gave.
#[derive(Clone, Copy, Debug, PartialEq, Eq, Structural)]
pub enum Fetched {
    /// Asking failed.
    Failed,
    /// A status, and whether the body could be read.
    Response { status: u16, body_read: bool },
}

/// What the proxy answers.
#[derive(Debug, PartialEq, Eq)]
pub enum ProxyResponse {
    BadGateway,
    /// A resource of the kernel, with the type that the help server gave.
    Replacement(&'static str),
    /// What the help server gave.
    Body,
}

/// What the proxy answers. Anything but a complete success of the help server is a bad
/// gateway. Its body does not matter where a resource takes its place.
pub fn proxy_response(fetched: Fetched, replacement: Option<&'static str>) -> (r: ProxyResponse)
    ensures
        is_passed_on(r, fetched, replacement),
{
    match fetched {
        Fetched::Failed => ProxyResponse::BadGateway,
        Fetched::Response { status, body_read } => {
            if status != 200 {
                return ProxyResponse::BadGateway;
            }
            match replacement {
                Some(name) => ProxyResponse::Replacement(name),
                None => {
                    if body_read {
                        ProxyResponse::Body
                    } else {
                        ProxyResponse::BadGateway
                    }
                },
            }
        },
    }
}

/// What becomes of a request for a path of R's help server.
pub open spec fn is_proxied(r: ProxyRequest, port: u16, path: Seq<char>) -> bool {
    match url_path(target(port, path)) {
        None => r is BadGateway,
        Some(p) => {
            &&& r matches ProxyRequest::Fetch { url, replacement }
            &&& url@ == target(port, path)
            &&& match replacement {
                Some(name) => replacement_of(text::lowercase(p)) == Some(name@),
                None => replacement_of(text::lowercase(p)) is None,
            }
        },
    }
}

/// What becomes of the answer of R's help server.
pub open spec fn is_passed_on(
    r: ProxyResponse,
    fetched: Fetched,
    replacement: Option<&'static str>,
) -> bool {
    match fetched {
        Fetched::Failed => r is BadGateway,
        Fetched::Response { status, body_read } => if status != 200 {
            r is BadGateway
        } else {
            match replacement {
                Some(name) => r == ProxyResponse::Replacement(name),
                None => if body_read {
                    r is Body
                } else {
                    r is BadGateway
                },
            }
        },
    }
}

/// The same path is asked of R's help server, on this machine and on its port. The two
/// style sheets that are known by the end of the path, in any case, are replaced.
pub proof fn law_paths_are_asked_of_r(r: ProxyRequest, port: u16, path: Seq<char>)
    requires
        is_proxied(r, port, path),
    ensures
        ({
            let asked = "http://localhost:"@ + text::decimal(port as nat) + "/"@ + path;
            &&& r is BadGateway <==> url_path(asked) is None
            &&& r matches ProxyRequest::Fetch { url, replacement } ==> {
                let p = text::lowercase(url_path(asked)->0);
                &&& url@ == asked
                &&& "r.css"@.is_suffix_of(p) ==> (replacement matches Some(name) && name@
                    == "R.css"@)
                &&& "prism.css"@.is_suffix_of(p) ==> (replacement matches Some(name) && name@
                    == "prism.css"@)
                &&& !"r.css"@.is_suffix_of(p) && !"prism.css"@.is_suffix_of(p) ==> replacement
                    is None
            }
        }),
{
    reveal_strlit("r.css");
    reveal_strlit("prism.css");
    if r is Fetch {
        let asked = "http://localhost:"@ + text::decimal(port as nat) + "/"@ + path;
        let p = text::lowercase(url_path(asked)->0);
        if "r.css"@.is_suffix_of(p) && "prism.css"@.is_suffix_of(p) {
            assert(p[p.len() - 5] == "r.css"@[0]);
            assert(p[p.len() - 5] == "prism.css"@[4]);
        }
    }
}

/// A body is passed on only if R answered with success and the body could be read. A
/// replacement needs no body. Anything else is a fault of the gateway.
pub proof fn law_what_is_passed_on(
    r: ProxyResponse,
    fetched: Fetched,
    replacement: Option<&'static str>,
)
    requires
        is_passed_on(r, fetched, replacement),
    ensures
        r is Body <==> replacement is None && fetched == (Fetched::Response {
            status: 200,
            body_read: true,
        }),
        r is Replacement <==> replacement is Some && (fetched matches Fetched::Response {
            status,
            body_read,
        } && status == 200),
        r matches ProxyResponse::Replacement(name) ==> replacement == Some(name),
{
}

} // verus!
