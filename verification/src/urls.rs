//! URLs.
use vstd::prelude::*;

use crate::text;

verus! {

/// The path of the URL that `uri` denotes. `None` if it denotes none.
pub uninterp spec fn url_path(uri: Seq<char>) -> Option<Seq<char>>;

/// `Url::parse` and `Url::path` of the crate `url`: the percent-encoded path of
/// the URL that `uri` denotes, or `None` where `Url::parse` refuses it. Both
/// depend on their arguments alone.
#[verifier::external_body]
pub(crate) fn path_of(uri: &str) -> (r: Option<String>)
    ensures
        text::opt_text(r) == url_path(uri@),
{
    url::Url::parse(uri).ok().map(|url| url.path().to_string())
}

/// The URL that `uri` denotes, as a text. `None` if it denotes none.
pub uninterp spec fn url_text(uri: Seq<char>) -> Option<Seq<char>>;

/// `Url::parse` of the crate `url`: the URL that `uri` denotes, written as the crate
/// serialises it, or `None` where the crate refuses it. It depends on its argument
/// alone.
#[verifier::external_body]
pub(crate) fn parse_url(uri: &str) -> (r: Option<String>)
    ensures
        text::opt_text(r) == url_text(uri@),
{
    url::Url::parse(uri).ok().map(|url| url.to_string())
}

/// The URL of the file at `path`. `None` if the path is not absolute.
pub uninterp spec fn file_url(path: Seq<char>) -> Option<Seq<char>>;

/// `Url::from_file_path` of the crate `url`: the URL of the file at `path`, which
/// starts with `file://`, or `None` where the crate refuses the path. The file is
/// not looked at, so that the result depends on the path alone, read by the rules
/// of the platform that the library is built for.
#[verifier::external_body]
pub(crate) fn url_of_file(path: &str) -> (r: Option<String>)
    ensures
        text::opt_text(r) == file_url(path@),
        r matches Some(url) ==> "file://"@.is_prefix_of(url@),
{
    url::Url::from_file_path(path).ok().map(|url| url.to_string())
}

/// The path of the file that `uri` denotes. `None` if it denotes no file.
pub uninterp spec fn url_file_path(uri: Seq<char>) -> Option<Seq<char>>;

/// `Url::parse` and `Url::to_file_path` of the crate `url`: the path of the file
/// that `uri` denotes, with characters that are no text replaced, or `None` where
/// the crate refuses one of the two steps. The file is not looked at, so that the
/// result depends on the URI alone, read by the rules of the platform that the
/// library is built for.
#[verifier::external_body]
pub(crate) fn file_path_of(uri: &str) -> (r: Option<String>)
    ensures
        text::opt_text(r) == url_file_path(uri@),
{
    let path = url::Url::parse(uri).ok()?.to_file_path().ok()?;
    Some(path.to_string_lossy().into_owned())
}

/// The part of a path after its last slash, for a path that starts with one.
pub open spec fn last_segment(path: Seq<char>) -> Option<Seq<char>> {
    if path.len() > 0 && path[0] == '/' {
        Some(after_last_slash(path))
    } else {
        None
    }
}

/// What follows the last slash, or everything if there is none.
pub open spec fn after_last_slash(path: Seq<char>) -> Seq<char>
    decreases path.len(),
{
    if path.len() == 0 || path.last() == '/' {
        Seq::empty()
    } else {
        after_last_slash(path.drop_last()).push(path.last())
    }
}

/// The last segment of a path.
pub fn last_path_segment(path: &str) -> (r: Option<String>)
    ensures
        text::opt_text(r) == last_segment(path@),
{
    let v: Vec<char> = text::chars_of(path);
    let n: usize = v.len();
    if n == 0 || v[0] != '/' {
        return None;
    }
    let mut i: usize = n;
    proof {
        assert(path@.take(n as int) =~= path@);
        assert(path@.skip(n as int) =~= Seq::<char>::empty());
        assert(after_last_slash(path@) =~= after_last_slash(path@.take(n as int)) + path@.skip(
            n as int,
        ));
    }
    while i > 0 && v[i - 1] != '/'
        invariant
            v@ == path@,
            n == v@.len(),
            i <= n,
            after_last_slash(path@) == after_last_slash(path@.take(i as int)) + path@.skip(
                i as int,
            ),
        decreases i,
    {
        proof {
            let head = path@.take(i as int);
            assert(head.drop_last() =~= path@.take(i - 1));
            assert(after_last_slash(head) == after_last_slash(path@.take(i - 1)).push(
                path@[i - 1],
            ));
            assert(after_last_slash(path@.take(i - 1)).push(path@[i - 1]) + path@.skip(i as int)
                =~= after_last_slash(path@.take(i - 1)) + path@.skip(i - 1));
        }
        i = i - 1;
    }
    let r: String = text::string_of_range(&v, i, n);
    assert(r@ =~= path@.skip(i as int));
    assert(after_last_slash(path@.take(i as int)) =~= Seq::<char>::empty());
    assert(after_last_slash(path@) =~= r@);
    Some(r)
}

/// The last segment of a path is what follows its last slash. A path that does not start
/// with a slash has none.
pub proof fn law_last_segment(head: Seq<char>, name: Seq<char>)
    requires
        !name.contains('/'),
    ensures
        last_segment(seq!['/'] + head + seq!['/'] + name) == Some(name),
        last_segment(seq!['/'] + name) == Some(name),
        name.len() > 0 ==> last_segment(name) is None,
{
    lemma_after_slash(seq!['/'] + head, name);
    lemma_after_slash(Seq::empty(), name);
    assert(Seq::<char>::empty() + seq!['/'] + name =~= seq!['/'] + name);
    if name.len() > 0 {
        assert(name.contains(name[0]));
    }
}

proof fn lemma_after_slash(head: Seq<char>, name: Seq<char>)
    requires
        !name.contains('/'),
    ensures
        after_last_slash(head + seq!['/'] + name) == name,
    decreases name.len(),
{
    let s = head + seq!['/'] + name;
    if name.len() == 0 {
        assert(s.last() == '/');
        assert(name =~= Seq::empty());
    } else {
        let less = name.drop_last();
        assert(name.contains(name.last()));
        assert(!less.contains('/')) by {
            if less.contains('/') {
                let k = choose|k: int| 0 <= k < less.len() && less[k] == '/';
                assert(name[k] == '/');
            }
        }
        lemma_after_slash(head, less);
        assert(s.drop_last() =~= head + seq!['/'] + less);
        assert(less.push(name.last()) =~= name);
    }
}

} // verus!
