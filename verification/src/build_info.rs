//! What a build of the kernel is told of itself.
use vstd::prelude::*;

use crate::text;

verus! {

/// A setting for the compiler.
pub open spec fn setting(name: Seq<char>, value: Seq<char>) -> Seq<char> {
    "cargo:rustc-env="@ + name + "="@ + value
}

/// What git said, or that it is not known.
pub open spec fn known(value: Option<Seq<char>>) -> Seq<char> {
    match value {
        Some(v) => v,
        None => "<unknown>"@,
    }
}

fn format_setting(name: &str, value: &str) -> (r: String)
    ensures
        r@ == setting(name@, value@),
{
    let mut r: String = "cargo:rustc-env=".to_owned();
    r.append(name);
    r.append("=");
    r.append(value);
    r
}

fn or_unknown(value: Option<&str>) -> (r: &str)
    ensures
        r@ == known(
            match value {
                Some(v) => Some(v@),
                None => None,
            },
        ),
{
    match value {
        Some(v) => v,
        None => "<unknown>",
    }
}

/// The settings for the compiler: the commit and the branch, as far as git told them,
/// and the date.
pub fn build_settings(git_hash: Option<&str>, git_branch: Option<&str>, date: &str) -> (r: Vec<
    String,
>)
    ensures
        text::texts(r@) == settings(text::opt_str(git_hash), text::opt_str(git_branch), date@),
{
    vec![
        format_setting("BUILD_GIT_HASH", or_unknown(git_hash)),
        format_setting("BUILD_GIT_BRANCH", or_unknown(git_branch)),
        format_setting("BUILD_DATE", date),
    ]
}

/// What the build is told.
pub open spec fn settings(
    git_hash: Option<Seq<char>>,
    git_branch: Option<Seq<char>>,
    date: Seq<char>,
) -> Seq<Seq<char>> {
    seq![
        setting("BUILD_GIT_HASH"@, known(git_hash)),
        setting("BUILD_GIT_BRANCH"@, known(git_branch)),
        setting("BUILD_DATE"@, date),
    ]
}

/// The build is told the commit, the branch and the date, each under a name of its own.
pub proof fn law_what_builds_are_told(hash: Seq<char>, branch: Seq<char>, date: Seq<char>)
    ensures
        settings(Some(hash), Some(branch), date).len() == 3,
        settings(Some(hash), Some(branch), date)[0] == "cargo:rustc-env=BUILD_GIT_HASH="@ + hash,
        settings(Some(hash), Some(branch), date)[1] == "cargo:rustc-env=BUILD_GIT_BRANCH="@
            + branch,
        settings(Some(hash), Some(branch), date)[2] == "cargo:rustc-env=BUILD_DATE="@ + date,
        settings(None, None, date) == settings(Some("<unknown>"@), Some("<unknown>"@), date),
{
    reveal_strlit("cargo:rustc-env=BUILD_GIT_HASH=");
    reveal_strlit("cargo:rustc-env=BUILD_GIT_BRANCH=");
    reveal_strlit("cargo:rustc-env=BUILD_DATE=");
    reveal_strlit("cargo:rustc-env=");
    reveal_strlit("BUILD_GIT_HASH");
    reveal_strlit("BUILD_GIT_BRANCH");
    reveal_strlit("BUILD_DATE");
    reveal_strlit("=");
    assert(setting("BUILD_GIT_HASH"@, hash) =~= "cargo:rustc-env=BUILD_GIT_HASH="@ + hash);
    assert(setting("BUILD_GIT_BRANCH"@, branch) =~= "cargo:rustc-env=BUILD_GIT_BRANCH="@ + branch);
    assert(setting("BUILD_DATE"@, date) =~= "cargo:rustc-env=BUILD_DATE="@ + date);
}

} // verus!
