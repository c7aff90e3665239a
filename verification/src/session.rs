//! The R session: its call stack and its errors.
use vstd::prelude::*;

verus! {

/// Whether an environment is being debugged, from R's debug flag. Only environments
/// have one.
pub fn r_env_is_browsed(is_environment: bool, rdebug: i32) -> (r: Result<bool, &'static str>)
    ensures
        is_browsed(r, is_environment, rdebug),
{
    if !is_environment {
        return Err("`env` must be an environment");
    }
    Ok(rdebug != 0)
}

/// The traceback of the last error, from R's answer: nothing if R failed, or if what it
/// gave is not made of strings.
pub fn r_traceback(trace: Result<Option<Vec<String>>, String>) -> (r: Vec<String>)
    ensures
        match trace {
            Ok(Some(lines)) => r@ == lines@,
            _ => r@.len() == 0,
        },
{
    match trace {
        Ok(Some(lines)) => lines,
        _ => Vec::new(),
    }
}

/// The numbers of the frames of the call stack, from the outermost on, by which their
/// functions are asked for.
pub fn r_sys_functions(n_frame: i32) -> (r: Vec<i32>)
    ensures
        are_frames(r@, n_frame),
{
    let mut r: Vec<i32> = Vec::new();
    let mut i: i32 = 0;
    while i < n_frame
        invariant
            0 <= i,
            i <= n_frame || i == 0,
            r@.len() == i,
            forall|k: int| 0 <= k < r@.len() ==> #[trigger] r@[k] == k + 1,
        decreases n_frame - i,
    {
        i = i + 1;
        r.push(i);
    }
    r
}

/// Whether the environment is being browsed, or what is wrong with it.
pub open spec fn is_browsed(
    r: Result<bool, &'static str>,
    is_environment: bool,
    rdebug: i32,
) -> bool {
    if is_environment {
        r == Ok::<bool, &'static str>(rdebug != 0)
    } else {
        r matches Err(m) && m@ == "`env` must be an environment"@
    }
}

/// The numbers of all frames.
pub open spec fn are_frames(r: Seq<i32>, n_frame: i32) -> bool {
    &&& r.len() == (if n_frame > 0 {
        n_frame as int
    } else {
        0
    })
    &&& forall|i: int| 0 <= i < r.len() ==> #[trigger] r[i] == i + 1
}

/// An environment is browsed exactly if its flag is set. Anything else is refused.
pub proof fn law_browsed_environments(r: Result<bool, &'static str>, rdebug: i32)
    ensures
        is_browsed(r, true, 0) ==> r == Ok::<bool, &'static str>(false),
        rdebug != 0 && is_browsed(r, true, rdebug) ==> r == Ok::<bool, &'static str>(true),
        is_browsed(r, false, rdebug) ==> (r matches Err(m) && m@
            == "`env` must be an environment"@),
{
}

/// Frames are numbered from the outermost one, which is the first, to the innermost one.
pub proof fn law_numbers_of_frames(r: Seq<i32>, n_frame: i32)
    requires
        are_frames(r, n_frame),
    ensures
        n_frame > 0 ==> r.len() == n_frame && r[0] == 1 && r.last() == n_frame,
        n_frame <= 0 ==> r.len() == 0,
        forall|i: int, j: int| 0 <= i < j < r.len() ==> #[trigger] r[i] < #[trigger] r[j],
{
}

} // verus!
