//! How functions are registered as entry points of R.
//!
//! A function that is registered takes R objects, and may take the console first. The
//! entry point that is made of it takes the R objects alone.
use vstd::prelude::*;

use crate::text;

verus! {

/// The type of a parameter, as far as registration looks at it. Paths are known by their
/// last segment.
#[derive(Debug, PartialEq, Eq)]
pub enum ParameterType {
    Path(Vec<String>),
    /// A reference to a path. Other references have none.
    Reference { mutable: bool, path: Option<Vec<String>> },
    Other,
}

/// A parameter: `self`, or a type with a name, if its pattern is one.
#[derive(Debug, PartialEq, Eq)]
pub enum Parameter {
    Receiver,
    Typed { name: Option<String>, ty: ParameterType },
}

/// A path ends in a name.
pub open spec fn ends_in(path: Seq<String>, name: Seq<char>) -> bool {
    path.len() > 0 && path.last()@ == name
}

fn path_ends_in(path: &Vec<String>, name: &str) -> (r: bool)
    ensures
        r == ends_in(path@, name@),
{
    let n: usize = path.len();
    n > 0 && text::same(path[n - 1].as_str(), name)
}

/// The type is `&Console`, by any path.
pub open spec fn ref_console(ty: ParameterType) -> bool {
    match ty {
        ParameterType::Reference { mutable, path: Some(path) } => !mutable && ends_in(
            path@,
            "Console"@,
        ),
        _ => false,
    }
}

/// Whether the type is `&Console`, by any path.
pub fn is_ref_console(ty: &ParameterType) -> (r: bool)
    ensures
        r == ref_console(*ty),
{
    match ty {
        ParameterType::Reference { mutable, path: Some(path) } => !*mutable && path_ends_in(
            path,
            "Console",
        ),
        _ => false,
    }
}

/// The type is `SEXP`, by any path.
pub open spec fn sexp_type(ty: ParameterType) -> bool {
    match ty {
        ParameterType::Path(path) => ends_in(path@, "SEXP"@),
        _ => false,
    }
}

/// Whether the type is `SEXP`, by any path.
pub fn is_sexp_type(ty: &ParameterType) -> (r: bool)
    ensures
        r == sexp_type(*ty),
{
    match ty {
        ParameterType::Path(path) => path_ends_in(path, "SEXP"),
        _ => false,
    }
}

/// Why a function cannot be registered.
#[derive(Clone, Copy, Debug, PartialEq, Eq, Structural)]
pub enum RegisterError {
    /// A parameter is `self`.
    Receiver { parameter: usize },
    /// A parameter is neither an R object nor the console in first place.
    NotSexp { parameter: usize },
}

impl RegisterError {
    pub fn message(&self) -> (r: &'static str)
        ensures
            r@ == told(*self),
    {
        match self {
            RegisterError::Receiver { .. } =>
                "ark::register functions cannot have a `self` parameter",
            RegisterError::NotSexp { .. } =>
                "ark::register parameters (other than the leading `&Console`) must be `SEXP`",
        }
    }
}

/// The entry point that is made of a function.
#[derive(Debug, PartialEq, Eq)]
pub struct EntryPoint {
    /// The name by which the body knows the console, if it takes it. The body then runs
    /// inside of `Console::with`, which turns panics into errors.
    pub console: Option<String>,
    /// How many of the function's parameters come before those of the entry point.
    pub skipped: usize,
}

/// Why a parameter is not accepted.
pub open spec fn parameter_fault(p: Parameter, i: int) -> Option<RegisterError> {
    match p {
        Parameter::Receiver => Some(RegisterError::Receiver { parameter: i as usize }),
        Parameter::Typed { ty, .. } => if (i == 0 && ref_console(ty)) || sexp_type(ty) {
            None
        } else {
            Some(RegisterError::NotSexp { parameter: i as usize })
        },
    }
}

/// Why the first parameter that is not accepted is not.
pub open spec fn first_fault(params: Seq<Parameter>) -> Option<RegisterError>
    decreases params.len(),
{
    if params.len() == 0 {
        None
    } else {
        match first_fault(params.drop_last()) {
            Some(e) => Some(e),
            None => parameter_fault(params.last(), params.len() - 1),
        }
    }
}

/// The name of the console among the parameters of a function: `console` where the
/// function gives it none.
pub open spec fn console_name(params: Seq<Parameter>) -> Option<Seq<char>> {
    if params.len() == 0 {
        None
    } else {
        match params[0] {
            Parameter::Typed { name, ty } => if ref_console(ty) {
                match name {
                    Some(n) => Some(n@),
                    None => Some("console"@),
                }
            } else {
                None
            },
            Parameter::Receiver => None,
        }
    }
}

/// The entry point that is made of a function with the given parameters. Those after the
/// console, if the function takes it, are the parameters of the entry point, in their
/// order.
pub fn register_impl(params: &Vec<Parameter>) -> (r: Result<EntryPoint, RegisterError>)
    ensures
        is_registered(r, params@),
{
    let mut console: Option<String> = None;
    let n: usize = params.len();
    let mut i: usize = 0;
    assert(params@.take(0) =~= Seq::<Parameter>::empty());
    while i < n
        invariant
            n == params@.len(),
            i <= n,
            first_fault(params@.take(i as int)) is None,
            i == 0 ==> console is None,
            i > 0 ==> text::opt_text(console) == console_name(params@),
        decreases n - i,
    {
        assert(params@.take(i + 1).drop_last() =~= params@.take(i as int));
        match &params[i] {
            Parameter::Receiver => {
                proof {
                    lemma_fault_stays(params@, i + 1);
                }
                return Err(RegisterError::Receiver { parameter: i });
            },
            Parameter::Typed { name, ty } => {
                if i == 0 && is_ref_console(ty) {
                    console =
                    match name {
                        Some(name) => Some(name.clone()),
                        None => Some("console".to_owned()),
                    };
                } else if !is_sexp_type(ty) {
                    proof {
                        lemma_fault_stays(params@, i + 1);
                    }
                    return Err(RegisterError::NotSexp { parameter: i });
                }
            },
        }
        i = i + 1;
    }
    assert(params@.take(n as int) =~= params@);
    let skipped: usize = if console.is_some() {
        1
    } else {
        0
    };
    Ok(EntryPoint { console, skipped })
}

/// What is wrong with the first parameters is wrong with all.
proof fn lemma_fault_stays(params: Seq<Parameter>, n: int)
    requires
        0 <= n <= params.len(),
        first_fault(params.take(n)) is Some,
    ensures
        first_fault(params) == first_fault(params.take(n)),
    decreases params.len(),
{
    if n == params.len() {
        assert(params.take(n) =~= params);
    } else {
        assert(params.drop_last().take(n) =~= params.take(n));
        lemma_fault_stays(params.drop_last(), n);
    }
}

/// A function is registered if and only if all its parameters are R objects, but for the
/// first, which may be the console.
pub proof fn law_registered_iff_sexp(params: Seq<Parameter>)
    ensures
        first_fault(params) is None <==> forall|i: int|
            0 <= i < params.len() ==> parameter_fault(#[trigger] params[i], i) is None,
    decreases params.len(),
{
    if params.len() > 0 {
        let shorter = params.drop_last();
        law_registered_iff_sexp(shorter);
        if first_fault(params) is None {
            assert forall|i: int| 0 <= i < params.len() implies parameter_fault(
                #[trigger] params[i],
                i,
            ) is None by {
                if i < shorter.len() {
                    assert(params[i] == shorter[i]);
                }
            }
        }
        if forall|i: int|
            0 <= i < params.len() ==> parameter_fault(#[trigger] params[i], i) is None {
            assert forall|i: int| 0 <= i < shorter.len() implies parameter_fault(
                #[trigger] shorter[i],
                i,
            ) is None by {
                assert(params[i] == shorter[i]);
            }
            assert(params[params.len() - 1] == params.last());
        }
    }
}

/// What an error tells.
pub open spec fn told(e: RegisterError) -> Seq<char> {
    match e {
        RegisterError::Receiver { .. } =>
            "ark::register functions cannot have a `self` parameter"@,
        RegisterError::NotSexp { .. } =>
            "ark::register parameters (other than the leading `&Console`) must be `SEXP`"@,
    }
}

/// How a function is registered, or why it cannot be.
pub open spec fn is_registered(
    r: Result<EntryPoint, RegisterError>,
    params: Seq<Parameter>,
) -> bool {
    match first_fault(params) {
        Some(e) => r == Err::<EntryPoint, RegisterError>(e),
        None => {
            &&& r matches Ok(entry)
            &&& text::opt_text(entry.console) == console_name(params)
            &&& entry.skipped == (if console_name(params) is Some {
                1int
            } else {
                0int
            })
        },
    }
}

/// Only the first parameter may be a shared reference to the console, and it is then not
/// one of those that R gives. All others must be values of R, and none a receiver.
pub proof fn law_parameters_of_registered_functions(
    r: Result<EntryPoint, RegisterError>,
    params: Seq<Parameter>,
)
    requires
        is_registered(r, params),
    ensures
        r is Ok ==> forall|i: int|
            0 <= i < params.len() ==> (#[trigger] params[i]) is Typed && match params[i]->ty {
                ParameterType::Path(path) => path@.len() > 0 && path@.last()@ == "SEXP"@,
                ParameterType::Reference { mutable, path } => i == 0 && !mutable && path is Some
                    && path->0@.len() > 0 && path->0@.last()@ == "Console"@,
                _ => false,
            },
        r matches Ok(entry) ==> entry.skipped == (if params.len() > 0
            && params[0]->ty is Reference {
            1int
        } else {
            0
        }) && entry.console is Some == (entry.skipped == 1),
        r matches Ok(entry) ==> entry.console is Some ==> entry.console->0@ == (
        match params[0]->name {
            Some(name) => name@,
            None => "console"@,
        }),
{
    law_registered_iff_sexp(params);
    if r is Ok {
        assert forall|i: int| 0 <= i < params.len() implies (#[trigger] params[i]) is Typed
            && match params[i]->ty {
            ParameterType::Path(path) => path@.len() > 0 && path@.last()@ == "SEXP"@,
            ParameterType::Reference { mutable, path } => i == 0 && !mutable && path is Some
                && path->0@.len() > 0 && path->0@.last()@ == "Console"@,
            _ => false,
        } by {
            assert(parameter_fault(params[i], i) is None);
        }
        if params.len() > 0 {
            assert(parameter_fault(params[0], 0) is None);
        }
    }
}

/// The first parameter that is at fault is told, with what is wrong with it.
pub proof fn law_first_fault_is_told(params: Seq<Parameter>, i: int)
    requires
        0 <= i < params.len() <= usize::MAX,
        first_fault(params.take(i)) is None,
    ensures
        params[i] is Receiver ==> first_fault(params) == Some(
            RegisterError::Receiver { parameter: i as usize },
        ),
        (params[i] matches Parameter::Typed { name, ty } && i > 0 && !(ty is Path))
            ==> first_fault(params) == Some(RegisterError::NotSexp { parameter: i as usize }),
        told(RegisterError::Receiver { parameter: i as usize })
            == "ark::register functions cannot have a `self` parameter"@,
        told(RegisterError::NotSexp { parameter: i as usize })
            == "ark::register parameters (other than the leading `&Console`) must be `SEXP`"@,
{
    let more = params.take(i + 1);
    assert(more.drop_last() =~= params.take(i));
    assert(more.last() == params[i]);
    if parameter_fault(params[i], i) is Some {
        lemma_fault_stays(params, i + 1);
    }
}

} // verus!
