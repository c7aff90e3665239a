//! Variables shown by the debugger.
//!
//! R's objects come as descriptions that hold what a variable shows of them.
//! Floating point numbers come as texts.
use vstd::prelude::*;

use crate::r_object::RObject;
use crate::text;

verus! {

/// A variable of R.
#[derive(Debug)]
pub struct RVariable {
    pub name: String,
    pub value: String,
    pub type_field: Option<String>,
    /// The object whose children are to be asked for, if it has any.
    pub variables_reference_object: Option<RObject>,
}

/// Builds a variable from the fields that are known.
pub struct RVariableBuilder {
    pub name: String,
    pub value: Option<String>,
    pub type_field: Option<String>,
    pub variables_reference_object: Option<RObject>,
}

impl RVariableBuilder {
    pub fn new(name: String) -> (r: Self)
        ensures
            r == (RVariableBuilder {
                name,
                value: None,
                type_field: None,
                variables_reference_object: None,
            }),
    {
        Self { name, value: None, type_field: None, variables_reference_object: None }
    }

    pub fn value(self, x: String) -> (r: Self)
        ensures
            r == (RVariableBuilder { value: Some(x), ..self }),
    {
        Self { value: Some(x), ..self }
    }

    pub fn type_field(self, x: String) -> (r: Self)
        ensures
            r == (RVariableBuilder { type_field: Some(x), ..self }),
    {
        Self { type_field: Some(x), ..self }
    }

    pub fn variables_reference_object(self, x: RObject) -> (r: Self)
        ensures
            r == (RVariableBuilder { variables_reference_object: Some(x), ..self }),
    {
        Self { variables_reference_object: Some(x), ..self }
    }

    /// The variable. An empty value tells that none is to be shown.
    pub fn build(self) -> (r: RVariable)
        ensures
            r.name == self.name,
            match self.value {
                Some(value) => r.value == value,
                None => r.value@.len() == 0,
            },
            r.type_field == self.type_field,
            r.variables_reference_object == self.variables_reference_object,
    {
        let value: String = match self.value {
            Some(value) => value,
            None => String::new(),
        };
        RVariable {
            name: self.name,
            value,
            type_field: self.type_field,
            variables_reference_object: self.variables_reference_object,
        }
    }
}

/// The integer that stands for a missing logical or integer value.
pub const NA_INTEGER: i32 = -0x8000_0000;

/// A floating point number, by what is shown of it.
#[derive(Debug)]
pub enum RDouble {
    NA,
    NaN,
    PositiveInfinity,
    NegativeInfinity,
    /// A finite number, written in digits. It is negative if it is below zero.
    Finite { digits: String, is_negative: bool },
}

/// An element of a character vector.
#[derive(Debug)]
pub enum RString {
    NA,
    Text(String),
    /// An element that is no text in any encoding.
    Unreadable,
}

/// What is shown of an object, by its type.
#[derive(Debug)]
pub enum RValue {
    Nil,
    Logical(Vec<i32>),
    Integer(Vec<i32>),
    Double(Vec<RDouble>),
    Complex(Vec<(RDouble, RDouble)>),
    Character(Vec<RString>),
    List(RObject),
    Symbol(String),
    /// A call, as R describes it, if it does.
    Call(Option<String>),
    /// A promise: its value if it was forced, and else its expression.
    Promise(Box<RDescription>),
    /// Compiled code, with the expression it was compiled from.
    Bytecode(Box<RDescription>),
    Expression,
    Pairlist,
    Closure,
    Environment(RObject),
    /// An object of another type, with the name of the type.
    Other(String),
}

/// The class of an object.
#[derive(Debug)]
pub enum RClass {
    /// The object has no class.
    Bare,
    /// The object has a class, with its class vector if it has one. A class that is
    /// missing is none.
    Classed(Option<Vec<Option<String>>>),
}

/// What is shown of an object.
#[derive(Debug)]
pub struct RDescription {
    pub class: RClass,
    pub value: RValue,
}

/// How a logical value is shown.
pub open spec fn lgl_text(x: i32) -> Seq<char> {
    if x == NA_INTEGER {
        "NA"@
    } else if x == 0 {
        "FALSE"@
    } else {
        "TRUE"@
    }
}

/// How an integer is shown.
pub open spec fn int_text(x: i32) -> Seq<char> {
    if x == NA_INTEGER {
        "NA"@
    } else {
        text::decimal_int(x as int) + "L"@
    }
}

/// How a floating point number is shown.
pub open spec fn dbl_text(x: RDouble) -> Seq<char> {
    match x {
        RDouble::NA => "NA"@,
        RDouble::NaN => "NaN"@,
        RDouble::PositiveInfinity => "Inf"@,
        RDouble::NegativeInfinity => "-Inf"@,
        RDouble::Finite { digits, .. } => digits@,
    }
}

/// The number shows a minus sign of its own.
pub open spec fn shows_minus(x: RDouble) -> bool {
    match x {
        RDouble::NegativeInfinity => true,
        RDouble::Finite { is_negative, .. } => is_negative,
        _ => false,
    }
}

/// How a complex number is shown.
pub open spec fn cpl_text(re: RDouble, im: RDouble) -> Seq<char> {
    dbl_text(re) + (if shows_minus(im) {
        Seq::empty()
    } else {
        "+"@
    }) + dbl_text(im) + "i"@
}

/// How an element of a character vector is shown.
pub open spec fn str_text(x: RString) -> Seq<char> {
    match x {
        RString::NA => "NA"@,
        RString::Text(t) => "\""@ + t@ + "\""@,
        RString::Unreadable => "\"???\""@,
    }
}

pub fn lgl_to_string(x: i32) -> (r: String)
    ensures
        r@ == lgl_text(x),
{
    if x == NA_INTEGER {
        "NA".to_owned()
    } else if x == 0 {
        "FALSE".to_owned()
    } else {
        "TRUE".to_owned()
    }
}

pub fn int_to_string(x: i32) -> (r: String)
    ensures
        r@ == int_text(x),
{
    if x == NA_INTEGER {
        "NA".to_owned()
    } else {
        text::join2(text::i64_text(x as i64).as_str(), "L")
    }
}

pub fn dbl_to_string(x: &RDouble) -> (r: String)
    ensures
        r@ == dbl_text(*x),
{
    match x {
        RDouble::NA => "NA".to_owned(),
        RDouble::NaN => "NaN".to_owned(),
        RDouble::PositiveInfinity => "Inf".to_owned(),
        RDouble::NegativeInfinity => "-Inf".to_owned(),
        RDouble::Finite { digits, .. } => digits.clone(),
    }
}

pub fn cpl_to_string(re: &RDouble, im: &RDouble) -> (r: String)
    ensures
        r@ == cpl_text(*re, *im),
{
    let mut out: String = dbl_to_string(re);
    let minus: bool = match im {
        RDouble::NegativeInfinity => true,
        RDouble::Finite { is_negative, .. } => *is_negative,
        _ => false,
    };
    let ghost head = out@;
    if !minus {
        out.append("+");
    }
    assert(out@ =~= head + (if shows_minus(*im) {
        Seq::empty()
    } else {
        "+"@
    }));
    out.append(dbl_to_string(im).as_str());
    out.append("i");
    out
}

pub fn str_to_string(x: &RString) -> (r: String)
    ensures
        r@ == str_text(*x),
{
    match x {
        RString::NA => "NA".to_owned(),
        RString::Text(t) => text::join3("\"", t.as_str(), "\""),
        RString::Unreadable => "\"???\"".to_owned(),
    }
}

/// How the elements of a vector are shown.
pub open spec fn element_texts(value: RValue) -> Seq<Seq<char>> {
    match value {
        RValue::Logical(x) => x@.map_values(|e: i32| lgl_text(e)),
        RValue::Integer(x) => x@.map_values(|e: i32| int_text(e)),
        RValue::Double(x) => x@.map_values(|e: RDouble| dbl_text(e)),
        RValue::Complex(x) => x@.map_values(|e: (RDouble, RDouble)| cpl_text(e.0, e.1)),
        RValue::Character(x) => x@.map_values(|e: RString| str_text(e)),
        _ => Seq::empty(),
    }
}

/// The name of a vector's type.
pub open spec fn vector_type(value: RValue) -> Seq<char> {
    match value {
        RValue::Logical(_) => "logical"@,
        RValue::Integer(_) => "integer"@,
        RValue::Double(_) => "double"@,
        RValue::Complex(_) => "complex"@,
        _ => "character"@,
    }
}

/// How a vector is shown: at most five of its elements, or that it is empty.
pub open spec fn vector_text(value: RValue) -> Seq<char> {
    let elements = element_texts(value);
    if elements.len() == 0 {
        vector_type(value) + "(0)"@
    } else if elements.len() > 5 {
        text::joined(elements.take(5), ", "@) + ", ..."@
    } else {
        text::joined(elements, ", "@)
    }
}

fn vector_type_name(value: &RValue) -> (r: &'static str)
    ensures
        r@ == vector_type(*value),
{
    match value {
        RValue::Logical(_) => "logical",
        RValue::Integer(_) => "integer",
        RValue::Double(_) => "double",
        RValue::Complex(_) => "complex",
        _ => "character",
    }
}

fn vector_len(value: &RValue) -> (r: usize)
    ensures
        r == element_texts(*value).len(),
{
    match value {
        RValue::Logical(x) => x.len(),
        RValue::Integer(x) => x.len(),
        RValue::Double(x) => x.len(),
        RValue::Complex(x) => x.len(),
        RValue::Character(x) => x.len(),
        _ => 0,
    }
}

fn element_text(value: &RValue, i: usize) -> (r: String)
    requires
        i < element_texts(*value).len(),
    ensures
        r@ == element_texts(*value)[i as int],
{
    match value {
        RValue::Logical(x) => lgl_to_string(x[i]),
        RValue::Integer(x) => int_to_string(x[i]),
        RValue::Double(x) => dbl_to_string(&x[i]),
        RValue::Complex(x) => cpl_to_string(&x[i].0, &x[i].1),
        RValue::Character(x) => str_to_string(&x[i]),
        _ => String::new(),
    }
}

/// How a vector is shown.
pub fn vec_value(value: &RValue) -> (r: String)
    ensures
        r@ == vector_text(*value),
{
    let ghost elements = element_texts(*value);
    let n: usize = vector_len(value);
    if n == 0 {
        return text::join2(vector_type_name(value), "(0)");
    }
    let trim: bool = n > 5;
    let size: usize = if trim {
        5
    } else {
        n
    };
    let mut shown: Vec<String> = Vec::new();
    let mut i: usize = 0;
    assert(text::texts(shown@) =~= elements.take(0));
    while i < size
        invariant
            elements == element_texts(*value),
            i <= size <= elements.len(),
            text::texts(shown@) == elements.take(i as int),
        decreases size - i,
    {
        let ghost before = shown@;
        shown.push(element_text(value, i));
        assert(text::texts(shown@) =~= text::texts(before).push(elements[i as int]));
        assert(elements.take(i + 1) =~= elements.take(i as int).push(elements[i as int]));
        i = i + 1;
    }
    let mut out: String = text::join(&shown, ", ");
    if trim {
        out.append(", ...");
    } else {
        assert(elements.take(n as int) =~= elements);
    }
    out
}

/// The type of a vector, as it is shown.
pub fn vec_type_field(value: &RValue) -> (r: String)
    ensures
        r@ == "<"@ + vector_type(*value) + ">"@,
{
    text::join3("<", vector_type_name(value), ">")
}

/// How the class of an object is shown, from its class vector. There is none to show
/// if the vector is not there, is empty, or starts with a missing value.
pub open spec fn class_text(classes: Option<Vec<Option<String>>>) -> Option<Seq<char>> {
    match classes {
        Some(v) => if v@.len() > 0 && v@[0] is Some {
            Some("<"@ + v@[0]->0@ + ">"@)
        } else {
            None
        },
        None => None,
    }
}

/// What is shown of an object: its value, its type, and itself if it has children.
/// An object with a class is shown by its class. A promise and compiled code are
/// shown as what they hold.
pub open spec fn shown(d: RDescription) -> (Seq<char>, Seq<char>, Option<RObject>)
    decreases d,
{
    match d.class {
        RClass::Classed(classes) => match class_text(classes) {
            Some(class) => (class, class, None),
            None => (Seq::empty(), "<???>"@, None),
        },
        RClass::Bare => match d.value {
            RValue::Nil => ("NULL"@, "<NULL>"@, None),
            RValue::List(x) => ("<list>"@, "<list>"@, Some(x)),
            RValue::Symbol(name) => (name@, "<symbol>"@, None),
            RValue::Call(Some(described)) => (described@, "<call>"@, None),
            RValue::Call(None) => ("<call>"@, "<call>"@, None),
            RValue::Promise(inner) => if inner.value is Promise {
                ("<promise>"@, "<promise>"@, None)
            } else {
                shown(*inner)
            },
            RValue::Bytecode(inner) => if inner.value is Bytecode {
                ("<bytecode>"@, "<bytecode>"@, None)
            } else {
                shown(*inner)
            },
            RValue::Expression => ("<expression>"@, "<expression>"@, None),
            RValue::Pairlist => ("<pairlist>"@, "<pairlist>"@, None),
            RValue::Closure => ("<function>"@, "<function>"@, None),
            RValue::Environment(x) => ("<environment>"@, "<environment>"@, Some(x)),
            RValue::Other(kind_name) => {
                let name = "<"@ + kind_name@ + ">"@;
                (name, name, None)
            },
            vector => (vector_text(vector), "<"@ + vector_type(vector) + ">"@, None),
        },
    }
}

/// The variable shows an object under a name.
pub open spec fn shows(
    v: RVariable,
    name: Seq<char>,
    what: (Seq<char>, Seq<char>, Option<RObject>),
) -> bool {
    &&& v.name@ == name
    &&& v.value@ == what.0
    &&& text::opt_text(v.type_field) == Some(what.1)
    &&& v.variables_reference_object == what.2
}

fn variable(name: String, value: &str, type_field: &str) -> (r: RVariable)
    ensures
        shows(r, name@, (value@, type_field@, None)),
{
    RVariableBuilder::new(name).value(value.to_owned()).type_field(type_field.to_owned()).build()
}

/// The class of an object, as it is shown, from its class vector.
pub fn object_class(classes: &Option<Vec<Option<String>>>) -> (r: Option<String>)
    ensures
        text::opt_text(r) == class_text(*classes),
{
    match classes {
        None => None,
        Some(v) => {
            if v.len() == 0 {
                return None;
            }
            match &v[0] {
                Some(class) => Some(text::join3("<", class.as_str(), ">")),
                None => None,
            }
        },
    }
}

/// The variable that shows an object.
pub fn object_variable(name: String, x: &RDescription) -> (r: RVariable)
    ensures
        shows(r, name@, shown(*x)),
    decreases *x,
{
    match &x.class {
        RClass::Classed(classes) => match object_class(classes) {
            Some(class) => variable(name, class.as_str(), class.as_str()),
            None => {
                let r: RVariable = variable(name, "", "<???>");
                proof {
                    reveal_strlit("");
                    assert(""@ =~= Seq::<char>::empty());
                }
                r
            },
        },
        RClass::Bare => object_variable_bare(name, x),
    }
}

fn object_variable_bare(name: String, x: &RDescription) -> (r: RVariable)
    requires
        x.class is Bare,
    ensures
        shows(r, name@, shown(*x)),
    decreases x.value,
{
    match &x.value {
        RValue::Nil => variable(name, "NULL", "<NULL>"),
        RValue::List(object) => RVariableBuilder::new(name).value("<list>".to_owned()).type_field(
            "<list>".to_owned(),
        ).variables_reference_object(*object).build(),
        RValue::Symbol(symbol) => variable(name, symbol.as_str(), "<symbol>"),
        RValue::Call(described) => match described {
            Some(call) => variable(name, call.as_str(), "<call>"),
            None => variable(name, "<call>", "<call>"),
        },
        RValue::Promise(inner) => {
            if let RValue::Promise(_) = &inner.value {
                return variable(name, "<promise>", "<promise>");
            }
            object_variable(name, inner)
        },
        RValue::Bytecode(inner) => {
            if let RValue::Bytecode(_) = &inner.value {
                return variable(name, "<bytecode>", "<bytecode>");
            }
            object_variable(name, inner)
        },
        RValue::Expression => variable(name, "<expression>", "<expression>"),
        RValue::Pairlist => variable(name, "<pairlist>", "<pairlist>"),
        RValue::Closure => variable(name, "<function>", "<function>"),
        RValue::Environment(object) => RVariableBuilder::new(name).value(
            "<environment>".to_owned(),
        ).type_field("<environment>".to_owned()).variables_reference_object(*object).build(),
        RValue::Other(kind_name) => {
            let shown_type: String = text::join3("<", kind_name.as_str(), ">");
            variable(name, shown_type.as_str(), shown_type.as_str())
        },
        vector => {
            let value: String = vec_value(vector);
            let type_field: String = vec_type_field(vector);
            variable(name, value.as_str(), type_field.as_str())
        },
    }
}

/// The names that are not shown: the dots of a signature, and what R passes to
/// generics and methods.
pub open spec fn ignored_name(name: Seq<char>) -> bool {
    ||| name == "..."@
    ||| name == ".Generic"@
    ||| name == ".Method"@
    ||| name == ".Class"@
    ||| name == ".Group"@
    ||| name == ".GenericCallEnv"@
    ||| name == ".GenericDefEnv"@
}

/// Whether a name is not shown.
pub fn is_ignored_name(x: &str) -> (r: bool)
    ensures
        r == ignored_name(x@),
{
    text::same(x, "...") || text::same(x, ".Generic") || text::same(x, ".Method") || text::same(
        x,
        ".Class",
    ) || text::same(x, ".Group") || text::same(x, ".GenericCallEnv") || text::same(
        x,
        ".GenericDefEnv",
    )
}

/// What a name is bound to in an environment.
#[derive(Debug)]
pub enum Binding {
    /// Whether the binding is active cannot be told.
    Failed,
    /// A function computes the value, and is not called.
    Active,
    /// Nothing.
    Missing,
    Value(RDescription),
}

/// The variable that shows a binding. Names that are not shown, and bindings that
/// cannot be looked at, give none.
pub fn env_binding_variable(name: String, binding: &Binding) -> (r: Option<RVariable>)
    ensures
        r is Some == (!ignored_name(name@) && (binding is Active || binding is Value)),
        r matches Some(v) ==> shows(
            v,
            name@,
            match *binding {
                Binding::Value(x) => shown(x),
                _ => ("<active binding>"@, "<active binding>"@, None),
            },
        ),
{
    if is_ignored_name(name.as_str()) {
        return None;
    }
    match binding {
        Binding::Failed => None,
        Binding::Missing => None,
        Binding::Active => Some(variable(name, "<active binding>", "<active binding>")),
        Binding::Value(x) => Some(object_variable(name, x)),
    }
}

/// The bindings that are shown.
pub open spec fn shown_binding(b: (String, Binding)) -> bool {
    !ignored_name(b.0@) && (b.1 is Active || b.1 is Value)
}

/// What is shown of a binding.
pub open spec fn binding_shown(b: Binding) -> (Seq<char>, Seq<char>, Option<RObject>) {
    match b {
        Binding::Value(x) => shown(x),
        _ => ("<active binding>"@, "<active binding>"@, None),
    }
}

/// The variables of an environment: one for each binding that is shown, in their
/// order.
pub fn env_variables(bindings: &Vec<(String, Binding)>) -> (r: Vec<RVariable>)
    ensures
        r@.len() == bindings@.filter(|b: (String, Binding)| shown_binding(b)).len(),
        forall|i: int|
            0 <= i < r@.len() ==> shows(
                #[trigger] r@[i],
                bindings@.filter(|b: (String, Binding)| shown_binding(b))[i].0@,
                binding_shown(bindings@.filter(|b: (String, Binding)| shown_binding(b))[i].1),
            ),
{
    let ghost keep = |b: (String, Binding)| shown_binding(b);
    let mut out: Vec<RVariable> = Vec::new();
    let n: usize = bindings.len();
    let mut i: usize = 0;
    while i < n
        invariant
            n == bindings@.len(),
            i <= n,
            keep == (|b: (String, Binding)| shown_binding(b)),
            out@.len() == bindings@.take(i as int).filter(keep).len(),
            forall|k: int|
                0 <= k < out@.len() ==> shows(
                    #[trigger] out@[k],
                    bindings@.take(i as int).filter(keep)[k].0@,
                    binding_shown(bindings@.take(i as int).filter(keep)[k].1),
                ),
        decreases n - i,
    {
        proof {
            assert(bindings@.take(i + 1) =~= bindings@.take(i as int).push(bindings@[i as int]));
            bindings@.take(i as int).lemma_filter_push(bindings@[i as int], keep);
        }
        if let Some(v) = env_binding_variable(bindings[i].0.clone(), &bindings[i].1) {
            out.push(v);
        }
        i = i + 1;
    }
    assert(bindings@.take(n as int) =~= bindings@);
    out
}

/// The name of the element at place `i` of a list: its own, or its number counted
/// from one if it has none.
pub open spec fn indexed_name(name: Seq<char>, i: int) -> Seq<char> {
    if name.len() == 0 {
        text::decimal((i + 1) as nat)
    } else {
        name
    }
}

/// The names of the elements of a list.
pub fn indexed_names(names: &Vec<String>) -> (r: Vec<String>)
    ensures
        r@.len() == names@.len(),
        forall|i: int| 0 <= i < r@.len() ==> (#[trigger] r@[i])@ == indexed_name(names@[i]@, i),
{
    let mut out: Vec<String> = Vec::new();
    let n: usize = names.len();
    let mut i: usize = 0;
    while i < n
        invariant
            n == names@.len(),
            i <= n,
            out@.len() == i,
            forall|k: int|
                0 <= k < out@.len() ==> (#[trigger] out@[k])@ == indexed_name(names@[k]@, k),
        decreases n - i,
    {
        if names[i].as_str().is_empty() {
            out.push(text::u64_text(i as u64 + 1));
        } else {
            out.push(names[i].clone());
        }
        i = i + 1;
    }
    out
}

/// The variables of a list: one for each element.
pub fn list_variables(names: &Vec<String>, elements: &Vec<RDescription>) -> (r: Vec<RVariable>)
    requires
        names@.len() == elements@.len(),
    ensures
        r@.len() == elements@.len(),
        forall|i: int|
            0 <= i < r@.len() ==> shows(
                #[trigger] r@[i],
                indexed_name(names@[i]@, i),
                shown(elements@[i]),
            ),
{
    let shown_names: Vec<String> = indexed_names(names);
    let mut out: Vec<RVariable> = Vec::new();
    let n: usize = elements.len();
    let mut i: usize = 0;
    while i < n
        invariant
            n == elements@.len(),
            n == names@.len(),
            n == shown_names@.len(),
            i <= n,
            out@.len() == i,
            forall|k: int|
                0 <= k < n ==> (#[trigger] shown_names@[k])@ == indexed_name(names@[k]@, k),
            forall|k: int|
                0 <= k < out@.len() ==> shows(
                    #[trigger] out@[k],
                    indexed_name(names@[k]@, k),
                    shown(elements@[k]),
                ),
        decreases n - i,
    {
        out.push(object_variable(shown_names[i].clone(), &elements[i]));
        i = i + 1;
    }
    out
}

/// What an object that has children holds.
#[derive(Debug)]
pub enum Children {
    Environment(Vec<(String, Binding)>),
    /// The names of the elements, which are empty for those that have none, and the
    /// elements.
    List { names: Vec<String>, elements: Vec<RDescription> },
}

/// The variables of an object that has children.
pub fn object_variables(x: &Children) -> (r: Vec<RVariable>)
    requires
        x matches Children::List { names, elements } ==> names@.len() == elements@.len(),
    ensures
        are_children(r@, *x),
{
    match x {
        Children::Environment(bindings) => env_variables(bindings),
        Children::List { names, elements } => list_variables(names, elements),
    }
}

/// A bare list or environment is shown with itself as the object whose children can be
/// asked for. A promise and compiled code can be expanded as what they hold. No other
/// object can be expanded, and no object with a class.
pub proof fn law_lists_and_environments_can_be_expanded(v: RVariable, name: Seq<char>, d: RDescription)
    requires
        shows(v, name, shown(d)),
    ensures
        v.name@ == name,
        !(d.class is Bare) ==> v.variables_reference_object is None,
        d.class is Bare ==> match d.value {
            RValue::List(x) => v.variables_reference_object == Some(x),
            RValue::Environment(x) => v.variables_reference_object == Some(x),
            RValue::Promise(inner) => !(inner.value is Promise) ==> v.variables_reference_object
                == shown(*inner).2,
            RValue::Bytecode(inner) => !(inner.value is Bytecode)
                ==> v.variables_reference_object == shown(*inner).2,
            _ => v.variables_reference_object is None,
        },
{
}

/// What a forced promise shows is what its value shows: a promise of a list or of an
/// environment can be expanded as that.
pub proof fn law_promises_show_their_values(inner: RDescription)
    requires
        !(inner.value is Promise),
    ensures
        shown(RDescription { class: RClass::Bare, value: RValue::Promise(Box::new(inner)) })
            == shown(inner),
        inner.class is Bare && inner.value is List ==> shown(
            RDescription { class: RClass::Bare, value: RValue::Promise(Box::new(inner)) },
        ).2 == Some(inner.value->List_0),
        inner.class is Bare && inner.value is Environment ==> shown(
            RDescription { class: RClass::Bare, value: RValue::Promise(Box::new(inner)) },
        ).2 == Some(inner.value->Environment_0),
{
}

/// What objects are shown as: the value and the type in angle brackets. An object with a
/// class shows the first of its classes in place of both.
pub proof fn law_what_objects_are_shown_as(v: RVariable, name: Seq<char>, d: RDescription)
    requires
        shows(v, name, shown(d)),
    ensures
        v.type_field is Some,
        d.class is Bare ==> match d.value {
            RValue::Nil => v.value@ == "NULL"@ && v.type_field->0@ == "<NULL>"@,
            RValue::Logical(_) => v.type_field->0@ == "<logical>"@,
            RValue::Integer(_) => v.type_field->0@ == "<integer>"@,
            RValue::Double(_) => v.type_field->0@ == "<double>"@,
            RValue::Complex(_) => v.type_field->0@ == "<complex>"@,
            RValue::Character(_) => v.type_field->0@ == "<character>"@,
            RValue::List(_) => v.value@ == "<list>"@ && v.type_field->0@ == "<list>"@,
            RValue::Symbol(s) => v.value@ == s@ && v.type_field->0@ == "<symbol>"@,
            RValue::Call(Some(c)) => v.value@ == c@ && v.type_field->0@ == "<call>"@,
            RValue::Call(None) => v.value@ == "<call>"@ && v.type_field->0@ == "<call>"@,
            RValue::Expression => v.value@ == "<expression>"@ && v.type_field->0@
                == "<expression>"@,
            RValue::Pairlist => v.value@ == "<pairlist>"@ && v.type_field->0@ == "<pairlist>"@,
            RValue::Closure => v.value@ == "<function>"@ && v.type_field->0@ == "<function>"@,
            RValue::Environment(_) => v.value@ == "<environment>"@ && v.type_field->0@
                == "<environment>"@,
            RValue::Other(kind) => v.value@ == "<"@ + kind@ + ">"@ && v.type_field->0@ == v.value@,
            _ => true,
        },
        d.class matches RClass::Classed(Some(classes)) && classes@.len() > 0 && classes@[0] is Some
            ==> v.value@ == "<"@ + d.class->Classed_0->0@[0]->0@ + ">"@ && v.type_field->0@
            == v.value@,
        d.class matches RClass::Classed(None) ==> v.value@.len() == 0 && v.type_field->0@
            == "<???>"@,
{
    reveal_strlit("<");
    reveal_strlit(">");
    reveal_strlit("logical");
    reveal_strlit("integer");
    reveal_strlit("double");
    reveal_strlit("complex");
    reveal_strlit("character");
    reveal_strlit("<logical>");
    reveal_strlit("<integer>");
    reveal_strlit("<double>");
    reveal_strlit("<complex>");
    reveal_strlit("<character>");
    assert("<"@ + "logical"@ + ">"@ =~= "<logical>"@);
    assert("<"@ + "integer"@ + ">"@ =~= "<integer>"@);
    assert("<"@ + "double"@ + ">"@ =~= "<double>"@);
    assert("<"@ + "complex"@ + ">"@ =~= "<complex>"@);
    assert("<"@ + "character"@ + ">"@ =~= "<character>"@);
}

/// How elements of vectors are shown: a missing value as `NA`, an integer as its digits
/// and an `L`, a string in quotes, and the parts of a complex number with a sign between
/// them.
pub proof fn law_how_elements_are_shown(
    i: i32,
    t: String,
    re: RDouble,
    digits: String,
    is_negative: bool,
)
    ensures
        lgl_text(NA_INTEGER) == "NA"@,
        i != NA_INTEGER ==> lgl_text(i) == (if i == 0 {
            "FALSE"@
        } else {
            "TRUE"@
        }),
        int_text(NA_INTEGER) == "NA"@,
        i != NA_INTEGER ==> int_text(i) == text::decimal_int(i as int) + "L"@,
        str_text(RString::NA) == "NA"@,
        str_text(RString::Text(t)) == "\""@ + t@ + "\""@,
        dbl_text(RDouble::NA) == "NA"@,
        dbl_text(RDouble::NaN) == "NaN"@,
        dbl_text(RDouble::PositiveInfinity) == "Inf"@,
        dbl_text(RDouble::NegativeInfinity) == "-Inf"@,
        dbl_text(RDouble::Finite { digits, is_negative }) == digits@,
        cpl_text(re, RDouble::Finite { digits, is_negative }) == dbl_text(re) + (if is_negative {
            Seq::empty()
        } else {
            "+"@
        }) + digits@ + "i"@,
        cpl_text(re, RDouble::NegativeInfinity) == dbl_text(re) + "-Inf"@ + "i"@,
        cpl_text(re, RDouble::NA) == dbl_text(re) + "+"@ + "NA"@ + "i"@,
{
    assert(dbl_text(re) + Seq::<char>::empty() =~= dbl_text(re));
}

/// A vector is shown by its elements with commas between them: all of them if there are
/// at most five, else the first five and dots, so that vectors that start with the same
/// five elements and go on are shown alike.
pub proof fn law_vectors_are_shown_by_elements(x: Vec<i32>, y: Vec<i32>)
    ensures
        x@.len() == 0 ==> vector_text(RValue::Integer(x)) == "integer"@ + "(0)"@
            && vector_text(RValue::Logical(x)) == "logical"@ + "(0)"@,
        0 < x@.len() <= 5 ==> vector_text(RValue::Integer(x)) == text::joined(
            Seq::new(x@.len(), |i: int| int_text(x@[i])),
            ", "@,
        ),
        x@.len() > 5 ==> vector_text(RValue::Integer(x)) == text::joined(
            Seq::new(5, |i: int| int_text(x@[i])),
            ", "@,
        ) + ", ..."@,
        x@.len() > 5 && y@.len() > 5 && x@.take(5) == y@.take(5) ==> vector_text(
            RValue::Integer(x),
        ) == vector_text(RValue::Integer(y)),
{
    let ex = element_texts(RValue::Integer(x));
    let ey = element_texts(RValue::Integer(y));
    if 0 < x@.len() <= 5 {
        assert(ex =~= Seq::new(x@.len(), |i: int| int_text(x@[i])));
    }
    if x@.len() > 5 {
        assert(ex.take(5) =~= Seq::new(5, |i: int| int_text(x@[i])));
        if y@.len() > 5 && x@.take(5) == y@.take(5) {
            assert forall|i: int| 0 <= i < 5 implies x@[i] == y@[i] by {
                assert(x@.take(5)[i] == y@.take(5)[i]);
            }
            assert(ex.take(5) =~= ey.take(5));
        }
    }
}

/// An environment shows one variable for each binding that is not hidden and can be
/// looked at, under its name and in their order. The dots of a signature and what R
/// passes to methods are hidden, and an active binding is not looked at.
pub proof fn law_bindings_that_are_shown(b: (String, Binding))
    ensures
        b.1 is Failed || b.1 is Missing ==> !shown_binding(b),
        b.0@ == "..."@ || b.0@ == ".Generic"@ || b.0@ == ".Method"@ || b.0@ == ".Class"@ || b.0@
            == ".Group"@ || b.0@ == ".GenericCallEnv"@ || b.0@ == ".GenericDefEnv"@
            ==> !shown_binding(b),
        b.0@.len() > 0 && b.0@[0] != '.' && (b.1 is Active || b.1 is Value) ==> shown_binding(b),
        b.1 is Active ==> binding_shown(b.1) == ("<active binding>"@, "<active binding>"@, None::<RObject>),
        b.1 matches Binding::Value(d) ==> binding_shown(b.1) == shown(d),
{
    reveal_strlit("...");
    reveal_strlit(".Generic");
    reveal_strlit(".Method");
    reveal_strlit(".Class");
    reveal_strlit(".Group");
    reveal_strlit(".GenericCallEnv");
    reveal_strlit(".GenericDefEnv");
}

/// An element of a list is shown under its own name, or under its place counted from one
/// if it has none.
pub proof fn law_elements_are_named(name: Seq<char>, i: int)
    requires
        0 <= i,
    ensures
        name.len() > 0 ==> indexed_name(name, i) == name,
        indexed_name(Seq::empty(), i) == text::decimal((i + 1) as nat),
{
}

/// The variables that are shown of an object's children.
pub open spec fn are_children(r: Seq<RVariable>, x: Children) -> bool {
    match x {
        Children::Environment(bindings) => {
            let kept = bindings@.filter(|b: (String, Binding)| shown_binding(b));
            &&& r.len() == kept.len()
            &&& forall|i: int|
                0 <= i < r.len() ==> shows(
                    #[trigger] r[i],
                    kept[i].0@,
                    binding_shown(kept[i].1),
                )
        },
        Children::List { names, elements } => {
            &&& r.len() == elements@.len()
            &&& forall|i: int|
                0 <= i < r.len() ==> shows(
                    #[trigger] r[i],
                    indexed_name(names@[i]@, i),
                    shown(elements@[i]),
                )
        },
    }
}

/// The children of a list are its elements, in their order, under their names or places.
/// Those of an environment are its bindings.
pub proof fn law_children_are_shown(
    r: Seq<RVariable>,
    names: Vec<String>,
    elements: Vec<RDescription>,
    bindings: Vec<(String, Binding)>,
    i: int,
)
    ensures
        are_children(r, Children::List { names, elements }) ==> r.len() == elements@.len() && (0 <= i
            < r.len() ==> r[i].name@ == indexed_name(names@[i]@, i) && r[i].value@ == shown(
            elements@[i],
        ).0 && r[i].variables_reference_object == shown(elements@[i]).2),
        are_children(r, Children::Environment(bindings)) && 0 <= i < bindings@.len()
            && shown_binding(bindings@[i]) ==> exists|k: int|
            #![trigger r[k]]
            0 <= k < r.len() && r[k].name@ == bindings@[i].0@ && r[k].value@ == binding_shown(
                bindings@[i].1,
            ).0,
        are_children(r, Children::Environment(bindings)) && 0 <= i < r.len() ==> exists|k: int|
            #![trigger bindings@[k]]
            0 <= k < bindings@.len() && shown_binding(bindings@[k]) && r[i].name@
                == bindings@[k].0@,
{
    if are_children(r, Children::List { names, elements }) && 0 <= i < r.len() {
        assert(shows(r[i], indexed_name(names@[i]@, i), shown(elements@[i])));
    }
    let keep = |b: (String, Binding)| shown_binding(b);
    let kept = bindings@.filter(keep);
    if are_children(r, Children::Environment(bindings)) {
        if 0 <= i < bindings@.len() && shown_binding(bindings@[i]) {
            bindings@.lemma_filter_contains(keep, i);
            let k = choose|k: int| 0 <= k < kept.len() && kept[k] == bindings@[i];
            assert(shows(r[k], kept[k].0@, binding_shown(kept[k].1)));
        }
        if 0 <= i < r.len() {
            assert(shows(r[i], kept[i].0@, binding_shown(kept[i].1)));
            bindings@.lemma_filter_pred(keep, i);
            assert(kept.contains(kept[i]));
            bindings@.lemma_filter_contains_rev(keep, kept[i]);
            let k = choose|k: int| 0 <= k < bindings@.len() && bindings@[k] == kept[i];
            assert(bindings@[k] == kept[i]);
        }
    }
}

} // verus!
