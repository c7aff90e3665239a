use ark::dap::dap_variables::{
    cpl_to_string, dbl_to_string, env_binding_variable, env_variables, indexed_names,
    int_to_string, is_ignored_name, lgl_to_string, list_variables, object_class, object_variable,
    object_variables, str_to_string, vec_value, Binding, Children, RClass, RDescription, RDouble, RString, RValue, NA_INTEGER,
};
use ark::r_object::RObject;

fn dbl(x: f64) -> RDouble {
    if x.is_nan() {
        RDouble::NaN
    } else if x == f64::INFINITY {
        RDouble::PositiveInfinity
    } else if x == f64::NEG_INFINITY {
        RDouble::NegativeInfinity
    } else {
        RDouble::Finite { digits: x.to_string(), is_negative: x < 0.0 }
    }
}

fn text(x: &str) -> RString {
    RString::Text(x.to_string())
}

fn bare(value: RValue) -> RDescription {
    RDescription { class: RClass::Bare, value }
}

#[test]
fn test_to_string_methods() {
    assert_eq!(lgl_to_string(1), String::from("TRUE"));
    assert_eq!(lgl_to_string(0), String::from("FALSE"));
    assert_eq!(lgl_to_string(NA_INTEGER), String::from("NA"));

    assert_eq!(int_to_string(1), String::from("1L"));
    assert_eq!(int_to_string(0), String::from("0L"));
    assert_eq!(int_to_string(-1), String::from("-1L"));
    assert_eq!(int_to_string(NA_INTEGER), String::from("NA"));

    assert_eq!(dbl_to_string(&dbl(1.5)), String::from("1.5"));
    assert_eq!(dbl_to_string(&dbl(0.0)), String::from("0"));
    assert_eq!(dbl_to_string(&dbl(-1.5)), String::from("-1.5"));
    assert_eq!(dbl_to_string(&RDouble::NA), String::from("NA"));
    assert_eq!(dbl_to_string(&dbl(f64::NAN)), String::from("NaN"));
    assert_eq!(dbl_to_string(&dbl(f64::INFINITY)), String::from("Inf"));
    assert_eq!(dbl_to_string(&dbl(f64::NEG_INFINITY)), String::from("-Inf"));

    assert_eq!(cpl_to_string(&dbl(1.5), &dbl(2.5)), String::from("1.5+2.5i"));
    assert_eq!(cpl_to_string(&dbl(0.0), &dbl(0.0)), String::from("0+0i"));
    assert_eq!(cpl_to_string(&dbl(1.0), &dbl(-2.0)), String::from("1-2i"));
    assert_eq!(
        cpl_to_string(&RDouble::NA, &dbl(f64::NAN)),
        String::from("NA+NaNi")
    );
    assert_eq!(
        cpl_to_string(&dbl(f64::INFINITY), &dbl(f64::NEG_INFINITY)),
        String::from("Inf-Infi")
    );

    assert_eq!(str_to_string(&text("abc")), String::from("\"abc\""));
    assert_eq!(str_to_string(&RString::NA), String::from("NA"));
}

#[test]
fn test_vec_value_methods() {
    let x = RValue::Integer(vec![1, NA_INTEGER]);
    assert_eq!(vec_value(&x), String::from("1L, NA"));

    let x = RValue::Double(vec![
        dbl(1.5),
        RDouble::NA,
        dbl(f64::NAN),
        dbl(f64::INFINITY),
        dbl(f64::NEG_INFINITY),
    ]);
    assert_eq!(vec_value(&x), String::from("1.5, NA, NaN, Inf, -Inf"));

    let x = RValue::Character(vec![text("hi"), RString::NA]);
    assert_eq!(vec_value(&x), String::from("\"hi\", NA"))
}

#[test]
fn test_vec_value_truncation() {
    let x = RValue::Integer(vec![1, 2, 3, NA_INTEGER, -1, 100]);
    assert_eq!(vec_value(&x), String::from("1L, 2L, 3L, NA, -1L, ..."))
}

#[test]
fn test_vec_value_empty() {
    assert_eq!(vec_value(&RValue::Logical(vec![])), String::from("logical(0)"));
    assert_eq!(vec_value(&RValue::Integer(vec![])), String::from("integer(0)"));
    assert_eq!(vec_value(&RValue::Double(vec![])), String::from("double(0)"));
    assert_eq!(vec_value(&RValue::Complex(vec![])), String::from("complex(0)"));
    assert_eq!(vec_value(&RValue::Character(vec![])), String::from("character(0)"));
}

#[test]
fn test_env_binding_variable_base() {
    let a = Binding::Value(bare(RValue::Integer(vec![1])));
    let variable = env_binding_variable(String::from("a"), &a).unwrap();
    assert_eq!(variable.name, String::from("a"));
    assert_eq!(variable.value, String::from("1L"));
    assert_eq!(variable.type_field, Some(String::from("<integer>")));

    let variable = env_binding_variable(String::from("b"), &Binding::Missing);
    assert!(variable.is_none());
}

#[test]
fn test_env_binding_variable_classed() {
    let a = Binding::Value(RDescription {
        class: RClass::Classed(Some(vec![Some("foo".to_string())])),
        value: RValue::Integer(vec![1]),
    });
    let variable = env_binding_variable(String::from("a"), &a).unwrap();
    assert_eq!(variable.name, String::from("a"));
    assert_eq!(variable.value, String::from("<foo>"));
    assert_eq!(variable.type_field, Some(String::from("<foo>")));
}

#[test]
fn test_env_binding_variable_binding() {
    let variable = env_binding_variable(String::from("a"), &Binding::Active).unwrap();
    assert_eq!(variable.name, String::from("a"));
    assert_eq!(variable.value, String::from("<active binding>"));
    assert_eq!(variable.type_field, Some(String::from("<active binding>")));
}

#[test]
fn a_failed_binding_is_not_shown() {
    assert!(env_binding_variable(String::from("a"), &Binding::Failed).is_none());
}

#[test]
fn ignored_names_are_not_shown() {
    assert!(is_ignored_name(".Generic"));
    assert!(!is_ignored_name("x"));
    let environment = Children::Environment(vec![("y".to_string(), Binding::Active)]);
    assert_eq!(object_variables(&environment)[0].name, "y");
    let shown = env_variables(&vec![
        (".Generic".to_string(), Binding::Value(bare(RValue::Nil))),
        ("x".to_string(), Binding::Value(bare(RValue::Nil))),
    ]);
    assert_eq!(shown.len(), 1);
    assert_eq!(shown[0].name, "x");
    assert_eq!(shown[0].value, "NULL");
}

#[test]
fn elements_without_names_are_counted() {
    let names = vec!["a".to_string(), String::new(), "c".to_string()];
    assert_eq!(indexed_names(&names), vec!["a", "2", "c"]);
    let shown = list_variables(&names, &vec![
        bare(RValue::Logical(vec![1])),
        bare(RValue::List(RObject { address: 8 })),
        bare(RValue::Symbol("s".to_string())),
    ]);
    assert_eq!(shown.len(), 3);
    assert_eq!(shown[1].name, "2");
    assert_eq!(shown[1].variables_reference_object, Some(RObject { address: 8 }));
    assert_eq!(shown[0].value, "TRUE");
}

#[test]
fn promises_are_shown_by_what_they_hold() {
    let inner = bare(RValue::Integer(vec![3]));
    let x = bare(RValue::Promise(Box::new(inner)));
    assert_eq!(object_variable("p".to_string(), &x).value, "3L");
}

#[test]
fn a_class_is_shown_by_its_first_name() {
    let classes = Some(vec![Some("tbl".to_string()), Some("data.frame".to_string())]);
    assert_eq!(object_class(&classes).as_deref(), Some("<tbl>"));
    assert!(object_class(&None).is_none());
    assert!(object_class(&Some(vec![])).is_none());
    assert!(object_class(&Some(vec![None])).is_none());
    let x = RDescription { class: RClass::Classed(None), value: RValue::Integer(vec![1]) };
    let list = Children::List { names: vec![String::new()], elements: vec![x] };
    let shown = object_variables(&list);
    assert_eq!((shown[0].name.as_str(), shown[0].value.as_str()), ("1", ""));
    assert_eq!(shown[0].type_field.as_deref(), Some("<???>"));
}
