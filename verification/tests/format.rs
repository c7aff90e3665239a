use ark::data_explorer::format::{
    apply_thousands_sep, format_column, format_string, pad_exponent, truncate_inplace,
    ColumnData, ColumnValue, DblText, FormatOptions, FormattedValue, ListElement,
};

fn default_options() -> FormatOptions {
    FormatOptions {
        large_num_digits: 2,
        small_num_digits: 4,
        max_integral_digits: 7,
        thousands_sep: Some(",".to_string()),
        max_value_length: 100,
    }
}

/// A number, by the notation that its magnitude asks for.
fn dbl(x: f64, options: &FormatOptions) -> DblText {
    let large = options.large_num_digits as usize;
    let small = options.small_num_digits as usize;
    let size = x.abs();
    if x.is_nan() {
        DblText::NaN
    } else if x == f64::INFINITY {
        DblText::Inf
    } else if x == f64::NEG_INFINITY {
        DblText::NegInf
    } else if size >= f64::powf(10.0, options.max_integral_digits as f64) {
        DblText::Large(format!("{:.large$e}", x))
    } else if size >= 1.0 {
        DblText::Medium(format!("{:.large$}", x))
    } else if size >= f64::powf(10.0, -(options.small_num_digits as f64)) {
        DblText::Small(format!("{:.small$}", x))
    } else if size == 0.0 {
        DblText::Zero(format!("{:.large$}", x))
    } else {
        DblText::VerySmall(format!("{:.large$e}", x))
    }
}

fn value(x: &str) -> ColumnValue {
    ColumnValue::FormattedValue(x.to_string())
}

fn na() -> ColumnValue {
    FormattedValue::NA.into_column_value()
}

fn chr(x: &[&str]) -> Vec<Option<String>> {
    x.iter().map(|v| if *v == "NA" { None } else { Some(v.to_string()) }).collect()
}

#[test]
fn test_pad_exponents() {
    assert_eq!(pad_exponent("1.00e+111".to_string()), "1.00e+111");
    assert_eq!(pad_exponent("1.00e+11".to_string()), "1.00e+11");
    assert_eq!(pad_exponent("1.00e+01".to_string()), "1.00e+01");
    assert_eq!(pad_exponent("1.00e+1".to_string()), "1.00e+01");
    assert_eq!(pad_exponent("1.00e+00".to_string()), "1.00e+00");
    assert_eq!(pad_exponent("1.00e-01".to_string()), "1.00e-01");
    assert_eq!(pad_exponent("1.00e-1".to_string()), "1.00e-01");
    assert_eq!(pad_exponent("1.00e-00".to_string()), "1.00e-00");
}

#[test]
fn test_thousands_sep() {
    assert_eq!(
        apply_thousands_sep("1000000".to_string(), Some(",")),
        "1,000,000"
    );
    assert_eq!(
        apply_thousands_sep("1000000.000".to_string(), Some(",")),
        "1,000,000.000"
    );
    assert_eq!(
        apply_thousands_sep("1.00".to_string(), Some(",")),
        "1.00"
    );
    assert_eq!(
        apply_thousands_sep("1000.00".to_string(), Some(",")),
        "1,000.00"
    );
    assert_eq!(
        apply_thousands_sep("100.00".to_string(), Some(",")),
        "100.00"
    );
    assert_eq!(
        apply_thousands_sep("1000000.00".to_string(), None),
        "1000000.00"
    );
    assert_eq!(
        apply_thousands_sep("-100".to_string(), Some(",")),
        "-100"
    );
    assert_eq!(
        apply_thousands_sep("-100000".to_string(), Some(",")),
        "-100,000"
    );
    assert_eq!(
        apply_thousands_sep("-100000.00".to_string(), Some(",")),
        "-100,000.00"
    );
}

#[test]
fn test_real_formatting() {
    let assert_float_formatting = |options: FormatOptions, expected: Vec<ColumnValue>| {
        let testing_values = [
            0.0, 1.0, 1.01, 1.012, 0.0123, 0.01234, 0.0001, 0.00001, 9999.123, 9999.999,
            9999999.0, 10000000.0,
        ];
        let data =
            ColumnData::Double(testing_values.iter().map(|x| dbl(*x, &options)).collect());
        let formatted = format_column(&data, &options);
        assert_eq!(formatted, expected);
    };

    let options = FormatOptions {
        large_num_digits: 2,
        small_num_digits: 4,
        max_integral_digits: 7,
        thousands_sep: None,
        max_value_length: 100,
    };
    let expected = vec![
        "0.00",
        "1.00",
        "1.01",
        "1.01",
        "0.0123",
        "0.0123",
        "0.0001",
        "1.00e-05",
        "9999.12",
        "10000.00",
        "9999999.00",
        "1.00e+07",
    ]
    .iter()
    .map(|x| ColumnValue::FormattedValue(x.to_string()))
    .collect::<Vec<ColumnValue>>();

    assert_float_formatting(options, expected);

    let options = FormatOptions {
        large_num_digits: 3,
        small_num_digits: 4,
        max_integral_digits: 7,
        thousands_sep: Some("_".to_string()),
        max_value_length: 100,
    };

    let expected = vec![
        "0.000",
        "1.000",
        "1.010",
        "1.012",
        "0.0123",
        "0.0123",
        "0.0001",
        "1.000e-05",
        "9_999.123",
        "9_999.999",
        "9_999_999.000",
        "1.000e+07",
    ]
    .iter()
    .map(|x| ColumnValue::FormattedValue(x.to_string()))
    .collect::<Vec<ColumnValue>>();

    assert_float_formatting(options, expected);
}

#[test]
fn test_float_special_values() {
    let options = default_options();
    let mut values = vec![DblText::NA];
    for x in [f64::NAN, f64::INFINITY, f64::NEG_INFINITY, 0.0, 1.0, 1000000000.0, -1000000000.0] {
        values.push(dbl(x, &options));
    }
    let formatted = format_column(&ColumnData::Double(values), &options);
    assert_eq!(formatted, vec![
        FormattedValue::NA.into_column_value(),
        FormattedValue::NaN.into_column_value(),
        FormattedValue::Inf.into_column_value(),
        FormattedValue::NegInf.into_column_value(),
        ColumnValue::FormattedValue("0.00".to_string()),
        ColumnValue::FormattedValue("1.00".to_string()),
        ColumnValue::FormattedValue("1.00e+09".to_string()),
        ColumnValue::FormattedValue("-1.00e+09".to_string())
    ]);
}

#[test]
fn test_list_formatting() {
    let number = || ListElement { class: vec!["numeric".to_string()], dims: vec![], length: 1 };
    let data = ColumnData::List(vec![Some(number()), None, Some(number())]);
    let formatted = format_column(&data, &default_options());
    assert_eq!(formatted, vec![
        ColumnValue::FormattedValue("<numeric [1]>".to_string()),
        FormattedValue::NULL.into_column_value(),
        ColumnValue::FormattedValue("<numeric [1]>".to_string())
    ]);
}

#[test]
fn test_integer_formatting() {
    let data = ColumnData::Integer(vec![
        Some(1),
        Some(1000),
        Some(0),
        Some(-100000),
        None,
        Some(1000000),
    ]);
    let formatted = format_column(&data, &default_options());
    assert_eq!(formatted, vec![
        value("1"),
        value("1,000"),
        value("0"),
        value("-100,000"),
        na(),
        value("1,000,000")
    ]);
}

#[test]
fn test_chr_formatting() {
    let data = ColumnData::Character(chr(&["a", "b", "c", "NA", "d", "e"]));
    let formatted = format_column(&data, &default_options());
    assert_eq!(formatted, vec![value("a"), value("b"), value("c"), na(), value("d"), value("e")]);
}

#[test]
fn test_factors_formatting() {
    let data = ColumnData::Classed {
        formatted: Some(chr(&["aaaaa", "b    ", "c    ", "NA", "d    ", "e    "])),
        is_na: Some(
            [false, false, false, true, false, false].iter().map(|b| Some(*b)).collect(),
        ),
        length: 6,
    };
    let formatted = format_column(&data, &default_options());
    assert_eq!(formatted, vec![
        value("aaaaa"),
        value("b"),
        value("c"),
        na(),
        value("d"),
        value("e")
    ]);
}

#[test]
fn test_cpl_formatting() {
    let cpl = |re: f64, im: f64| Some((re.to_string(), im.to_string()));
    let data = ColumnData::Complex(vec![
        cpl(1.0, 1.0),
        cpl(2.0, 2.0),
        cpl(3.0, 3.0),
        None,
        cpl(1000000000.0, 1000000000.0),
        cpl(5.0, 5.0),
    ]);
    let formatted = format_column(&data, &default_options());
    assert_eq!(formatted, vec![
        value("1+1i"),
        value("2+2i"),
        value("3+3i"),
        na(),
        value("1000000000+1000000000i"),
        value("5+5i")
    ]);
}

#[test]
fn test_lgl_formatting() {
    let data = ColumnData::Logical(vec![
        Some(true),
        Some(false),
        None,
        Some(true),
        Some(false),
        Some(true),
    ]);
    let formatted = format_column(&data, &default_options());
    assert_eq!(formatted, vec![
        value("TRUE"),
        value("FALSE"),
        na(),
        value("TRUE"),
        value("FALSE"),
        value("TRUE")
    ]);
}

#[test]
fn test_date_formatting() {
    let dates = |x: &[&str]| ColumnData::Classed {
        formatted: Some(chr(x)),
        is_na: Some(x.iter().map(|v| Some(*v == "NA")).collect()),
        length: x.len(),
    };
    let formatted = format_column(&dates(&["2012-01-01", "NA", "2017-05-27"]), &default_options());
    assert_eq!(formatted, vec![value("2012-01-01"), na(), value("2017-05-27")]);

    let formatted = format_column(
        &dates(&["2012-01-01 00:01:00", "NA", "2017-05-27 00:00:01"]),
        &default_options(),
    );
    assert_eq!(formatted, vec![
        value("2012-01-01 00:01:00"),
        na(),
        value("2017-05-27 00:00:01")
    ]);
}

#[test]
fn test_truncation() {
    let mut options = default_options();
    options.max_value_length = 3;

    let data = ColumnData::Character(chr(&["aaaaa", "aaaaaaaa", "aa"]));
    let formatted = format_column(&data, &options);
    assert_eq!(formatted, vec![value("aaa"), value("aaa"), value("aa")]);

    let data = ColumnData::Character(chr(&["ボルテックス"]));
    let formatted = format_column(&data, &options);
    assert_eq!(formatted, vec![value("ボルテ")]);

    options.max_value_length = 4;
    let data = ColumnData::Character(chr(&["नमस्ते"]));
    let formatted = format_column(&data, &options);
    assert_eq!(formatted, vec![value("नमस्")]);
}

#[test]
fn special_values_have_codes() {
    assert_eq!(FormattedValue::NULL.into_column_value(), ColumnValue::SpecialValueCode(0));
    assert_eq!(FormattedValue::NA.into_column_value(), ColumnValue::SpecialValueCode(1));
    assert_eq!(FormattedValue::NaN.into_column_value(), ColumnValue::SpecialValueCode(2));
    assert_eq!(FormattedValue::Inf.into_column_value(), ColumnValue::SpecialValueCode(10));
    assert_eq!(FormattedValue::NegInf.into_column_value(), ColumnValue::SpecialValueCode(11));
}

#[test]
fn unknown_formats_are_marked() {
    let data = ColumnData::Unsupported { length: 2 };
    let texts = format_string(&data, &default_options());
    assert_eq!(texts.len(), 2);
    assert_eq!(texts[0], texts[1]);
    let data = ColumnData::Classed { formatted: None, is_na: None, length: 2 };
    assert_eq!(format_string(&data, &default_options()), texts);
}

#[test]
fn separators_keep_the_digits() {
    for x in ["1234567.891", "-12", "999", "-1000"] {
        let with = apply_thousands_sep(x.to_string(), Some(","));
        assert_eq!(with.replace(',', ""), x);
    }
}

#[test]
fn texts_are_cut_in_place() {
    let mut s = "héllo".to_string();
    truncate_inplace(&mut s, 2);
    assert_eq!(s, "hé");
    truncate_inplace(&mut s, 10);
    assert_eq!(s, "hé");
}

#[test]
fn a_separator_of_several_characters_is_added_as_it_is() {
    assert_eq!(apply_thousands_sep("1234567.5".to_string(), Some("ab")), "1ab234ab567.5");
    assert_eq!(apply_thousands_sep("-1234".to_string(), Some("é_")), "-1é_234");
}
