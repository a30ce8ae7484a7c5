use template_parse::Arg;
use template_parse::ValueError;

fn keyed(k: &str, v: Option<&str>) -> Arg {
    Arg {
        key: k.to_string(),
        val: v.map(|x| x.to_string()),
    }
}

#[test]
fn bare_key_is_a_true_flag() {
    let r: Result<bool, ValueError> = keyed("show", None).parse_value();
    assert_eq!(r, Ok(true));
}

#[test]
fn bool_values_parse_exactly() {
    let r: Result<bool, ValueError> = keyed("show", Some("true")).parse_value();
    assert_eq!(r, Ok(true));
    let r: Result<bool, ValueError> = keyed("show", Some("false")).parse_value();
    assert_eq!(r, Ok(false));
    let r: Result<bool, ValueError> = keyed("show", Some("yes")).parse_value();
    assert_eq!(
        r,
        Err(ValueError::InvalidValue {
            key: "show".to_string()
        })
    );
}

#[test]
fn numbers_parse_in_decimal() {
    let r: Result<u64, ValueError> = keyed("w", Some("3")).parse_value();
    assert_eq!(r, Ok(3));
    let r: Result<u64, ValueError> = keyed("w", Some("18446744073709551615")).parse_value();
    assert_eq!(r, Ok(u64::MAX));
    let r: Result<u64, ValueError> = keyed("w", Some("18446744073709551616")).parse_value();
    assert_eq!(r, Err(ValueError::InvalidValue { key: "w".to_string() }));
    let r: Result<u64, ValueError> = keyed("w", Some("2x")).parse_value();
    assert_eq!(r, Err(ValueError::InvalidValue { key: "w".to_string() }));
    let r: Result<u64, ValueError> = keyed("w", Some("")).parse_value();
    assert_eq!(r, Err(ValueError::InvalidValue { key: "w".to_string() }));
}

#[test]
fn missing_value_names_the_key() {
    let r: Result<u64, ValueError> = keyed("width", None).parse_value();
    assert_eq!(
        r,
        Err(ValueError::MissingValue {
            key: "width".to_string()
        })
    );
}

#[test]
fn string_values_pass_through() {
    let r: Result<String, ValueError> = keyed("unit", Some("bits")).parse_value();
    assert_eq!(r, Ok("bits".to_string()));
}

#[test]
fn parsed_arguments_coerce() {
    let (rest, f) = template_parse::parse_formatter(".eng(w:3 , show)").unwrap();
    assert_eq!(rest, "");
    let w: Result<u64, ValueError> = f.args[0].parse_value();
    assert_eq!(w, Ok(3));
    let show: Result<bool, ValueError> = f.args[1].parse_value();
    assert_eq!(show, Ok(true));
}
