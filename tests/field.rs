use roost::{
    bold, collect_lines, color, empty_field_error, end_offset_field, field_step, span_end, int_factory, invalid_value_error,
    make_prompt, string, trim_end, FieldValue, RoostError, Step, Validator,
};

fn text_of(v: &FieldValue) -> String {
    match v {
        FieldValue::Text(s) => s.clone(),
        FieldValue::Int(n) => format!("#{}", n),
    }
}

#[test]
fn styling_codes() {
    assert_eq!(bold("x".to_string()), "\x1b[1mx\x1b[0m");
    assert_eq!(color("x".to_string(), 4), "\x1b[34mx\x1b[39m");
    assert_eq!(color("".to_string(), 0), "\x1b[30m\x1b[39m");
}

#[test]
fn prompts() {
    assert_eq!(make_prompt("summary".to_string(), None), "\x1b[1msummary: \x1b[0m");
    assert_eq!(
        make_prompt("line number".to_string(), Some("1".to_string())),
        "\x1b[1mline number\x1b[34m (default=1)\x1b[39m: \x1b[0m"
    );
}

#[test]
fn string_accepts_anything() {
    assert_eq!(string("abc"), Ok("abc".to_string()));
    assert_eq!(string(""), Ok(String::new()));
}

#[test]
fn numeric_validator_bounds() {
    let v = int_factory(3, 10);
    assert_eq!(v.parse("2"), Err(RoostError::TooSmall));
    assert_eq!(v.parse("11"), Err(RoostError::TooBig));
    assert_eq!(v.parse("3"), Ok(3));
    assert_eq!(v.parse("7"), Ok(7));
    assert_eq!(v.parse("10"), Ok(10));
    assert_ne!(RoostError::TooSmall.details(), RoostError::TooBig.details());
    assert_ne!(RoostError::TooSmall.details(), RoostError::InvalidValue.details());
}

#[test]
fn numeric_validator_rejects_non_numbers() {
    let v = int_factory(0, usize::MAX);
    assert_eq!(v.parse("abc"), Err(RoostError::InvalidValue));
    assert_eq!(v.parse("-1"), Err(RoostError::InvalidValue));
    assert_eq!(v.parse("+"), Err(RoostError::InvalidValue));
    assert_eq!(v.parse(""), Err(RoostError::InvalidValue));
    assert_eq!(v.parse("1 2"), Err(RoostError::InvalidValue));
    assert_eq!(v.parse("18446744073709551616"), Err(RoostError::InvalidValue));
    assert_eq!(v.parse("99999999999999999999x"), Err(RoostError::InvalidValue));
}

#[test]
fn numeric_validator_reads_like_std() {
    let v = int_factory(0, usize::MAX);
    assert_eq!(v.parse("+5"), Ok(5));
    assert_eq!(v.parse("007"), Ok(7));
    assert_eq!(v.parse("18446744073709551615"), Ok(usize::MAX));
    for s in ["0", "42", "+0", "1234567890"] {
        assert_eq!(v.parse(s).ok(), s.parse::<usize>().ok());
    }
}

#[test]
fn trims_trailing_whitespace_only() {
    assert_eq!(trim_end("  ab \t\r\n"), "  ab");
    assert_eq!(trim_end("\u{3000}\u{a0}"), "");
    assert_eq!(trim_end("x\u{2003}"), "x");
}

#[test]
fn blank_input_takes_default() {
    let default = Some(FieldValue::Int(69));
    let never = Validator::Int(int_factory(1, 0));
    match field_step("  \n", &never, &default) {
        Step::Done(FieldValue::Int(n)) => assert_eq!(n, 69),
        other => panic!("unexpected {:?}", other),
    }
    let text_default = Some(FieldValue::Text("<stdin>".to_string()));
    match field_step("", &Validator::Text, &text_default) {
        Step::Done(v) => assert_eq!(text_of(&v), "<stdin>"),
        other => panic!("unexpected {:?}", other),
    }
}

#[test]
fn blank_input_on_required_field_asks_again() {
    assert!(matches!(field_step("\n", &Validator::Text, &None), Step::Empty));
    let lines: Vec<String> = vec!["".into(), "   ".into(), "\n".into(), "hello\n".into()];
    match collect_lines(&Validator::Text, &None, &lines) {
        Some((v, used)) => {
            assert_eq!(text_of(&v), "hello");
            assert_eq!(used, 4);
        }
        None => panic!("no value"),
    }
    let blanks: Vec<String> = vec!["".into(), " ".into()];
    assert!(collect_lines(&Validator::Text, &None, &blanks).is_none());
}

#[test]
fn invalid_input_asks_again() {
    let v = Validator::Int(int_factory(0, 5));
    assert!(matches!(field_step("9\n", &v, &None), Step::Invalid(RoostError::TooBig)));
    assert!(matches!(field_step("x\n", &v, &None), Step::Invalid(RoostError::InvalidValue)));
    let lines: Vec<String> = vec!["x".into(), "9".into(), "".into(), "4 ".into()];
    match collect_lines(&v, &None, &lines) {
        Some((FieldValue::Int(n), used)) => {
            assert_eq!(n, 4);
            assert_eq!(used, 4);
        }
        other => panic!("unexpected {:?}", other),
    }
}

#[test]
fn error_messages() {
    assert_eq!(
        empty_field_error("summary"),
        "\x1b[1m\x1b[31mERR: field 'summary' cannot be empty\x1b[39m\x1b[0m"
    );
    assert_eq!(
        invalid_value_error("abc", &Validator::Int(int_factory(0, 3)), RoostError::InvalidValue),
        "\x1b[1m\x1b[33mERR: 'abc' is not a valid number (invalid value)\x1b[39m\x1b[0m"
    );
}

#[test]
fn default_display() {
    assert_eq!(FieldValue::Int(1).display(), "1");
    assert_eq!(FieldValue::Text("<stdin>".into()).display(), "<stdin>");
}

#[test]
fn failure_reasons_read_as_before() {
    assert_eq!(RoostError::InvalidValue.details(), "invalid value");
    assert_eq!(RoostError::TooSmall.details(), "value is too smol");
    assert_eq!(RoostError::TooBig.details(), "value is too big");
    assert_eq!(int_factory(9, 15).parse("8"), Err(RoostError::TooSmall));
}

#[test]
fn end_field_bounds_and_default() {
    let (v, d) = end_offset_field(17, 8);
    match v {
        Validator::Int(r) => {
            assert_eq!(r.min, 9);
            assert_eq!(r.max, 16);
        }
        Validator::Text => panic!("the end field is numeric"),
    }
    assert!(matches!(d, FieldValue::Int(16)));
    assert_eq!(span_end(17, 8, 16), 17);
    assert_eq!(span_end(17, 8, 9), 10);
}

#[test]
fn start_at_line_end_gives_empty_span() {
    let (v, d) = end_offset_field(5, 5);
    let lines: Vec<String> = vec!["".into()];
    match collect_lines(&v, &Some(d), &lines) {
        Some((FieldValue::Int(n), 1)) => assert_eq!(span_end(5, 5, n), 5),
        other => panic!("unexpected {:?}", other),
    }
}
