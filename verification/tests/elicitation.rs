use grok_tools::elicitation::{
    is_plausible_email, validate_field, validate_form, validate_text_format, ElicitFieldKind,
    ElicitFieldSpec, ElicitFieldValue, ElicitOption, ElicitTextFormat, FieldContent, Real,
};

fn spec(name: &str, required: bool, kind: ElicitFieldKind) -> ElicitFieldSpec {
    ElicitFieldSpec { name: name.to_string(), required, kind }
}

fn options() -> Vec<ElicitOption> {
    vec![ElicitOption { value: "a".into() }, ElicitOption { value: "b".into() }]
}

#[test]
fn formats_are_checked_by_their_parsers() {
    assert!(validate_text_format(ElicitTextFormat::Email, "a@b.co").is_none());
    assert!(validate_text_format(ElicitTextFormat::Email, "nope").is_some());
    assert!(validate_text_format(ElicitTextFormat::Uri, "https://x.ai/a").is_none());
    assert!(validate_text_format(ElicitTextFormat::Uri, "no uri").is_some());
    assert!(validate_text_format(ElicitTextFormat::Date, "2026-02-28").is_none());
    assert!(validate_text_format(ElicitTextFormat::Date, "2026-02-30").is_some());
    assert!(validate_text_format(ElicitTextFormat::DateTime, "2026-02-28T10:00:00Z").is_none());
    assert!(validate_text_format(ElicitTextFormat::DateTime, "2026-02-28").is_some());
    assert!(is_plausible_email("x.y@z.org"));
    assert!(!is_plausible_email("@z.org"));
}

#[test]
fn texts_and_integers_keep_to_their_bounds() {
    let text = spec("t", true, ElicitFieldKind::String { format: None, min_length: Some(2), max_length: Some(3) });
    assert!(matches!(validate_field(&text, &ElicitFieldValue::Draft("ab"), &None), Ok(Some(FieldContent::Text(t))) if t == "ab"));
    assert!(validate_field(&text, &ElicitFieldValue::Draft("a"), &None).is_err());
    assert!(validate_field(&text, &ElicitFieldValue::Draft("abcd"), &None).is_err());
    assert!(validate_field(&text, &ElicitFieldValue::Draft(""), &None).is_err());
    let number = spec("n", false, ElicitFieldKind::Integer { minimum: Some(1), maximum: Some(9) });
    assert!(matches!(validate_field(&number, &ElicitFieldValue::Draft("7"), &None), Ok(Some(FieldContent::Integer(7)))));
    assert!(validate_field(&number, &ElicitFieldValue::Draft("0"), &None).is_err());
    assert!(validate_field(&number, &ElicitFieldValue::Draft("x"), &None).is_err());
    assert!(matches!(validate_field(&number, &ElicitFieldValue::Draft(""), &None), Ok(None)));
}

#[test]
fn numbers_are_judged_on_what_they_hold() {
    let kind = ElicitFieldKind::Number {
        minimum: Some(Real { nan: false, finite: true, rank: 10, text: "1.0".into() }),
        maximum: None,
    };
    let number = spec("n", true, kind);
    let real = |rank: i64, finite: bool| Some(Real { nan: false, finite, rank, text: "2.5".into() });
    assert!(matches!(validate_field(&number, &ElicitFieldValue::Draft("2.5"), &real(20, true)), Ok(Some(FieldContent::Number(t))) if t == "2.5"));
    assert!(validate_field(&number, &ElicitFieldValue::Draft("0.5"), &real(5, true)).is_err());
    assert!(validate_field(&number, &ElicitFieldValue::Draft("inf"), &real(99, false)).is_err());
    assert!(validate_field(&number, &ElicitFieldValue::Draft("x"), &None).is_err());
}

#[test]
fn choices_name_their_options() {
    let one = spec("c", true, ElicitFieldKind::SingleSelect { options: options() });
    assert!(matches!(validate_field(&one, &ElicitFieldValue::Choice(Some(1)), &None), Ok(Some(FieldContent::Text(t))) if t == "b"));
    assert!(validate_field(&one, &ElicitFieldValue::Choice(None), &None).is_err());
    let many = spec("m", true, ElicitFieldKind::MultiSelect { options: options(), min_items: Some(2), max_items: None });
    assert!(matches!(validate_field(&many, &ElicitFieldValue::MultiChoice(&[0, 1]), &None), Ok(Some(FieldContent::List(l))) if l == ["a", "b"]));
    assert!(validate_field(&many, &ElicitFieldValue::MultiChoice(&[0]), &None).is_err());
    let flag = spec("b", true, ElicitFieldKind::Boolean);
    assert!(matches!(validate_field(&flag, &ElicitFieldValue::Bool(false), &None), Ok(Some(FieldContent::Bool(false)))));
}

#[test]
fn forms_report_every_error() {
    let specs = vec![
        spec("flag", true, ElicitFieldKind::Boolean),
        spec("name", true, ElicitFieldKind::String { format: None, min_length: None, max_length: None }),
        spec("age", false, ElicitFieldKind::Integer { minimum: None, maximum: None }),
    ];
    let good = [ElicitFieldValue::Bool(true), ElicitFieldValue::Draft("n"), ElicitFieldValue::Draft("")];
    let content = validate_form(&specs, &good, &[None, None, None]).unwrap();
    assert_eq!(content.iter().map(|c| c.0.as_str()).collect::<Vec<_>>(), ["flag", "name"]);
    let bad = [ElicitFieldValue::Bool(true), ElicitFieldValue::Draft(""), ElicitFieldValue::Draft("x")];
    let errors = validate_form(&specs, &bad, &[None, None, None]).unwrap_err();
    assert_eq!(errors.iter().map(|e| e.field.as_str()).collect::<Vec<_>>(), ["name", "age"]);
}

#[test]
fn each_refusal_has_its_message() {
    let message = |spec: &ElicitFieldSpec, value: ElicitFieldValue<'_>| {
        validate_field(spec, &value, &None).unwrap_err()
    };
    let bounded = ElicitFieldKind::String {
        format: Some(ElicitTextFormat::Date),
        min_length: Some(2),
        max_length: Some(3),
    };
    let text = spec("t", true, bounded);
    assert_eq!(message(&text, ElicitFieldValue::Draft("")), "required");
    assert_eq!(message(&text, ElicitFieldValue::Draft("é")), "min length 2");
    assert_eq!(message(&text, ElicitFieldValue::Draft("abcd")), "max length 3");
    assert_eq!(message(&text, ElicitFieldValue::Draft("éé")), "use YYYY-MM-DD");
    assert_eq!(message(&text, ElicitFieldValue::Bool(true)), "invalid value");
    let number = spec("n", true, ElicitFieldKind::Integer { minimum: Some(-2), maximum: Some(9) });
    assert_eq!(message(&number, ElicitFieldValue::Draft(" ")), "required");
    assert_eq!(message(&number, ElicitFieldValue::Draft("-3")), "min -2");
    assert_eq!(message(&number, ElicitFieldValue::Draft("10")), "max 9");
    assert_eq!(message(&number, ElicitFieldValue::Draft("9223372036854775808")), "must be an integer");
    let many = ElicitFieldKind::MultiSelect {
        options: options(),
        min_items: Some(1),
        max_items: Some(1),
    };
    let many = spec("m", true, many);
    assert_eq!(message(&many, ElicitFieldValue::MultiChoice(&[7])), "select at least 1");
    assert_eq!(message(&many, ElicitFieldValue::MultiChoice(&[0, 1])), "select at most 1");
    let odd = spec("u", true, ElicitFieldKind::Unsupported);
    assert_eq!(message(&odd, ElicitFieldValue::Draft("x")), "unsupported field type");
    let odd = spec("u", false, ElicitFieldKind::Unsupported);
    assert!(matches!(validate_field(&odd, &ElicitFieldValue::Draft("x"), &None), Ok(None)));
}

#[test]
fn required_fields_are_submitted_even_where_empty() {
    let kind = || ElicitFieldKind::MultiSelect { options: options(), min_items: None, max_items: None };
    let none = ElicitFieldValue::MultiChoice(&[]);
    let required = spec("m", true, kind());
    assert!(matches!(validate_field(&required, &none, &None), Ok(Some(FieldContent::List(l))) if l.is_empty()));
    let optional = spec("m", false, kind());
    assert!(matches!(validate_field(&optional, &none, &None), Ok(None)));
    let content = validate_form(&[required], &[none], &[]).unwrap();
    assert_eq!(content[0].0, "m");
    let missing = spec("t", true, ElicitFieldKind::String { format: None, min_length: None, max_length: None });
    let errors = validate_form(&[missing], &[], &[]).unwrap_err();
    assert_eq!(errors[0].message, "required");
}

#[test]
fn missing_entries_are_empty() {
    let choice = |required: bool| {
        let kind = ElicitFieldKind::SingleSelect {
            options: vec![ElicitOption { value: "red".into() }, ElicitOption { value: "blue".into() }],
        };
        spec("color", required, kind)
    };
    assert!(validate_form(&[choice(false)], &[], &[]).unwrap().is_empty());
    let errors = validate_form(&[choice(true)], &[], &[]).unwrap_err();
    assert_eq!((errors[0].field.as_str(), errors[0].message.as_str()), ("color", "required"));
    let flag = |required: bool| spec("b", required, ElicitFieldKind::Boolean);
    assert!(validate_form(&[flag(false)], &[], &[]).unwrap().is_empty());
    assert_eq!(validate_form(&[flag(true)], &[], &[]).unwrap_err()[0].message, "required");
    let many = |required: bool, min_items: Option<u64>| {
        spec("m", required, ElicitFieldKind::MultiSelect { options: options(), min_items, max_items: None })
    };
    assert!(validate_form(&[many(false, None)], &[], &[]).unwrap().is_empty());
    let errors = validate_form(&[many(true, Some(1))], &[], &[]).unwrap_err();
    assert_eq!(errors[0].message, "select at least 1");
    let age = |required: bool| spec("n", required, ElicitFieldKind::Integer { minimum: None, maximum: None });
    assert!(validate_form(&[age(false)], &[], &[]).unwrap().is_empty());
    assert_eq!(validate_form(&[age(true)], &[], &[]).unwrap_err()[0].message, "required");
}
