use aspen::attributes::{
    capitalize, default_bool, default_int, default_string, infer_from_path, infer_kind,
    option_name, pascal_case, require_int, require_variants, resolve_kind, string_literal,
    field_int_type, AttributeError, FieldType, KindTag, Literal, RawAttributes,
};
use aspen::error::UciParseError;
use aspen::integer::{parse_typed, IntErrorKind, IntType};
use aspen::options::{
    option_value, resolve_setting, write_combo, write_kind, OptionValue, UciOptionDeclaration,
    UciOptionKind,
};

fn raw() -> RawAttributes {
    RawAttributes { name: None, min: None, max: None, default: None, variants: None, kind: None }
}

fn decls() -> Vec<UciOptionDeclaration> {
    vec![
        UciOptionDeclaration { name: "Hash", kind: UciOptionKind::Spin { default: 16, min: 1, max: 1024 } },
        UciOptionDeclaration { name: "Ponder", kind: UciOptionKind::Check { default: false } },
        UciOptionDeclaration { name: "Hash", kind: UciOptionKind::String { default: String::new() } },
        UciOptionDeclaration { name: "Clear Hash", kind: UciOptionKind::Button },
    ]
}

fn fields() -> Vec<IntType> {
    vec![IntType::I64, IntType::I64, IntType::I64, IntType::I64]
}

#[test]
fn capitalizes_and_pascal_cases() {
    assert_eq!(capitalize("hash"), "Hash");
    assert_eq!(capitalize(""), "");
    assert_eq!(capitalize("ßx"), "SSx");
    assert_eq!(pascal_case("syzygy_path"), "SyzygyPath");
    assert_eq!(pascal_case("__clear__hash_"), "ClearHash");
    assert_eq!(pascal_case(""), "");
    assert_eq!(option_name(&raw(), "move_overhead"), "MoveOverhead");
    assert_eq!(option_name(&RawAttributes { name: Some("Threads".to_string()), ..raw() }, "x"), "Threads");
}

#[test]
fn infers_kind_from_type() {
    assert_eq!(infer_from_path("bool"), Some(KindTag::Check));
    assert_eq!(infer_from_path("String"), Some(KindTag::StringOption));
    assert_eq!(infer_from_path("usize"), Some(KindTag::Spin));
    assert_eq!(infer_from_path("f64"), None);
    assert_eq!(infer_kind(&FieldType::UnitTuple), Some(KindTag::Button));
    assert_eq!(infer_kind(&FieldType::Other), None);
}

#[test]
fn resolves_attribute_errors() {
    assert!(matches!(resolve_kind(&FieldType::Other, &raw()), Err(AttributeError::CannotInferKind)));
    let spin = FieldType::Path("i32".to_string());
    assert!(matches!(resolve_kind(&spin, &raw()), Err(AttributeError::SpinRequiresDefault)));
    let with_default = RawAttributes { default: Some(Literal::Int("-5".to_string())), ..raw() };
    assert!(matches!(resolve_kind(&spin, &with_default), Err(AttributeError::SpinRequires("min"))));
    let with_min = RawAttributes { min: Some(-10), ..with_default.clone() };
    assert!(matches!(resolve_kind(&spin, &with_min), Err(AttributeError::SpinRequires("max"))));
    let full = RawAttributes { max: Some(10), ..with_min };
    assert!(matches!(
        resolve_kind(&spin, &full),
        Ok(UciOptionKind::Spin { default: -5, min: -10, max: 10 })
    ));
    let bad_int = RawAttributes { default: Some(Literal::Int("99999999999999999999".to_string())), ..raw() };
    assert!(matches!(
        default_int(&bad_int),
        Err(AttributeError::InvalidInteger(IntErrorKind::PosOverflow))
    ));
    let combo = RawAttributes { kind: Some(KindTag::Combo), ..raw() };
    assert!(matches!(resolve_kind(&spin, &combo), Err(AttributeError::ComboRequiresDefault)));
    let combo = RawAttributes { default: Some(Literal::Str("A".to_string())), ..combo };
    assert!(matches!(resolve_kind(&spin, &combo), Err(AttributeError::ComboRequiresVariants)));
    let text = FieldType::Path("String".to_string());
    let wrong = RawAttributes { default: Some(Literal::Bool(true)), ..raw() };
    assert!(matches!(resolve_kind(&text, &wrong), Err(AttributeError::ExpectedStringLiteral)));
    assert!(matches!(resolve_kind(&text, &raw()), Ok(UciOptionKind::String { default }) if default.is_empty()));
    assert!(matches!(
        resolve_kind(&FieldType::Path("bool".to_string()), &raw()),
        Ok(UciOptionKind::Check { default: false })
    ));
}

#[test]
fn attribute_helpers() {
    assert!(default_bool(&RawAttributes { default: Some(Literal::Bool(true)), ..raw() }));
    assert!(!default_bool(&RawAttributes { default: Some(Literal::Other), ..raw() }));
    assert_eq!(default_string(&RawAttributes { default: Some(Literal::Str("s".to_string())), ..raw() }).unwrap(), "s");
    assert!(string_literal(&Literal::Other).is_err());
    assert!(matches!(require_int(None, "max"), Err(AttributeError::SpinRequires("max"))));
    assert_eq!(require_int(Some(3), "max").unwrap(), 3);
    let vs = RawAttributes { variants: Some(vec!["a".to_string(), "b".to_string()]), ..raw() };
    assert_eq!(require_variants(&vs).unwrap(), vec!["a".to_string(), "b".to_string()]);
    assert!(matches!(require_variants(&raw()), Err(AttributeError::ComboRequiresVariants)));
}

#[test]
fn reads_option_values() {
    let spin = UciOptionKind::Spin { default: 1, min: 0, max: 9 };
    assert!(matches!(option_value("Hash", &spin, IntType::I64, Some("-3")), Ok(OptionValue::Spin(-3))));
    assert!(matches!(
        option_value("Hash", &spin, IntType::I64, Some("big")),
        Err(UciParseError::InvalidInteger { field: "Hash", source: IntErrorKind::InvalidDigit })
    ));
    assert!(matches!(option_value("Hash", &spin, IntType::I64, None), Err(UciParseError::MissingArgument("value"))));
    let check = UciOptionKind::Check { default: true };
    assert!(matches!(option_value("P", &check, IntType::I64, Some("true")), Ok(OptionValue::Check(true))));
    assert!(matches!(option_value("P", &check, IntType::I64, Some("TRUE")), Ok(OptionValue::Check(false))));
    assert!(matches!(option_value("B", &UciOptionKind::Button, IntType::I64, Some("x")), Ok(OptionValue::Button)));
    let text = UciOptionKind::String { default: String::new() };
    assert!(matches!(option_value("T", &text, IntType::I64, Some("a b")), Ok(OptionValue::Text(t)) if t == "a b"));
}

#[test]
fn resolves_settings_by_first_declaration() {
    let decls = decls();
    assert!(matches!(resolve_setting(&decls, &fields(), "Hash", Some("64")), Ok((0, OptionValue::Spin(64)))));
    assert!(matches!(resolve_setting(&decls, &fields(), "Ponder", Some("true")), Ok((1, OptionValue::Check(true)))));
    assert!(matches!(resolve_setting(&decls, &fields(), "Clear Hash", None), Ok((3, OptionValue::Button))));
    assert!(matches!(
        resolve_setting(&decls, &fields(), "hash", Some("64")),
        Err(UciParseError::UnknownOption(name)) if name == "hash"
    ));
}

#[test]
fn writes_option_kinds() {
    let mut out = String::new();
    write_kind(&UciOptionKind::Spin { default: -1, min: -5, max: 5 }, &mut out);
    assert_eq!(out, "spin default -1 min -5 max 5");
    let mut out = String::from(">");
    write_combo("A", &["A".to_string(), "B".to_string()], &mut out);
    assert_eq!(out, ">combo default A var A var B");
    let mut out = String::new();
    write_kind(&UciOptionKind::Combo { default: "X".to_string(), variants: vec![] }, &mut out);
    assert_eq!(out, "combo default X");
    let mut out = String::new();
    write_kind(&UciOptionKind::Check { default: false }, &mut out);
    assert_eq!(out, "check default false");
}

#[test]
fn announced_default_sets_back() {
    let decls = decls();
    let line = decls[0].to_string();
    assert_eq!(line, "option name Hash type spin default 16 min 1 max 1024");
    let default_text = line.split(" ").nth(6).unwrap();
    assert!(matches!(resolve_setting(&decls, &fields(), "Hash", Some(default_text)), Ok((0, OptionValue::Spin(16)))));
    let mut negative = String::new();
    aspen::format::push_decimal(&mut negative, i64::MIN);
    let spin = UciOptionKind::Spin { default: 0, min: i64::MIN, max: 0 };
    assert!(matches!(option_value("X", &spin, IntType::I64, Some(&negative)), Ok(OptionValue::Spin(v)) if v == i64::MIN as i128));
}

#[test]
fn spin_values_follow_the_field_type() {
    let spin = UciOptionKind::Spin { default: 1, min: 0, max: 255 };
    assert!(matches!(option_value("Level", &spin, IntType::U8, Some("255")), Ok(OptionValue::Spin(255))));
    assert!(matches!(
        option_value("Level", &spin, IntType::U8, Some("300")),
        Err(UciParseError::InvalidInteger { field: "Level", source: IntErrorKind::PosOverflow })
    ));
    assert!(matches!(
        option_value("Level", &spin, IntType::U8, Some("-1")),
        Err(UciParseError::InvalidInteger { field: "Level", source: IntErrorKind::InvalidDigit })
    ));
    assert!(matches!(
        option_value("Level", &spin, IntType::I8, Some("-129")),
        Err(UciParseError::InvalidInteger { field: "Level", source: IntErrorKind::NegOverflow })
    ));
    assert!(matches!(option_value("Level", &spin, IntType::I8, Some("-128")), Ok(OptionValue::Spin(-128))));
    let big = u64::MAX.to_string();
    assert!(matches!(option_value("Level", &spin, IntType::U64, Some(&big)), Ok(OptionValue::Spin(v)) if v == u64::MAX as i128));
    assert!(matches!(
        option_value("Level", &spin, IntType::I64, Some(&big)),
        Err(UciParseError::InvalidInteger { source: IntErrorKind::PosOverflow, .. })
    ));
    let decls = vec![UciOptionDeclaration { name: "Level", kind: spin }];
    assert!(matches!(
        resolve_setting(&decls, &vec![IntType::U8], "Level", Some("256")),
        Err(UciParseError::InvalidInteger { source: IntErrorKind::PosOverflow, .. })
    ));
}

#[test]
fn parses_typed_integers_as_std_does() {
    let cases = ["0", "+7", "-7", "", "-", "+", "127", "128", "-128", "-129", "255", "256", "1a", "-0", "65535", "65536"];
    for text in cases {
        assert_eq!(parse_typed(text, IntType::I8).ok(), text.parse::<i8>().ok().map(i128::from), "{text}");
        assert_eq!(parse_typed(text, IntType::U8).ok(), text.parse::<u8>().ok().map(i128::from), "{text}");
        assert_eq!(parse_typed(text, IntType::U16).ok(), text.parse::<u16>().ok().map(i128::from), "{text}");
        assert_eq!(parse_typed(text, IntType::Isize).ok(), text.parse::<isize>().ok().map(|v| v as i128), "{text}");
        assert_eq!(parse_typed(text, IntType::Usize).ok(), text.parse::<usize>().ok().map(|v| v as i128), "{text}");
    }
    assert_eq!(parse_typed("300", IntType::U8), Err(IntErrorKind::PosOverflow));
    assert_eq!(parse_typed("-1", IntType::U8), Err(IntErrorKind::InvalidDigit));
    assert_eq!(parse_typed("", IntType::U8), Err(IntErrorKind::Empty));
    assert_eq!(parse_typed("-40000", IntType::I16), Err(IntErrorKind::NegOverflow));
}

#[test]
fn finds_field_integer_types() {
    assert_eq!(field_int_type(&FieldType::Path("u8".to_string())), Some(IntType::U8));
    assert_eq!(field_int_type(&FieldType::Path("i64".to_string())), Some(IntType::I64));
    assert_eq!(field_int_type(&FieldType::Path("usize".to_string())), Some(IntType::Usize));
    assert_eq!(field_int_type(&FieldType::Path("bool".to_string())), None);
    assert_eq!(field_int_type(&FieldType::UnitTuple), None);
}
