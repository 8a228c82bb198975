use aspen::attributes::{
    field_int_type, option_name, resolve_kind, FieldType, KindTag, Literal, RawAttributes,
};
use aspen::integer::IntType;
use aspen::error::UciParseError;
use aspen::options::{
    resolve_setting, OptionValue, UciOptionDeclaration, UciOptionKind, UciOptions,
};

#[derive(Default)]
struct AllKinds {
    hash: i64,
    ponder: bool,
    style: String,
    syzygy_path: String,
    #[allow(dead_code)]
    clear_hash: (),
}

fn no_attributes() -> RawAttributes {
    RawAttributes { name: None, min: None, max: None, default: None, variants: None, kind: None }
}

fn declare(ident: &str, ty: FieldType, raw: RawAttributes) -> UciOptionDeclaration {
    let name = option_name(&raw, ident);
    let kind = resolve_kind(&ty, &raw).unwrap();
    UciOptionDeclaration { name: Box::leak(name.into_boxed_str()), kind }
}

impl UciOptions for AllKinds {
    fn declarations() -> Vec<UciOptionDeclaration> {
        vec![
            declare(
                "hash",
                FieldType::Path("i64".to_string()),
                RawAttributes {
                    name: Some("Hash".to_string()),
                    min: Some(1),
                    max: Some(1024),
                    default: Some(Literal::Int("16".to_string())),
                    ..no_attributes()
                },
            ),
            declare(
                "ponder",
                FieldType::Path("bool".to_string()),
                RawAttributes {
                    name: Some("Ponder".to_string()),
                    default: Some(Literal::Bool(true)),
                    ..no_attributes()
                },
            ),
            declare(
                "style",
                FieldType::Path("String".to_string()),
                RawAttributes {
                    name: Some("Style".to_string()),
                    default: Some(Literal::Str("Solid".to_string())),
                    variants: Some(vec!["Solid".to_string(), "Aggressive".to_string()]),
                    kind: Some(KindTag::Combo),
                    ..no_attributes()
                },
            ),
            declare(
                "syzygy_path",
                FieldType::Path("String".to_string()),
                RawAttributes { name: Some("SyzygyPath".to_string()), ..no_attributes() },
            ),
            declare(
                "clear_hash",
                FieldType::UnitTuple,
                RawAttributes {
                    name: Some("Clear Hash".to_string()),
                    kind: Some(KindTag::Button),
                    ..no_attributes()
                },
            ),
        ]
    }

    fn set(&mut self, name: &str, value: Option<&str>) -> Result<(), UciParseError> {
        let fields = vec![
            field_int_type(&FieldType::Path("i64".to_string())).unwrap_or(IntType::I64),
            IntType::I64,
            IntType::I64,
            IntType::I64,
            IntType::I64,
        ];
        let (index, value) = resolve_setting(&Self::declarations(), &fields, name, value)?;
        match (index, value) {
            (0, OptionValue::Spin(v)) => self.hash = v as i64,
            (1, OptionValue::Check(v)) => self.ponder = v,
            (2, OptionValue::Text(v)) => self.style = v,
            (3, OptionValue::Text(v)) => self.syzygy_path = v,
            _ => {}
        }
        Ok(())
    }
}

#[test]
fn declarations_and_set_cover_all_kinds() {
    let declarations = AllKinds::declarations();
    assert_eq!(declarations.len(), 5);

    let rendered: Vec<String> = declarations.iter().map(|line| line.to_string()).collect();
    assert!(rendered.iter().any(|line| {
        line == "option name Hash type spin default 16 min 1 max 1024"
    }));
    assert!(rendered.iter().any(|line| line == "option name Ponder type check default true"));
    assert!(rendered.iter().any(|line| {
        line == "option name Style type combo default Solid var Solid var Aggressive"
    }));
    assert!(rendered.iter().any(|line| line == "option name SyzygyPath type string default "));
    assert!(rendered.iter().any(|line| line == "option name Clear Hash type button"));
    assert!(matches!(
        declarations[0].kind,
        UciOptionKind::Spin { default: 16, min: 1, max: 1024 }
    ));

    let mut options = AllKinds::default();
    options.set("Hash", Some("256")).unwrap();
    assert_eq!(options.hash, 256);
    options.set("Ponder", Some("false")).unwrap();
    assert!(!options.ponder);
    options.set("Style", Some("Aggressive")).unwrap();
    assert_eq!(options.style, "Aggressive");
    options.set("SyzygyPath", Some("/tables")).unwrap();
    assert_eq!(options.syzygy_path, "/tables");
    options.set("Clear Hash", None).unwrap();
    assert!(options.set("Nonexistent", Some("x")).is_err());
}
