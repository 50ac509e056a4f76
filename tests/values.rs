use lodestone_core::error::{Error, ErrorKind, ValueKind};
use lodestone_core::value::{ConfigurableValue, ConfigurableValueType};

fn int_type(min: Option<i32>, max: Option<i32>) -> ConfigurableValueType {
    ConfigurableValueType::Integer { min, max }
}

#[test]
fn mismatched_kinds_are_type_mismatches() {
    let types = vec![
        ConfigurableValueType::String { regex: None },
        int_type(None, None),
        ConfigurableValueType::UnsignedInteger { min: None, max: None },
        ConfigurableValueType::Float { min: None, max: None },
        ConfigurableValueType::Boolean,
        ConfigurableValueType::Enum { options: vec!["a".to_string()] },
    ];
    let values = vec![
        ConfigurableValue::String("a".to_string()),
        ConfigurableValue::Integer(1),
        ConfigurableValue::UnsignedInteger(1),
        ConfigurableValue::Float(1.5f32.to_bits()),
        ConfigurableValue::Boolean(true),
        ConfigurableValue::Enum("a".to_string()),
    ];
    for (i, t) in types.iter().enumerate() {
        for (j, v) in values.iter().enumerate() {
            let r = t.type_check(v);
            if i == j {
                assert!(r.is_ok());
            } else {
                match r {
                    Err(Error::TypeMismatch { expected, found }) => {
                        assert_eq!(expected, t.kind());
                        assert_eq!(found, v.kind());
                    }
                    other => panic!("expected a type mismatch, got {:?}", other),
                }
            }
        }
    }
}

#[test]
fn integer_bounds_are_inclusive() {
    let t = int_type(Some(-5), Some(10));
    assert!(t.type_check(&ConfigurableValue::Integer(-5)).is_ok());
    assert!(t.type_check(&ConfigurableValue::Integer(10)).is_ok());
    assert!(t.type_check(&ConfigurableValue::Integer(0)).is_ok());
    assert!(matches!(t.type_check(&ConfigurableValue::Integer(-6)), Err(Error::TooSmall)));
    assert!(matches!(t.type_check(&ConfigurableValue::Integer(11)), Err(Error::TooLarge)));
    assert!(int_type(None, None).type_check(&ConfigurableValue::Integer(i32::MIN)).is_ok());
}

#[test]
fn unsigned_bounds_one_side() {
    let t = ConfigurableValueType::UnsignedInteger { min: None, max: Some(65535) };
    assert!(t.type_check(&ConfigurableValue::UnsignedInteger(0)).is_ok());
    assert!(matches!(
        t.type_check(&ConfigurableValue::UnsignedInteger(65536)),
        Err(Error::TooLarge)
    ));
}

#[test]
fn float_bounds_follow_float_order() {
    let t = ConfigurableValueType::Float {
        min: Some((-1.0f32).to_bits()),
        max: Some(2.5f32.to_bits()),
    };
    let check = |x: f32| t.type_check(&ConfigurableValue::Float(x.to_bits()));
    assert!(check(-1.0).is_ok());
    assert!(check(0.0).is_ok());
    assert!(check(-0.0).is_ok());
    assert!(check(2.5).is_ok());
    assert!(matches!(check(-1.5), Err(Error::TooSmall)));
    assert!(matches!(check(3.0), Err(Error::TooLarge)));
    assert!(matches!(check(f32::NEG_INFINITY), Err(Error::TooSmall)));
    // NaN never meets a present bound.
    assert!(matches!(check(f32::NAN), Err(Error::TooSmall)));
    let max_only = ConfigurableValueType::Float { min: None, max: Some(1.0f32.to_bits()) };
    assert!(matches!(
        max_only.type_check(&ConfigurableValue::Float(0x7fc0_0000)),
        Err(Error::TooLarge)
    ));
    let unbounded = ConfigurableValueType::Float { min: None, max: None };
    assert!(unbounded.type_check(&ConfigurableValue::Float(f32::NAN.to_bits())).is_ok());
    let zero_min = ConfigurableValueType::Float { min: Some(0.0f32.to_bits()), max: None };
    assert!(zero_min.type_check(&ConfigurableValue::Float((-0.0f32).to_bits())).is_ok());
}

#[test]
fn enum_options_and_booleans() {
    let t = ConfigurableValueType::Enum { options: vec!["easy".to_string(), "hard".to_string()] };
    assert!(t.type_check(&ConfigurableValue::Enum("hard".to_string())).is_ok());
    assert!(matches!(
        t.type_check(&ConfigurableValue::Enum("normal".to_string())),
        Err(Error::NotAnOption)
    ));
    assert!(ConfigurableValueType::Boolean.type_check(&ConfigurableValue::Boolean(false)).is_ok());
}

#[test]
fn regex_patterns_are_checked() {
    let t = ConfigurableValueType::String { regex: Some("^[a-z]+$".to_string()) };
    assert!(t.type_check(&ConfigurableValue::String("abc".to_string())).is_ok());
    let bad = t.type_check(&ConfigurableValue::String("ABC".to_string())).unwrap_err();
    assert!(matches!(bad, Error::RegexMismatch));
    assert_eq!(bad.kind(), ErrorKind::BadRequest);
    let broken = ConfigurableValueType::String { regex: Some("([a-z".to_string()) };
    assert!(matches!(
        broken.type_check(&ConfigurableValue::String("abc".to_string())),
        Err(Error::InvalidRegex)
    ));
    // fancy-regex extensions such as backreferences are understood.
    let twice = ConfigurableValueType::String { regex: Some(r"^(\w+) \1$".to_string()) };
    assert!(twice.type_check(&ConfigurableValue::String("ab ab".to_string())).is_ok());
    assert!(twice.type_check(&ConfigurableValue::String("ab cd".to_string())).is_err());
}

#[test]
fn infer_type_is_unconstrained() {
    assert_eq!(
        ConfigurableValue::Integer(3).infer_type(),
        ConfigurableValueType::Integer { min: None, max: None }
    );
    assert_eq!(
        ConfigurableValue::String("x".to_string()).infer_type(),
        ConfigurableValueType::String { regex: None }
    );
    assert_eq!(
        ConfigurableValue::Enum("x".to_string()).infer_type(),
        ConfigurableValueType::Enum { options: vec![] }
    );
    assert_eq!(ConfigurableValue::Boolean(true).infer_type().to_string(), "boolean");
    assert_eq!(
        ConfigurableValue::UnsignedInteger(1).infer_type().to_string(),
        "unsigned integer"
    );
}

#[test]
fn try_as_accessors() {
    assert_eq!(ConfigurableValue::Integer(-4).try_as_integer().unwrap(), -4);
    assert_eq!(ConfigurableValue::UnsignedInteger(4).try_as_unsigned_integer().unwrap(), 4);
    assert_eq!(ConfigurableValue::Boolean(true).try_as_boolean().unwrap(), true);
    assert_eq!(
        f32::from_bits(ConfigurableValue::Float(0.25f32.to_bits()).try_as_float().unwrap()),
        0.25
    );
    assert_eq!(ConfigurableValue::Enum("e".to_string()).try_as_enum().unwrap(), "e");
    assert_eq!(ConfigurableValue::String("s".to_string()).try_as_string().unwrap(), "s");
    match ConfigurableValue::Boolean(true).try_as_integer() {
        Err(Error::TypeMismatch { expected, found }) => {
            assert_eq!(expected, ValueKind::Integer);
            assert_eq!(found, ValueKind::Boolean);
            assert_eq!(expected.name(), "integer");
            assert_eq!(found.name(), "boolean");
        }
        other => panic!("unexpected {:?}", other),
    }
    assert!(ConfigurableValue::Integer(1).try_as_string().is_err());
}

#[test]
fn value_text_forms() {
    assert_eq!(ConfigurableValue::Integer(-42).to_text().unwrap(), "-42");
    assert_eq!(ConfigurableValue::Integer(0).to_text().unwrap(), "0");
    assert_eq!(ConfigurableValue::Integer(i32::MIN).to_text().unwrap(), "-2147483648");
    assert_eq!(ConfigurableValue::UnsignedInteger(u32::MAX).to_text().unwrap(), "4294967295");
    assert_eq!(ConfigurableValue::UnsignedInteger(1000).to_text().unwrap(), "1000");
    assert_eq!(ConfigurableValue::UnsignedInteger(25565).to_text().unwrap(), "25565");
    assert_eq!(ConfigurableValue::Boolean(false).to_text().unwrap(), "false");
    assert_eq!(ConfigurableValue::String("a b".to_string()).to_text().unwrap(), "a b");
    assert!(ConfigurableValue::Float(1.0f32.to_bits()).to_text().is_none());
}

#[test]
fn error_kinds() {
    assert_eq!(Error::SettingExists.kind(), ErrorKind::AlreadyExists);
    assert_eq!(Error::SettingNotFound.kind(), ErrorKind::NotFound);
    assert_eq!(Error::SectionNotFound.kind(), ErrorKind::NotFound);
    assert_eq!(Error::MalformedConfig { detail: String::new() }.kind(), ErrorKind::Fatal);
    assert_eq!(Error::Io { detail: String::new() }.kind(), ErrorKind::IO);
    assert_eq!(Error::NotMutable.kind(), ErrorKind::BadRequest);
}
