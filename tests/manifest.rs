use lodestone_core::error::{Error, ErrorKind};
use lodestone_core::manifest::{
    ConfigurableManifest, ManifestValue, SectionManifest, SectionManifestValue,
    SettingManifestValue,
};
use lodestone_core::setting::SettingManifest;
use lodestone_core::value::{ConfigurableValue, ConfigurableValueType};

fn text(s: &str) -> ConfigurableValue {
    ConfigurableValue::String(s.to_string())
}

fn setting(id: &str, value: Option<ConfigurableValue>, t: ConfigurableValueType, required: bool, mutable: bool) -> SettingManifest {
    SettingManifest {
        setting_id: id.to_string(),
        name: id.to_string(),
        description: String::new(),
        value,
        value_type: t,
        default_value: None,
        is_secret: false,
        is_required: required,
        is_mutable: mutable,
    }
}

fn lower_case_setting() -> SettingManifest {
    SettingManifest::new_value_with_type(
        "motd".to_string(),
        "Message".to_string(),
        "Shown to players".to_string(),
        Some(text("hello")),
        ConfigurableValueType::String { regex: Some("^[a-z]+$".to_string()) },
        None,
        false,
        true,
    )
    .unwrap()
}

#[test]
fn immutable_setting_never_changes() {
    let mut s = setting("port", Some(ConfigurableValue::UnsignedInteger(1)), ConfigurableValueType::UnsignedInteger { min: None, max: None }, true, false);
    assert!(matches!(s.set_value(ConfigurableValue::UnsignedInteger(2)), Err(Error::NotMutable)));
    assert!(matches!(s.set_optional_value(None), Err(Error::NotMutable)));
    assert!(matches!(s.set_optional_value(Some(ConfigurableValue::UnsignedInteger(3))), Err(Error::NotMutable)));
    assert_eq!(s.value, Some(ConfigurableValue::UnsignedInteger(1)));
}

#[test]
fn required_setting_rejects_none() {
    let mut s = setting("name", Some(text("a")), ConfigurableValueType::String { regex: None }, true, true);
    let e = s.set_optional_value(None).unwrap_err();
    assert!(matches!(e, Error::RequiredValueMissing));
    assert_eq!(e.kind(), ErrorKind::BadRequest);
    assert_eq!(s.value, Some(text("a")));
    let mut o = setting("desc", Some(text("a")), ConfigurableValueType::String { regex: None }, false, true);
    assert!(o.set_optional_value(None).is_ok());
    assert_eq!(o.value, None);
}

#[test]
fn optional_value_is_type_checked() {
    let mut s = setting("n", None, ConfigurableValueType::Integer { min: Some(0), max: None }, false, true);
    assert!(matches!(s.set_optional_value(Some(ConfigurableValue::Integer(-1))), Err(Error::TooSmall)));
    assert_eq!(s.value, None);
    assert!(s.set_optional_value(Some(ConfigurableValue::Integer(7))).is_ok());
    assert_eq!(s.get_value(), Some(&ConfigurableValue::Integer(7)));
}

#[test]
fn failed_set_keeps_value() {
    let mut s = lower_case_setting();
    assert!(matches!(s.set_value(text("UPPER")), Err(Error::RegexMismatch)));
    assert_eq!(s.value, Some(text("hello")));
    assert!(s.set_value(text("bye")).is_ok());
    assert_eq!(s.value, Some(text("bye")));
}

#[test]
fn constructors() {
    let r = SettingManifest::new_required_value("a".to_string(), "A".to_string(), "d".to_string(), ConfigurableValue::Integer(3), None, true, false);
    assert!(r.is_required && r.is_secret && !r.is_mutable);
    assert_eq!(r.value_type, ConfigurableValueType::Integer { min: None, max: None });
    assert_eq!(r.get_identifier(), "a");
    let o = SettingManifest::new_optional_value("b".to_string(), "B".to_string(), "d".to_string(), None, ConfigurableValueType::Boolean, None, false, true);
    assert!(!o.is_required);
    let typed = SettingManifest::new_value_with_type("p".to_string(), "P".to_string(), "d".to_string(), Some(ConfigurableValue::UnsignedInteger(70000)), ConfigurableValueType::UnsignedInteger { min: Some(0), max: Some(65535) }, None, false, true);
    assert!(matches!(typed, Err(Error::TooLarge)));
    let none = SettingManifest::new_value_with_type("p".to_string(), "P".to_string(), "d".to_string(), None, ConfigurableValueType::Boolean, None, false, true).unwrap();
    assert!(!none.is_required);
}

#[test]
fn validate_setting_has_no_effect() {
    let s = lower_case_setting();
    assert!(s.validate_setting(&Some(text("abc"))).is_ok());
    assert!(matches!(s.validate_setting(&Some(text("A"))), Err(Error::RegexMismatch)));
    assert!(matches!(s.validate_setting(&None), Err(Error::RequiredValueMissing)));
    assert_eq!(s.value, Some(text("hello")));
}

#[test]
fn validation_predicts_the_commit() {
    let mut s = setting("frozen", Some(text("a")), ConfigurableValueType::String { regex: None }, false, false);
    assert!(matches!(s.validate_setting(&None), Err(Error::NotMutable)));
    assert!(matches!(s.set_optional_value(None), Err(Error::NotMutable)));
    let sec = SectionManifest::new("g".to_string(), "G".to_string(), "d".to_string(), vec![s]);
    let m = ConfigurableManifest::new(false, false, false, false, vec![sec]);
    let clear = candidate(vec![("g", vec![("frozen", None)])]);
    assert!(matches!(m.validate_manifest(&clear), Err(Error::NotMutable)));
}

#[test]
fn add_and_set_are_asymmetric() {
    let mut sec = SectionManifest::new("s".to_string(), "S".to_string(), "d".to_string(), vec![]);
    let a = setting("a", None, ConfigurableValueType::Boolean, false, true);
    assert!(matches!(sec.set_setting(setting("a", None, ConfigurableValueType::Boolean, false, true)), Err(Error::SettingNotFound)));
    assert_eq!(sec.all_settings().len(), 0);
    assert!(sec.add_setting(a).is_ok());
    let dup = sec.add_setting(setting("a", Some(ConfigurableValue::Boolean(true)), ConfigurableValueType::Boolean, false, true)).unwrap_err();
    assert!(matches!(dup, Error::SettingExists));
    assert_eq!(dup.kind(), ErrorKind::AlreadyExists);
    assert_eq!(sec.get_setting("a").unwrap().value, None);
    assert!(sec.set_setting(setting("a", Some(ConfigurableValue::Boolean(true)), ConfigurableValueType::Boolean, false, true)).is_ok());
    assert_eq!(sec.get_setting("a").unwrap().value, Some(ConfigurableValue::Boolean(true)));
    assert!(sec.get_setting("b").is_none());
}

#[test]
fn section_keeps_insertion_order() {
    let mut sec = SectionManifest::new(
        "s".to_string(),
        "S".to_string(),
        "d".to_string(),
        vec![
            setting("zeta", None, ConfigurableValueType::Boolean, false, true),
            setting("alpha", None, ConfigurableValueType::Boolean, false, true),
            setting("zeta", Some(ConfigurableValue::Boolean(true)), ConfigurableValueType::Boolean, false, true),
        ],
    );
    sec.insert_setting(setting("mid", None, ConfigurableValueType::Boolean, false, true));
    let ids: Vec<&str> = sec.all_settings().iter().map(|s| s.setting_id.as_str()).collect();
    assert_eq!(ids, vec!["zeta", "alpha", "mid"]);
    assert_eq!(sec.get_setting("zeta").unwrap().value, Some(ConfigurableValue::Boolean(true)));
    assert_eq!(sec.section_id(), "s");
    assert_eq!(sec.name(), "S");
    assert_eq!(sec.description(), "d");
}

#[test]
fn update_setting_goes_through_set_value() {
    let mut sec = SectionManifest::new("s".to_string(), "S".to_string(), "d".to_string(), vec![lower_case_setting()]);
    assert!(matches!(sec.update_setting("none", text("x")), Err(Error::SettingNotFound)));
    assert!(matches!(sec.update_setting("motd", text("X")), Err(Error::RegexMismatch)));
    assert!(sec.update_setting("motd", text("x")).is_ok());
    assert_eq!(sec.get_setting("motd").unwrap().value, Some(text("x")));
}

fn sample_manifest() -> ConfigurableManifest {
    let sec = SectionManifest::new("general".to_string(), "General".to_string(), "d".to_string(), vec![
        lower_case_setting(),
        setting("port", Some(ConfigurableValue::UnsignedInteger(1)), ConfigurableValueType::UnsignedInteger { min: Some(1), max: Some(65535) }, true, true),
    ]);
    ConfigurableManifest::new(true, false, true, false, vec![sec])
}

#[test]
fn end_to_end_string_setting() {
    let mut m = sample_manifest();
    assert!(m.update_setting_value("general", "motd", text("abc")).is_ok());
    let upper = m.update_setting_value("general", "motd", text("ABC")).unwrap_err();
    assert_eq!(upper.kind(), ErrorKind::BadRequest);
    assert!(matches!(upper, Error::RegexMismatch));
    let wrong = m.update_setting_value("general", "motd", ConfigurableValue::Integer(42)).unwrap_err();
    assert!(matches!(wrong, Error::TypeMismatch { .. }));
    assert_eq!(m.get_setting("general", "motd").unwrap().value, Some(text("abc")));
}

#[test]
fn manifest_lookups_and_updates() {
    let mut m = sample_manifest();
    assert!(m.auto_start() && !m.restart_on_crash() && m.start_on_connection() && !m.timeout_last_left());
    assert!(m.get_section("general").is_some());
    assert!(m.get_section("other").is_none());
    assert!(m.get_setting("other", "motd").is_none());
    assert!(m.get_setting("general", "other").is_none());
    assert_eq!(m.get_all_sections().len(), 1);
    assert!(matches!(m.set_setting_value("other", "motd", None), Err(Error::SectionNotFound)));
    assert!(matches!(m.set_setting_value("general", "port", None), Err(Error::RequiredValueMissing)));
    assert!(m.set_setting_value("general", "port", Some(ConfigurableValue::UnsignedInteger(80))).is_ok());
    assert_eq!(m.set_setting_mut("general", "port", false), Some(true));
    assert_eq!(m.set_setting_mut("general", "nothing", false), None);
    assert!(matches!(m.update_setting_value("general", "port", ConfigurableValue::UnsignedInteger(81)), Err(Error::NotMutable)));
    assert_eq!(m.get_setting("general", "port").unwrap().value, Some(ConfigurableValue::UnsignedInteger(80)));
    assert!(m.set_setting("general", "port", setting("port", None, ConfigurableValueType::Boolean, false, true)).is_ok());
    assert!(matches!(m.set_setting("general", "new", setting("new", None, ConfigurableValueType::Boolean, false, true)), Err(Error::SettingNotFound)));
    assert!(m.insert_setting("general", setting("new", None, ConfigurableValueType::Boolean, false, true)).is_ok());
    assert!(m.get_setting("general", "new").is_some());
}

fn candidate(entries: Vec<(&str, Vec<(&str, Option<ConfigurableValue>)>)>) -> ManifestValue {
    ManifestValue {
        setting_sections: entries
            .into_iter()
            .map(|(sec, settings)| {
                (
                    sec.to_string(),
                    SectionManifestValue {
                        settings: settings
                            .into_iter()
                            .map(|(id, value)| (id.to_string(), SettingManifestValue { value }))
                            .collect(),
                    },
                )
            })
            .collect(),
    }
}

#[test]
fn validate_manifest_is_all_or_nothing() {
    let m = sample_manifest();
    let good = candidate(vec![("general", vec![("motd", Some(text("ok"))), ("port", Some(ConfigurableValue::UnsignedInteger(2)))])]);
    assert!(m.validate_manifest(&good).is_ok());
    let bad_value = candidate(vec![("general", vec![("motd", Some(text("ok"))), ("port", Some(ConfigurableValue::UnsignedInteger(0)))])]);
    assert!(matches!(m.validate_manifest(&bad_value), Err(Error::TooSmall)));
    let missing_setting = candidate(vec![("general", vec![("nope", None), ("port", Some(ConfigurableValue::UnsignedInteger(0)))])]);
    assert!(matches!(m.validate_manifest(&missing_setting), Err(Error::SettingNotFound)));
    let missing_section = candidate(vec![("nowhere", vec![])]);
    assert!(matches!(m.validate_manifest(&missing_section), Err(Error::SectionNotFound)));
    let required = candidate(vec![("general", vec![("port", None)])]);
    assert!(matches!(m.validate_manifest(&required), Err(Error::RequiredValueMissing)));
    assert!(m.validate_manifest(&candidate(vec![])).is_ok());
    let sec = m.get_section("general").unwrap();
    let section_value = SectionManifestValue { settings: vec![("motd".to_string(), SettingManifestValue { value: Some(text("Z")) })] };
    assert!(matches!(sec.validate_section(&section_value), Err(Error::RegexMismatch)));
}
