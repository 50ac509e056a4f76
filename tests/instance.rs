use lodestone_core::backup::{BackupInstruction, State};
use lodestone_core::bedrock::{
    next_lifecycle, properties_section, setup_progress, SetupStep, InstanceSetting, LifecycleAction, LifecycleEvent,
    MinecraftBedrockInstance, RestoreConfig, SetupConfig,
};
use lodestone_core::error::{Error, ErrorKind, ValueKind};
use lodestone_core::events::{Event, EventInner, InstanceEvent, InstanceEventInner, UserEvent, UserEventInner};
use lodestone_core::files::{is_extension_protected, is_file_protected, FileType};
use lodestone_core::minecraft::{eula_contents, Config, Flavour, Instance};
use lodestone_core::properties::{initial_properties_text, parse_line, parse_properties};
use lodestone_core::manifest::{ManifestValue, SectionManifestValue, SettingManifestValue};
use lodestone_core::value::ConfigurableValue;

fn restore_config() -> RestoreConfig {
    RestoreConfig {
        name: "srv".to_string(),
        version: "1.20".to_string(),
        description: String::new(),
        port: 19132,
        auto_start: false,
        restart_on_crash: true,
        backup_period: Some(60),
        has_started: false,
    }
}

fn restored(properties: &str) -> MinecraftBedrockInstance {
    MinecraftBedrockInstance::restore(
        "/srv/instances/a".to_string(),
        "uuid-1".to_string(),
        7,
        Ok(restore_config()),
        properties,
    )
    .unwrap()
}

#[test]
fn restore_with_corrupted_config_is_fatal() {
    let r = MinecraftBedrockInstance::restore(
        "/srv/instances/a".to_string(),
        "uuid-1".to_string(),
        7,
        Err("expected value at line 1 column 1".to_string()),
        "server-port=1",
    );
    match r {
        Err(e) => {
            assert_eq!(e.kind(), ErrorKind::Fatal);
            match e {
                Error::MalformedConfig { detail } => assert!(detail.contains("line 1")),
                other => panic!("unexpected {:?}", other),
            }
        }
        Ok(_) => panic!("a corrupted config must not restore"),
    }
}

#[test]
fn restore_loads_properties() {
    let i = restored("# comment\nserver-port=19132\nlevel-name=Bedrock level\nbroken line\ngamemode=survival\n");
    assert_eq!(i.state(), State::Stopped);
    assert_eq!(i.config(), &restore_config());
    assert_eq!(i.uuid(), "uuid-1");
    assert_eq!(i.creation_time(), 7);
    assert_eq!(i.path_to_properties(), "/srv/instances/a/server.properties");
    assert_eq!(i.path_to_config(), "/srv/instances/a/.lodestone_minecraft_config.json");
    assert_eq!(i.path_to_worlds(), "/srv/instances/a/worlds");
    let m = i.configurable_manifest();
    let level = m.get_setting("server_properties", "level-name").unwrap();
    assert_eq!(level.value, Some(ConfigurableValue::String("Bedrock level".to_string())));
    assert!(m.get_setting("server_properties", "broken line").is_none());
    assert_eq!(
        i.properties_text().unwrap(),
        "server-port=19132\nlevel-name=Bedrock level\ngamemode=survival\n"
    );
}

#[test]
fn properties_round_trip_through_manifest() {
    let mut i = restored("server-port=1\nmotd=hi\n");
    assert!(i.set_field("server_properties", "motd", Some(ConfigurableValue::String("a=b".to_string()))).is_ok());
    assert!(matches!(i.set_field("nowhere", "motd", None), Err(Error::SectionNotFound)));
    let text = i.properties_text().unwrap();
    assert_eq!(text, "server-port=1\nmotd=a=b\n");
    let again = parse_properties(&text);
    assert_eq!(again[1], ("motd".to_string(), "a=b".to_string()));
}

#[test]
fn parse_splits_on_first_equals() {
    assert_eq!(parse_line("a=b=c"), Some(("a".to_string(), "b=c".to_string())));
    assert_eq!(parse_line("key="), Some(("key".to_string(), String::new())));
    assert_eq!(parse_line("#a=b"), Some(("#a".to_string(), "b".to_string())));
    assert_eq!(parse_line("no equals"), None);
    assert_eq!(parse_properties(""), vec![]);
    assert_eq!(parse_properties("x=1"), vec![("x".to_string(), "1".to_string())]);
    assert_eq!(initial_properties_text(25565), "server-port=25565");
}

#[test]
fn lifecycle_transitions() {
    let t = next_lifecycle(State::Stopped, LifecycleEvent::StartRequested, false).unwrap();
    assert_eq!(t.next, State::Starting);
    assert_eq!(t.action, LifecycleAction::SpawnProcess);
    assert!(matches!(t.events[..], [InstanceEventInner::InstanceStarting]));
    let crash = next_lifecycle(State::Running, LifecycleEvent::ProcessExited, false).unwrap();
    assert_eq!(crash.next, State::Stopped);
    assert!(matches!(crash.events[..], [InstanceEventInner::InstanceError, InstanceEventInner::InstanceStopped]));
    let restart = next_lifecycle(State::Running, LifecycleEvent::ProcessExited, true).unwrap();
    assert_eq!(restart.next, State::Starting);
    assert_eq!(restart.action, LifecycleAction::SpawnProcess);
    let stop = next_lifecycle(State::Running, LifecycleEvent::StopRequested, true).unwrap();
    assert_eq!(stop.action, LifecycleAction::SendStop);
    let done = next_lifecycle(State::Stopping, LifecycleEvent::ProcessExited, true).unwrap();
    assert_eq!(done.next, State::Stopped);
    assert!(matches!(done.events[..], [InstanceEventInner::InstanceStopped]));
    assert!(matches!(next_lifecycle(State::Running, LifecycleEvent::StartRequested, false), Err(Error::InvalidState)));
}

#[test]
fn instance_follows_lifecycle() {
    let mut i = restored("");
    assert!(i.handle_lifecycle_event(LifecycleEvent::StartRequested).is_ok());
    assert_eq!(i.state(), State::Starting);
    assert!(i.handle_lifecycle_event(LifecycleEvent::ProcessStarted).is_ok());
    assert_eq!(i.state(), State::Running);
    assert!(i.config().has_started);
    assert!(i.handle_lifecycle_event(LifecycleEvent::StartRequested).is_err());
    assert_eq!(i.state(), State::Running);
    // restart_on_crash is set in this configuration
    let t = i.handle_lifecycle_event(LifecycleEvent::ProcessExited).unwrap();
    assert_eq!(t.next, State::Starting);
    assert_eq!(i.state(), State::Starting);
}

#[test]
fn well_known_settings() {
    let mut i = restored("");
    assert_eq!(
        i.set_instance_setting(InstanceSetting::BackupPeriod, Some(ConfigurableValue::UnsignedInteger(5))).unwrap(),
        Some(BackupInstruction::SetPeriod(Some(5)))
    );
    assert_eq!(i.config().backup_period, Some(5));
    assert_eq!(
        i.set_instance_setting(InstanceSetting::BackupPeriod, None).unwrap(),
        Some(BackupInstruction::SetPeriod(None))
    );
    assert_eq!(i.set_instance_setting(InstanceSetting::Port, Some(ConfigurableValue::UnsignedInteger(2000))).unwrap(), None);
    assert_eq!(i.config().port, 2000);
    assert!(i.set_instance_setting(InstanceSetting::Name, Some(ConfigurableValue::String("new".to_string()))).is_ok());
    assert_eq!(i.config().name, "new");
    match i.set_instance_setting(InstanceSetting::AutoStart, Some(ConfigurableValue::Integer(1))) {
        Err(Error::TypeMismatch { expected, found }) => {
            assert_eq!(expected, ValueKind::Boolean);
            assert_eq!(found, ValueKind::Integer);
        }
        other => panic!("unexpected {:?}", other),
    }
    assert!(!i.config().auto_start);
    assert!(matches!(i.set_instance_setting(InstanceSetting::Uuid, None), Err(Error::UnsupportedSetting)));
    assert!(matches!(i.set_instance_setting(InstanceSetting::Name, None), Err(Error::RequiredValueMissing)));
}

#[test]
fn setup_config_resolution() {
    let mut setup = SetupConfig {
        name: "n".to_string(),
        version: "latest".to_string(),
        version_url: None,
        port: 19132,
        description: None,
        auto_start: Some(true),
        restart_on_crash: None,
        backup_period: Some(3),
    };
    assert!(setup.wants_latest_version());
    assert_eq!(setup.download_url(Some("https://latest".to_string())).unwrap(), "https://latest");
    assert!(matches!(setup.download_url(None), Err(Error::MissingDownloadUrl)));
    setup.version = "1.19".to_string();
    setup.version_url = Some("https://v119".to_string());
    assert_eq!(setup.download_url(Some("https://latest".to_string())).unwrap(), "https://v119");
    let c = RestoreConfig::from_setup(setup);
    assert_eq!(c.description, "");
    assert!(c.auto_start && !c.restart_on_crash && !c.has_started);
    assert_eq!(c.backup_period, Some(3));
}

#[test]
fn duplicate_property_keys_keep_the_last() {
    let sec = properties_section(vec![
        ("a".to_string(), "1".to_string()),
        ("b".to_string(), "2".to_string()),
        ("a".to_string(), "3".to_string()),
    ]);
    assert_eq!(sec.all_settings().len(), 2);
    assert_eq!(sec.get_setting("a").unwrap().value, Some(ConfigurableValue::String("3".to_string())));
}

#[test]
fn protected_files() {
    assert!(is_file_protected("/srv/a/server.jar"));
    assert!(is_file_protected("run.sh"));
    assert!(is_file_protected("Makefile"));
    assert!(is_file_protected("/srv/a/.lodestone_config"));
    assert!(!is_file_protected("/srv/a/server.properties"));
    assert!(!is_file_protected("world/level.dat"));
    assert!(is_extension_protected(None));
    assert!(is_extension_protected(Some("exe")));
    assert!(!is_extension_protected(Some("txt")));
    assert_ne!(FileType::File, FileType::Directory);
}

#[test]
fn events_console_and_uuid() {
    let ev = |inner: InstanceEventInner| Event {
        event_inner: EventInner::InstanceEvent(InstanceEvent {
            instance_uuid: "u-1".to_string(),
            instance_name: "n".to_string(),
            instance_event_inner: inner,
        }),
        details: String::new(),
        timestamp: 0,
        idempotency: "x".to_string(),
    };
    assert!(ev(InstanceEventInner::InstanceOutput { message: "m".to_string() }).is_event_console_message());
    assert!(ev(InstanceEventInner::SystemMessage { message: "m".to_string() }).is_event_console_message());
    assert!(!ev(InstanceEventInner::InstanceStarted).is_event_console_message());
    assert_eq!(ev(InstanceEventInner::InstanceStarted).get_instance_uuid(), "u-1");
    let user = Event {
        event_inner: EventInner::UserEvent(UserEvent { user_id: "me".to_string(), user_event_inner: UserEventInner::UserLoggedIn }),
        details: String::new(),
        timestamp: 0,
        idempotency: "y".to_string(),
    };
    assert!(!user.is_event_console_message());
}

#[test]
fn java_instance_restore_and_flavours() {
    let config = Config {
        uuid: "u".to_string(),
        name: "n".to_string(),
        version: "1.19".to_string(),
        fabric_loader_version: None,
        fabric_installer_version: None,
        flavour: Flavour::Fabric,
        description: String::new(),
        jvm_args: vec![],
        path: "/srv/java".to_string(),
        port: 25565,
        min_ram: 1024,
        max_ram: 2048,
        creation_time: 0,
        auto_start: true,
        restart_on_crash: false,
        timeout_last_left: Some(5),
        timeout_no_activity: None,
        start_on_connection: false,
        backup_period: Some(30),
    };
    let i = Instance::restore(config).unwrap();
    assert_eq!(i.path_to_eula, "/srv/java/eula.txt");
    assert_eq!(i.path_to_resources, "/srv/java/resources");
    assert!(i.auto_start);
    assert_eq!(i.backup_period, Some(30));
    assert_eq!(Flavour::from_name("FaBrIc"), Some(Flavour::Fabric));
    assert_eq!(Flavour::from_name("forge"), None);
    assert_eq!(Flavour::from_lowercase_name("paper"), Some(Flavour::Paper));
    assert_eq!(Flavour::Spigot.to_string(), "spigot");
    assert_eq!(eula_contents(), "#generated by Lodestone\neula=true");
    let mut here = i.config.clone();
    here.path = String::new();
    let relative = Instance::restore(here).unwrap();
    assert_eq!(relative.path_to_config, ".lodestone_config");
    assert_eq!(relative.path_to_macros, "macros");
}

fn entered(entries: Vec<(&str, Option<ConfigurableValue>)>) -> ManifestValue {
    ManifestValue {
        setting_sections: vec![(
            "section_1".to_string(),
            SectionManifestValue {
                settings: entries
                    .into_iter()
                    .map(|(id, value)| (id.to_string(), SettingManifestValue { value }))
                    .collect(),
            },
        )],
    }
}

#[test]
fn setup_manifest_contents() {
    let m = MinecraftBedrockInstance::setup_manifest();
    let ids: Vec<&str> = m.get_section("section_1").unwrap().all_settings().iter().map(|s| s.setting_id.as_str()).collect();
    assert_eq!(ids, vec!["name", "description", "version", "version_url", "port"]);
    assert_eq!(m.get_setting("section_1", "port").unwrap().value, Some(ConfigurableValue::UnsignedInteger(25565)));
}

#[test]
fn construct_setup_config_from_entries() {
    let text = |s: &str| Some(ConfigurableValue::String(s.to_string()));
    let good = entered(vec![
        ("name", text("My server")),
        ("version", text("latest")),
        ("port", Some(ConfigurableValue::UnsignedInteger(19132))),
        ("description", None),
    ]);
    let c = MinecraftBedrockInstance::construct_setup_config(&good, true, false).unwrap();
    assert_eq!(c.name, "My server");
    assert_eq!(c.version, "latest");
    assert_eq!(c.port, 19132);
    assert_eq!(c.description, None);
    assert_eq!(c.version_url, None);
    assert_eq!(c.auto_start, Some(true));
    assert_eq!(c.restart_on_crash, Some(false));
    let too_big = entered(vec![("name", text("a")), ("version", text("b")), ("port", Some(ConfigurableValue::UnsignedInteger(70000)))]);
    assert!(matches!(MinecraftBedrockInstance::construct_setup_config(&too_big, false, false), Err(Error::TooLarge)));
    let missing = entered(vec![("name", text("a")), ("port", Some(ConfigurableValue::UnsignedInteger(1)))]);
    assert!(matches!(MinecraftBedrockInstance::construct_setup_config(&missing, false, false), Err(Error::RequiredValueMissing)));
    let wrong = entered(vec![("name", Some(ConfigurableValue::Integer(1)))]);
    assert!(matches!(MinecraftBedrockInstance::construct_setup_config(&wrong, false, false), Err(Error::TypeMismatch { .. })));
}

#[test]
fn well_known_settings_read_back() {
    let i = restored("");
    assert_eq!(i.get_instance_setting(InstanceSetting::Name).unwrap(), Some(ConfigurableValue::String("srv".to_string())));
    assert_eq!(i.get_instance_setting(InstanceSetting::Port).unwrap(), Some(ConfigurableValue::UnsignedInteger(19132)));
    assert_eq!(i.get_instance_setting(InstanceSetting::BackupPeriod).unwrap(), Some(ConfigurableValue::UnsignedInteger(60)));
    assert_eq!(i.get_instance_setting(InstanceSetting::Uuid).unwrap(), Some(ConfigurableValue::String("uuid-1".to_string())));
    assert_eq!(i.get_instance_setting(InstanceSetting::Path).unwrap(), Some(ConfigurableValue::String("/srv/instances/a".to_string())));
    assert!(matches!(i.get_instance_setting(InstanceSetting::MaxRam), Err(Error::UnsupportedSetting)));
}

#[test]
fn setup_progress_is_monotonic() {
    let steps = [
        SetupStep::Downloading { downloaded: 0, total: 1000 },
        SetupStep::Downloading { downloaded: 500, total: 1000 },
        SetupStep::Downloading { downloaded: 1000, total: 1000 },
        SetupStep::CreatingDirectories,
        SetupStep::FinishingUp,
        SetupStep::Done,
    ];
    let values: Vec<u32> = steps.iter().map(|s| setup_progress(*s)).collect();
    assert_eq!(values, vec![0, 400, 800, 850, 950, 1000]);
    assert_eq!(setup_progress(SetupStep::Downloading { downloaded: 7, total: 0 }), 0);
    assert_eq!(setup_progress(SetupStep::Downloading { downloaded: u64::MAX - 1, total: u64::MAX }), 799);
}
