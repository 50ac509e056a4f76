use vstd::prelude::*;

use crate::backup::{BackupInstruction, State};
use crate::error::{Error, ValueKind};
use crate::events::InstanceEventInner;
use crate::files::{child_path, join_path};
use crate::manifest::{
    first_keyed, has_key, has_section, lemma_first_key_exists, has_setting, lemma_section_index, lemma_setting_index,
    lemma_valid_manifest_commits, manifest_verdict, section_ids_unique, section_verdict,
    setting_ids_unique, ConfigurableManifest, ManifestValue, SectionManifest, SectionManifestValue,
    SettingManifestValue,
};
use crate::properties::{pairs_view, parse_properties, properties_entries};
use crate::setting::SettingManifest;
use crate::value::{value_kind, ConfigurableValue, ConfigurableValueType};

verus! {

/// What a caller gives to set up a new instance.
#[derive(Clone, Debug)]
pub struct SetupConfig {
    pub name: String,
    pub version: String,
    pub version_url: Option<String>,
    pub port: u32,
    pub description: Option<String>,
    pub auto_start: Option<bool>,
    pub restart_on_crash: Option<bool>,
    pub backup_period: Option<u32>,
}

/// The persisted configuration of an instance, read back on restore.
#[derive(Clone, Debug, PartialEq, Eq)]
pub struct RestoreConfig {
    pub name: String,
    pub version: String,
    pub description: String,
    pub port: u32,
    pub auto_start: bool,
    pub restart_on_crash: bool,
    pub backup_period: Option<u32>,
    pub has_started: bool,
}

impl SetupConfig {
    /// Whether the newest server release is asked for.
    pub open spec fn wants_latest(&self) -> bool {
        self.version@ == "latest"@
    }

    pub fn wants_latest_version(&self) -> (r: bool)
        ensures
            r == self.wants_latest(),
    {
        self.version == String::from_str("latest")
    }

    /// The URL to download the server package from: `latest_url` when the
    /// newest release is asked for, else the URL given with the version.
    pub fn download_url(&self, latest_url: Option<String>) -> (r: Result<String, Error>)
        ensures
            self.wants_latest() ==> match latest_url {
                Some(u) => r matches Ok(x) && x@ == u@,
                None => r matches Err(e) && e == Error::MissingDownloadUrl,
            },
            !self.wants_latest() ==> match self.version_url {
                Some(u) => r matches Ok(x) && x@ == u@,
                None => r matches Err(e) && e == Error::MissingDownloadUrl,
            },
    {
        if self.wants_latest_version() {
            match latest_url {
                Some(u) => Ok(u),
                None => Err(Error::MissingDownloadUrl),
            }
        } else {
            match &self.version_url {
                Some(u) => Ok(u.clone()),
                None => Err(Error::MissingDownloadUrl),
            }
        }
    }
}

impl RestoreConfig {
    /// The configuration first persisted for a new instance: absent options
    /// read as an empty description and as `false`; it has not started yet.
    pub fn from_setup(config: SetupConfig) -> (r: RestoreConfig)
        ensures
            r.name == config.name,
            r.version == config.version,
            r.description@ == match config.description {
                Some(d) => d@,
                None => Seq::<char>::empty(),
            },
            r.port == config.port,
            r.auto_start == (config.auto_start == Some(true)),
            r.restart_on_crash == (config.restart_on_crash == Some(true)),
            r.backup_period == config.backup_period,
            !r.has_started,
    {
        let description = match config.description {
            Some(d) => d,
            None => String::new(),
        };
        let auto_start = match config.auto_start {
            Some(b) => b,
            None => false,
        };
        let restart_on_crash = match config.restart_on_crash {
            Some(b) => b,
            None => false,
        };
        RestoreConfig {
            name: config.name,
            version: config.version,
            description,
            port: config.port,
            auto_start,
            restart_on_crash,
            backup_period: config.backup_period,
            has_started: false,
        }
    }
}

/// Whether `s` is a mutable, non-secret setting `id` of type `t`, with the
/// given requiredness.
pub open spec fn is_setup_setting(
    s: SettingManifest,
    id: Seq<char>,
    t: ConfigurableValueType,
    required: bool,
) -> bool {
    &&& s.setting_id@ == id
    &&& s.value_type == t
    &&& s.is_required == required
    &&& s.is_mutable
    &&& !s.is_secret
    &&& s.wf()
}

pub open spec fn text_type() -> ConfigurableValueType {
    ConfigurableValueType::String { regex: None }
}

pub open spec fn port_type() -> ConfigurableValueType {
    ConfigurableValueType::UnsignedInteger { min: Some(0), max: Some(65535) }
}

/// The manifest that first-time setup fills in: one section, `section_1`,
/// with the server's name, description, version, version URL and port.
pub open spec fn is_setup_manifest(m: ConfigurableManifest) -> bool {
    &&& m.wf()
    &&& m@.len() == 1
    &&& m@[0].id() == "section_1"@
    &&& m@[0]@.len() == 5
    &&& is_setup_setting(m@[0]@[0], "name"@, text_type(), true)
    &&& m@[0]@[0].value matches Some(ConfigurableValue::String(x)) && x@ == "Minecraft Server"@
    &&& is_setup_setting(m@[0]@[1], "description"@, text_type(), false)
    &&& m@[0]@[1].value is None
    &&& is_setup_setting(m@[0]@[2], "version"@, text_type(), true)
    &&& m@[0]@[2].value matches Some(ConfigurableValue::String(x)) && x@ == "Latest"@
    &&& is_setup_setting(m@[0]@[3], "version_url"@, text_type(), false)
    &&& m@[0]@[3].value is None
    &&& is_setup_setting(m@[0]@[4], "port"@, port_type(), true)
    &&& m@[0]@[4].value == Some(ConfigurableValue::UnsignedInteger(25565))
    &&& m@[0]@[4].default_value == Some(ConfigurableValue::UnsignedInteger(25565))
}

fn text_setting(id: &str, name: &str, description: &str, value: Option<&str>) -> (r: SettingManifest)
    ensures
        is_setup_setting(r, id@, text_type(), value is Some),
        match value {
            Some(v) => r.value matches Some(ConfigurableValue::String(x)) && x@ == v@,
            None => r.value is None,
        },
{
    match value {
        Some(v) => SettingManifest::new_required_value(
            String::from_str(id),
            String::from_str(name),
            String::from_str(description),
            ConfigurableValue::String(String::from_str(v)),
            None,
            false,
            true,
        ),
        None => SettingManifest::new_optional_value(
            String::from_str(id),
            String::from_str(name),
            String::from_str(description),
            None,
            ConfigurableValueType::String { regex: None },
            None,
            false,
            true,
        ),
    }
}

impl MinecraftBedrockInstance {
    /// The settings asked of a caller who sets up a new instance.
    pub fn setup_manifest() -> (r: ConfigurableManifest)
        ensures
            is_setup_manifest(r),
    {
        let name = text_setting("name", "Server Name", "The name of the server instance", Some("Minecraft Server"));
        let description = text_setting("description", "Description", "A description of the server instance", None);
        let version = text_setting("version", "Version", "The version of minecraft to use", Some("Latest"));
        let version_url = text_setting(
            "version_url",
            "Version URL",
            "The url to download the server.zip when not using Latest version",
            None,
        );
        let port = SettingManifest {
            setting_id: String::from_str("port"),
            name: String::from_str("Port"),
            description: String::from_str("The port to run the server on"),
            value: Some(ConfigurableValue::UnsignedInteger(25565)),
            value_type: ConfigurableValueType::UnsignedInteger { min: Some(0), max: Some(65535) },
            default_value: Some(ConfigurableValue::UnsignedInteger(25565)),
            is_secret: false,
            is_required: true,
            is_mutable: true,
        };
        proof {
            reveal_strlit("name");
            reveal_strlit("description");
            reveal_strlit("version");
            reveal_strlit("version_url");
            reveal_strlit("port");
        }
        let mut settings: Vec<SettingManifest> = Vec::new();
        settings.push(name);
        settings.push(description);
        settings.push(version);
        settings.push(version_url);
        settings.push(port);
        proof {
            let v = settings@;
            assert(v[0].setting_id@.len() == 4 && v[0].setting_id@[0] == 'n');
            assert(v[1].setting_id@.len() == 11 && v[1].setting_id@[0] == 'd');
            assert(v[2].setting_id@.len() == 7);
            assert(v[3].setting_id@.len() == 11 && v[3].setting_id@[0] == 'v');
            assert(v[4].setting_id@.len() == 4 && v[4].setting_id@[0] == 'p');
        }
        let section = SectionManifest::new(
            String::from_str("section_1"),
            String::from_str("Basic Settings"),
            String::from_str("Basic settings for the server."),
            settings,
        );
        let mut sections: Vec<SectionManifest> = Vec::new();
        sections.push(section);
        let m = ConfigurableManifest::new(false, false, false, false, sections);
        proof {
            assert(crate::manifest::section_ids_unique(sections@));
        }
        m
    }
}

/// The value entered for setting `id` of section `section_1`, if an entry
/// for it is there: `Some(None)` for an entry left empty.
pub open spec fn entered_value(v: ManifestValue, id: Seq<char>) -> Option<Option<ConfigurableValue>> {
    match v.get_section_spec("section_1"@) {
        None => None,
        Some(sec) => if has_key(sec.settings@, id) {
            let k = choose|k: int| first_keyed(sec.settings@, id, k);
            Some(sec.settings@[k].1.value)
        } else {
            None
        },
    }
}

/// The text entered for a required text setting.
pub open spec fn entered_text(v: ManifestValue, id: Seq<char>) -> Option<Seq<char>> {
    match entered_value(v, id) {
        Some(Some(ConfigurableValue::String(s))) => Some(s@),
        _ => None,
    }
}

/// The verdict of the setup manifest on what a caller entered: that of
/// `validate_manifest` on any manifest `is_setup_manifest` describes, which
/// all judge alike.
pub open spec fn setup_verdict(v: ManifestValue) -> Result<(), Error> {
    manifest_verdict((choose|m: ConfigurableManifest| is_setup_manifest(m))@, v.setting_sections@)
}

proof fn lemma_setup_ids(m: ConfigurableManifest)
    requires
        is_setup_manifest(m),
    ensures
        setting_ids_unique(m@[0]@),
        section_ids_unique(m@),
{
    reveal_strlit("name");
    reveal_strlit("description");
    reveal_strlit("version");
    reveal_strlit("version_url");
    reveal_strlit("port");
    let s = m@[0]@;
    assert(s[0].setting_id@.len() == 4 && s[0].setting_id@[0] == 'n');
    assert(s[1].setting_id@.len() == 11 && s[1].setting_id@[0] == 'd');
    assert(s[2].setting_id@.len() == 7);
    assert(s[3].setting_id@.len() == 11 && s[3].setting_id@[0] == 'v');
    assert(s[4].setting_id@.len() == 4 && s[4].setting_id@[0] == 'p');
    assert forall|i: int, j: int|
        0 <= i < s.len() && 0 <= j < s.len() && i != j implies (#[trigger] s[i]).setting_id@
        != (#[trigger] s[j]).setting_id@ by {
        assert(i == 0 || i == 1 || i == 2 || i == 3 || i == 4);
        assert(j == 0 || j == 1 || j == 2 || j == 3 || j == 4);
    }
}

proof fn lemma_setup_section_verdict(
    m1: ConfigurableManifest,
    m2: ConfigurableManifest,
    e: Seq<(String, SettingManifestValue)>,
)
    requires
        is_setup_manifest(m1),
        is_setup_manifest(m2),
    ensures
        section_verdict(m1@[0]@, e) == section_verdict(m2@[0]@, e),
    decreases e.len(),
{
    if e.len() > 0 {
        lemma_setup_ids(m1);
        lemma_setup_ids(m2);
        let s1 = m1@[0]@;
        let s2 = m2@[0]@;
        let id = e[0].0@;
        assert forall|i: int| 0 <= i < 5 implies (#[trigger] s1[i]).setting_id@ == s2[i].setting_id@
            && s1[i].value_type == s2[i].value_type && s1[i].is_required == s2[i].is_required
            && s1[i].is_mutable == s2[i].is_mutable by {
            assert(i == 0 || i == 1 || i == 2 || i == 3 || i == 4);
        }
        if has_setting(s1, id) {
            let i = choose|i: int| 0 <= i < s1.len() && (#[trigger] s1[i]).setting_id@ == id;
            lemma_setting_index(s1, id, i);
            assert(s2[i].setting_id@ == id);
            lemma_setting_index(s2, id, i);
        } else if has_setting(s2, id) {
            let i = choose|i: int| 0 <= i < s2.len() && (#[trigger] s2[i]).setting_id@ == id;
            assert(s1[i].setting_id@ == id);
        }
        lemma_setup_section_verdict(m1, m2, e.drop_first());
    }
}

proof fn lemma_setup_verdict(
    m1: ConfigurableManifest,
    m2: ConfigurableManifest,
    e: Seq<(String, SectionManifestValue)>,
)
    requires
        is_setup_manifest(m1),
        is_setup_manifest(m2),
    ensures
        manifest_verdict(m1@, e) == manifest_verdict(m2@, e),
    decreases e.len(),
{
    if e.len() > 0 {
        lemma_setup_ids(m1);
        lemma_setup_ids(m2);
        let id = e[0].0@;
        if id == "section_1"@ {
            lemma_section_index(m1@, id, 0);
            lemma_section_index(m2@, id, 0);
            assert(has_section(m1@, id) && has_section(m2@, id));
            lemma_setup_section_verdict(m1, m2, e[0].1.settings@);
        }
        lemma_setup_verdict(m1, m2, e.drop_first());
    }
}

/// A port that passes the setup manifest's validation is within its bounds.
proof fn lemma_valid_port(m: ConfigurableManifest, v: ManifestValue, p: u32)
    requires
        is_setup_manifest(m),
        manifest_verdict(m@, v.setting_sections@) is Ok,
        entered_value(v, "port"@) == Some(Some(ConfigurableValue::UnsignedInteger(p))),
    ensures
        p <= 65535,
{
    reveal_strlit("port");
    lemma_setup_ids(m);
    let i = choose|i: int|
        0 <= i < v.setting_sections@.len() && (#[trigger] v.setting_sections@[i]).0@ == "section_1"@;
    lemma_first_key_exists(v.setting_sections@, "section_1"@, i);
    let k = choose|k: int| first_keyed(v.setting_sections@, "section_1"@, k);
    let sec = v.setting_sections@[k].1;
    let h = choose|h: int| 0 <= h < sec.settings@.len() && (#[trigger] sec.settings@[h]).0@ == "port"@;
    lemma_first_key_exists(sec.settings@, "port"@, h);
    let j = choose|j: int| first_keyed(sec.settings@, "port"@, j);
    lemma_valid_manifest_commits(m@, v.setting_sections@, k, j);
    lemma_section_index(m@, "section_1"@, 0);
    lemma_setting_index(m@[0]@, "port"@, 4);
}

fn text_of(entry: Option<&SettingManifestValue>) -> (r: Option<String>)
    ensures
        match entry {
            Some(e) => match e.value {
                Some(ConfigurableValue::String(s)) => r matches Some(x) && x@ == s@,
                _ => r is None,
            },
            None => r is None,
        },
{
    match entry {
        Some(e) => match &e.value {
            Some(ConfigurableValue::String(s)) => Some(s.clone()),
            _ => None,
        },
        None => None,
    }
}

impl MinecraftBedrockInstance {
    /// Turns what a caller entered in the setup manifest into a setup
    /// configuration. Every entry is first validated against
    /// `setup_manifest`, so an invalid value gives the validation's error;
    /// `name`, `version` and `port` must then be present.
    pub fn construct_setup_config(setup_value: &ManifestValue, auto_start: bool, restart_on_crash: bool) -> (r:
        Result<SetupConfig, Error>)
        ensures
            r matches Ok(c) ==> {
                &&& entered_text(*setup_value, "name"@) == Some(c.name@)
                &&& entered_text(*setup_value, "version"@) == Some(c.version@)
                &&& entered_value(*setup_value, "port"@) == Some(
                    Some(ConfigurableValue::UnsignedInteger(c.port)),
                )
                &&& c.port <= 65535
                &&& match c.description {
                    Some(d) => entered_text(*setup_value, "description"@) == Some(d@),
                    None => entered_text(*setup_value, "description"@) is None,
                }
                &&& match c.version_url {
                    Some(u) => entered_text(*setup_value, "version_url"@) == Some(u@),
                    None => entered_text(*setup_value, "version_url"@) is None,
                }
                &&& c.auto_start == Some(auto_start)
                &&& c.restart_on_crash == Some(restart_on_crash)
                &&& c.backup_period is None
            },
            setup_verdict(*setup_value) matches Err(e) ==> r == Err::<SetupConfig, Error>(e),
            (setup_verdict(*setup_value) is Ok && entered_text(*setup_value, "name"@) is Some
                && entered_text(*setup_value, "version"@) is Some && (entered_value(
                *setup_value,
                "port"@,
            ) matches Some(Some(ConfigurableValue::UnsignedInteger(_))))) ==> r is Ok,
            entered_text(*setup_value, "name"@) is None ==> r is Err,
            entered_text(*setup_value, "version"@) is None ==> r is Err,
            !(entered_value(*setup_value, "port"@) matches Some(Some(ConfigurableValue::UnsignedInteger(_))))
                ==> r is Err,
    {
        let manifest = Self::setup_manifest();
        let verdict = manifest.validate_manifest(setup_value);
        proof {
            let chosen = choose|m: ConfigurableManifest| is_setup_manifest(m);
            assert(is_setup_manifest(manifest));
            lemma_setup_verdict(manifest, chosen, setup_value.setting_sections@);
        }
        if let Err(e) = verdict {
            return Err(e);
        }
        proof {
            reveal_strlit("section_1");
            reveal_strlit("name");
            reveal_strlit("description");
            reveal_strlit("version");
            reveal_strlit("version_url");
            reveal_strlit("port");
        }
        let name = text_of(setup_value.get_setting("section_1", "name"));
        let version = text_of(setup_value.get_setting("section_1", "version"));
        let description = text_of(setup_value.get_setting("section_1", "description"));
        let version_url = text_of(setup_value.get_setting("section_1", "version_url"));
        let port = match setup_value.get_setting("section_1", "port") {
            Some(e) => match &e.value {
                Some(ConfigurableValue::UnsignedInteger(p)) => Some(*p),
                _ => None,
            },
            None => None,
        };
        match (name, version, port) {
            (Some(name), Some(version), Some(port)) => {
                proof {
                    lemma_valid_port(manifest, *setup_value, port);
                }
                Ok(
                    SetupConfig {
                        name,
                        version,
                        version_url,
                        port,
                        description,
                        auto_start: Some(auto_start),
                        restart_on_crash: Some(restart_on_crash),
                        backup_period: None,
                    },
                )
            },
            _ => Err(Error::RequiredValueMissing),
        }
    }
}

/// A step of first-time setup, as a progress bar shows it.
#[derive(Clone, Copy, Debug, PartialEq, Eq, Structural)]
pub enum SetupStep {
    /// The server package is downloading: `downloaded` of `total` bytes.
    Downloading { downloaded: u64, total: u64 },
    CreatingDirectories,
    FinishingUp,
    Done,
}

pub open spec fn step_rank(step: SetupStep) -> int {
    match step {
        SetupStep::Downloading { .. } => 0,
        SetupStep::CreatingDirectories => 1,
        SetupStep::FinishingUp => 2,
        SetupStep::Done => 3,
    }
}

/// Whether step `a` comes no later than step `b` of one setup: an earlier
/// stage, or the same download with no fewer bytes at `b`.
pub open spec fn step_no_later(a: SetupStep, b: SetupStep) -> bool {
    match (a, b) {
        (
            SetupStep::Downloading { downloaded: d1, total: t1 },
            SetupStep::Downloading { downloaded: d2, total: t2 },
        ) => t1 == t2 && d1 <= d2,
        _ => step_rank(a) <= step_rank(b),
    }
}

/// Progress of a step in thousandths: the download fills the first 800,
/// in proportion to the bytes received; setup ends at 1000.
pub open spec fn step_progress(step: SetupStep) -> int {
    match step {
        SetupStep::Downloading { downloaded, total } => if total == 0 {
            0
        } else if downloaded >= total {
            800
        } else {
            (downloaded * 800) / total as int
        },
        SetupStep::CreatingDirectories => 850,
        SetupStep::FinishingUp => 950,
        SetupStep::Done => 1000,
    }
}

/// The progress of `step`, in thousandths.
pub fn setup_progress(step: SetupStep) -> (r: u32)
    ensures
        r == step_progress(step),
        r <= 1000,
{
    match step {
        SetupStep::Downloading { downloaded, total } => {
            if total == 0 {
                0
            } else if downloaded >= total {
                800
            } else {
                proof {
                    lemma_download_progress(downloaded as int, total as int);
                }
                ((downloaded as u128 * 800) / total as u128) as u32
            }
        },
        SetupStep::CreatingDirectories => 850,
        SetupStep::FinishingUp => 950,
        SetupStep::Done => 1000,
    }
}

proof fn lemma_download_progress(d: int, t: int)
    requires
        0 <= d <= t,
        t > 0,
    ensures
        0 <= (d * 800) / t <= 800,
{
    vstd::arithmetic::mul::lemma_mul_inequality(d, t, 800);
    vstd::arithmetic::div_mod::lemma_div_is_ordered(d * 800, t * 800, t);
    vstd::arithmetic::div_mod::lemma_div_by_multiple(800, t);
    assert(t * 800 == 800 * t) by (nonlinear_arith);
    vstd::arithmetic::div_mod::lemma_div_pos_is_pos(d * 800, t);
}

/// Setup progress never goes back, and ends at 1000 thousandths.
pub proof fn lemma_progress_monotonic(a: SetupStep, b: SetupStep)
    requires
        step_no_later(a, b),
    ensures
        step_progress(a) <= step_progress(b),
        step_progress(SetupStep::Done) == 1000,
{
    if let SetupStep::Downloading { downloaded: d1, total: t } = a {
        if t > 0 {
            let d1c: int = if d1 >= t { t as int } else { d1 as int };
            lemma_download_progress(d1c, t as int);
            if let SetupStep::Downloading { downloaded: d2, .. } = b {
                let d2c: int = if d2 >= t { t as int } else { d2 as int };
                lemma_download_progress(d2c, t as int);
                vstd::arithmetic::mul::lemma_mul_inequality(d1c, d2c, 800);
                vstd::arithmetic::div_mod::lemma_div_is_ordered(d1c * 800, d2c * 800, t as int);
                vstd::arithmetic::mul::lemma_mul_inequality(t as int, t as int, 800);
                vstd::arithmetic::div_mod::lemma_div_by_multiple(800, t as int);
                assert(t * 800 == 800 * t) by (nonlinear_arith);
            }
        }
    }
}

/// What the process supervisor observed or was asked.
#[derive(Clone, Copy, Debug, PartialEq, Eq, Structural)]
pub enum LifecycleEvent {
    StartRequested,
    ProcessStarted,
    StartFailed,
    StopRequested,
    ProcessExited,
}

/// What the supervisor must do to the child process after a transition.
#[derive(Clone, Copy, Debug, PartialEq, Eq, Structural)]
pub enum LifecycleAction {
    SpawnProcess,
    SendStop,
    Nothing,
}

/// The next state, the events to broadcast, and the action to take after
/// `event` in `state`; `None` when `event` is not allowed in `state`.
///
/// A process that exits while starting or running has crashed: the
/// instance stops, and starts again at once when `restart_on_crash` holds.
pub open spec fn lifecycle_step(state: State, event: LifecycleEvent, restart_on_crash: bool) -> Option<
    (State, Seq<InstanceEventInner>, LifecycleAction),
> {
    match (state, event) {
        (State::Stopped, LifecycleEvent::StartRequested) => Some(
            (State::Starting, seq![InstanceEventInner::InstanceStarting], LifecycleAction::SpawnProcess),
        ),
        (State::Starting, LifecycleEvent::ProcessStarted) => Some(
            (State::Running, seq![InstanceEventInner::InstanceStarted], LifecycleAction::Nothing),
        ),
        (State::Starting, LifecycleEvent::StartFailed) => Some(
            (State::Stopped, seq![InstanceEventInner::InstanceError], LifecycleAction::Nothing),
        ),
        (State::Running, LifecycleEvent::StopRequested) => Some(
            (State::Stopping, seq![InstanceEventInner::InstanceStopping], LifecycleAction::SendStop),
        ),
        (State::Stopping, LifecycleEvent::ProcessExited) => Some(
            (State::Stopped, seq![InstanceEventInner::InstanceStopped], LifecycleAction::Nothing),
        ),
        (State::Starting, LifecycleEvent::ProcessExited) | (
            State::Running,
            LifecycleEvent::ProcessExited,
        ) => if restart_on_crash {
            Some(
                (
                    State::Starting,
                    seq![
                        InstanceEventInner::InstanceError,
                        InstanceEventInner::InstanceStopped,
                        InstanceEventInner::InstanceStarting,
                    ],
                    LifecycleAction::SpawnProcess,
                ),
            )
        } else {
            Some(
                (
                    State::Stopped,
                    seq![InstanceEventInner::InstanceError, InstanceEventInner::InstanceStopped],
                    LifecycleAction::Nothing,
                ),
            )
        },
        _ => None,
    }
}

/// The outcome of a lifecycle event.
#[derive(Debug)]
pub struct Transition {
    pub next: State,
    pub events: Vec<InstanceEventInner>,
    pub action: LifecycleAction,
}

/// Decides the transition that `event` makes from `state`.
pub fn next_lifecycle(state: State, event: LifecycleEvent, restart_on_crash: bool) -> (r: Result<
    Transition,
    Error,
>)
    ensures
        match lifecycle_step(state, event, restart_on_crash) {
            Some((next, events, action)) => r matches Ok(t) && t.next == next && t.events@
                == events && t.action == action,
            None => r matches Err(e) && e == Error::InvalidState,
        },
{
    let (next, action) = match (state, event) {
        (State::Stopped, LifecycleEvent::StartRequested) => (
            State::Starting,
            LifecycleAction::SpawnProcess,
        ),
        (State::Starting, LifecycleEvent::ProcessStarted) => (State::Running, LifecycleAction::Nothing),
        (State::Starting, LifecycleEvent::StartFailed) => (State::Stopped, LifecycleAction::Nothing),
        (State::Running, LifecycleEvent::StopRequested) => (State::Stopping, LifecycleAction::SendStop),
        (State::Stopping, LifecycleEvent::ProcessExited) => (State::Stopped, LifecycleAction::Nothing),
        (State::Starting, LifecycleEvent::ProcessExited) | (
            State::Running,
            LifecycleEvent::ProcessExited,
        ) => if restart_on_crash {
            (State::Starting, LifecycleAction::SpawnProcess)
        } else {
            (State::Stopped, LifecycleAction::Nothing)
        },
        _ => {
            return Err(Error::InvalidState);
        },
    };
    let mut events: Vec<InstanceEventInner> = Vec::new();
    match event {
        LifecycleEvent::StartRequested => events.push(InstanceEventInner::InstanceStarting),
        LifecycleEvent::ProcessStarted => events.push(InstanceEventInner::InstanceStarted),
        LifecycleEvent::StartFailed => events.push(InstanceEventInner::InstanceError),
        LifecycleEvent::StopRequested => events.push(InstanceEventInner::InstanceStopping),
        LifecycleEvent::ProcessExited => {
            if state != State::Stopping {
                events.push(InstanceEventInner::InstanceError);
            }
            events.push(InstanceEventInner::InstanceStopped);
            if state != State::Stopping && restart_on_crash {
                events.push(InstanceEventInner::InstanceStarting);
            }
        },
    }
    proof {
        let expected = lifecycle_step(state, event, restart_on_crash).unwrap().1;
        assert(events@ =~= expected);
    }
    Ok(Transition { next, events, action })
}

/// The well-known settings of an instance, reached by name.
#[derive(Clone, Copy, Debug, PartialEq, Eq, Structural)]
pub enum InstanceSetting {
    Uuid,
    Name,
    Flavour,
    GameType,
    CmdArgs,
    Description,
    Port,
    MinRam,
    MaxRam,
    CreationTime,
    Path,
    AutoStart,
    RestartOnCrash,
    BackupPeriod,
}

/// The kind of value a well-known setting of a Bedrock instance takes, or
/// `None` when it cannot be set on one.
pub open spec fn setting_value_kind(key: InstanceSetting) -> Option<ValueKind> {
    match key {
        InstanceSetting::Name => Some(ValueKind::String),
        InstanceSetting::Description => Some(ValueKind::String),
        InstanceSetting::Port => Some(ValueKind::UnsignedInteger),
        InstanceSetting::AutoStart => Some(ValueKind::Boolean),
        InstanceSetting::RestartOnCrash => Some(ValueKind::Boolean),
        InstanceSetting::BackupPeriod => Some(ValueKind::UnsignedInteger),
        _ => None,
    }
}

/// The verdict on setting well-known setting `key` to `value`: only the
/// backup period may be cleared, and a value must have the setting's kind.
pub open spec fn instance_setting_verdict(key: InstanceSetting, value: Option<ConfigurableValue>) -> Result<
    (),
    Error,
> {
    match setting_value_kind(key) {
        None => Err(Error::UnsupportedSetting),
        Some(k) => match value {
            None => if key == InstanceSetting::BackupPeriod {
                Ok(())
            } else {
                Err(Error::RequiredValueMissing)
            },
            Some(v) => if value_kind(v) == k {
                Ok(())
            } else {
                Err(Error::TypeMismatch { expected: k, found: value_kind(v) })
            },
        },
    }
}

/// The configuration after well-known setting `key` takes `value`.
pub open spec fn config_with_setting(c: RestoreConfig, key: InstanceSetting, value: Option<ConfigurableValue>) -> RestoreConfig {
    match value {
        None => RestoreConfig { backup_period: None, ..c },
        Some(v) => match (key, v) {
            (InstanceSetting::Name, ConfigurableValue::String(s)) => RestoreConfig { name: s, ..c },
            (InstanceSetting::Description, ConfigurableValue::String(s)) => RestoreConfig {
                description: s,
                ..c
            },
            (InstanceSetting::Port, ConfigurableValue::UnsignedInteger(n)) => RestoreConfig {
                port: n,
                ..c
            },
            (InstanceSetting::AutoStart, ConfigurableValue::Boolean(b)) => RestoreConfig {
                auto_start: b,
                ..c
            },
            (InstanceSetting::RestartOnCrash, ConfigurableValue::Boolean(b)) => RestoreConfig {
                restart_on_crash: b,
                ..c
            },
            (InstanceSetting::BackupPeriod, ConfigurableValue::UnsignedInteger(n)) => RestoreConfig {
                backup_period: Some(n),
                ..c
            },
            _ => c,
        },
    }
}

/// The id of the section that mirrors the server's properties file.
pub open spec fn properties_section_id() -> Seq<char> {
    "server_properties"@
}

/// Whether `s` is the setting loaded for property `key` with text `value`.
pub open spec fn is_property_setting(s: SettingManifest, key: Seq<char>, value: Seq<char>) -> bool {
    &&& s.setting_id@ == key
    &&& s.value matches Some(ConfigurableValue::String(x)) && x@ == value
    &&& s.is_required
    &&& s.is_mutable
    &&& s.wf()
}

/// Whether `s` holds the last of the first `n` entries that carry its key.
pub open spec fn loaded_from(s: SettingManifest, entries: Seq<(Seq<char>, Seq<char>)>, n: int) -> bool {
    exists|k: int|
        0 <= k < n && is_property_setting(s, (#[trigger] entries[k]).0, entries[k].1) && forall|
            k2: int,
        | k < k2 < n ==> (#[trigger] entries[k2]).0 != entries[k].0
}

/// The setting that holds one property, as text.
fn property_setting(key: String, value: String) -> (r: SettingManifest)
    ensures
        is_property_setting(r, key@, value@),
{
    let id = key.clone();
    SettingManifest::new_required_value(
        id,
        key,
        String::new(),
        ConfigurableValue::String(value),
        None,
        false,
        true,
    )
}

/// The properties section holding `entries`, later entries replacing earlier
/// ones with the same key.
pub fn properties_section(entries: Vec<(String, String)>) -> (r: SectionManifest)
    ensures
        r.wf(),
        r.id() == properties_section_id(),
        forall|id: Seq<char>| #[trigger]
            has_setting(r@, id) <==> exists|k: int|
                0 <= k < entries@.len() && (#[trigger] pairs_view(entries@)[k]).0 == id,
        forall|j: int|
            0 <= j < r@.len() ==> loaded_from(
                #[trigger] r@[j],
                pairs_view(entries@),
                entries@.len() as int,
            ),
{
    let mut section = SectionManifest::new(
        String::from_str("server_properties"),
        String::from_str("Server Properties Settings"),
        String::from_str("All settings in the server.properties file can be configured here"),
        Vec::new(),
    );
    proof {
        assert forall|id: Seq<char>| !has_setting(section@, id) by {}
    }
    let ghost raw = entries@;
    let ghost all = pairs_view(entries@);
    let mut rest = entries;
    let ghost n: int = 0;
    while rest.len() > 0
        invariant
            section.wf(),
            section.id() == properties_section_id(),
            0 <= n <= raw.len(),
            all == pairs_view(raw),
            rest@ == raw.subrange(n, raw.len() as int),
            forall|id: Seq<char>| #[trigger]
                has_setting(section@, id) <==> exists|k: int| 0 <= k < n && (#[trigger] all[k]).0 == id,
            forall|j: int| 0 <= j < section@.len() ==> loaded_from(#[trigger] section@[j], all, n),
        decreases rest@.len(),
    {
        let (key, value) = rest.remove(0);
        let ghost old_s = section@;
        proof {
            assert(raw[n] == (key, value));
            assert(all[n] == (key@, value@));
        }
        let setting = property_setting(key, value);
        section.insert_setting(setting);
        proof {
            section.lemma_ids_unique();
            let kk = setting.setting_id@;
            let s = section@;
            assert forall|id: Seq<char>|
                has_setting(s, id) <==> exists|k: int| 0 <= k < n + 1 && (#[trigger] all[k]).0 == id by {
                if id == kk {
                    assert(all[n].0 == id);
                }
                if exists|k: int| 0 <= k < n + 1 && (#[trigger] all[k]).0 == id {
                    let k = choose|k: int| 0 <= k < n + 1 && (#[trigger] all[k]).0 == id;
                    if k < n {
                        assert(has_setting(old_s, id));
                    }
                }
            }
            assert forall|j: int| 0 <= j < s.len() implies loaded_from(#[trigger] s[j], all, n + 1) by {
                if has_setting(old_s, kk) {
                    let idx = crate::manifest::setting_index(old_s, kk);
                    assert(s[idx] == setting);
                } else {
                    assert(s[old_s.len() as int] == setting);
                }
                if s[j].setting_id@ == kk {
                    assert(s[j] == setting);
                    assert(is_property_setting(s[j], all[n].0, all[n].1));
                } else {
                    assert(s[j] == old_s[j]);
                    assert(loaded_from(old_s[j], all, n));
                    let k = choose|k: int|
                        0 <= k < n && is_property_setting(old_s[j], (#[trigger] all[k]).0, all[k].1)
                            && forall|k2: int| k < k2 < n ==> (#[trigger] all[k2]).0 != all[k].0;
                    assert(is_property_setting(s[j], all[k].0, all[k].1));
                    assert forall|k2: int| k < k2 < n + 1 implies (#[trigger] all[k2]).0 != all[k].0 by {
                        if k2 == n {
                            assert(all[n].0 == kk);
                        }
                    }
                }
            }
            n = n + 1;
            assert(rest@ =~= raw.subrange(n, raw.len() as int));
        }
    }
    proof {
        assert(n == raw.len());
        assert(raw == entries@);
    }
    section
}

/// A Bedrock-edition instance as its supervisor holds it: configuration,
/// lifecycle state, file layout and settings registry.
#[derive(Debug)]
pub struct MinecraftBedrockInstance {
    config: RestoreConfig,
    uuid: String,
    creation_time: i64,
    state: State,
    path_to_instance: String,
    path_to_config: String,
    path_to_properties: String,
    path_to_macros: String,
    path_to_worlds: String,
    configurable_manifest: ConfigurableManifest,
}

/// Whether `i` is what `restore` builds from these parts.
pub open spec fn restored_instance(
    i: MinecraftBedrockInstance,
    path_to_instance: Seq<char>,
    uuid: Seq<char>,
    creation_time: i64,
    config: RestoreConfig,
    properties: Seq<char>,
) -> bool {
    let entries = properties_entries(properties);
    &&& i.spec_config() == config
    &&& i.spec_uuid() == uuid
    &&& i.spec_creation_time() == creation_time
    &&& i.spec_state() == State::Stopped
    &&& i.spec_paths() == (
        path_to_instance,
        child_path(path_to_instance, ".lodestone_minecraft_config.json"@),
        child_path(path_to_instance, "server.properties"@),
        child_path(path_to_instance, "macros"@),
        child_path(path_to_instance, "worlds"@),
    )
    &&& i.manifest().wf()
    &&& i.manifest().flags() == (false, false, false, false)
    &&& i.manifest()@.len() == 1
    &&& i.manifest()@[0].id() == properties_section_id()
    &&& forall|id: Seq<char>| #[trigger]
        has_setting(i.manifest()@[0]@, id) <==> exists|k: int|
            0 <= k < entries.len() && (#[trigger] entries[k]).0 == id
    &&& forall|j: int|
        0 <= j < i.manifest()@[0]@.len() ==> loaded_from(
            #[trigger] i.manifest()@[0]@[j],
            entries,
            entries.len() as int,
        )
}

impl MinecraftBedrockInstance {
    pub closed spec fn spec_config(&self) -> RestoreConfig {
        self.config
    }

    pub closed spec fn spec_uuid(&self) -> Seq<char> {
        self.uuid@
    }

    pub closed spec fn spec_creation_time(&self) -> i64 {
        self.creation_time
    }

    pub closed spec fn spec_state(&self) -> State {
        self.state
    }

    /// Instance root, config file, properties file, macros and worlds.
    pub closed spec fn spec_paths(&self) -> (Seq<char>, Seq<char>, Seq<char>, Seq<char>, Seq<char>) {
        (
            self.path_to_instance@,
            self.path_to_config@,
            self.path_to_properties@,
            self.path_to_macros@,
            self.path_to_worlds@,
        )
    }

    pub closed spec fn manifest(&self) -> ConfigurableManifest {
        self.configurable_manifest
    }

    pub closed spec fn wf(&self) -> bool {
        self.configurable_manifest.wf()
    }

    /// Brings an existing instance back: `parsed_config` is what reading its
    /// persisted configuration gave (the reader's message on failure), and
    /// `properties` the text of its properties file. An unreadable
    /// configuration is fatal and no instance comes online.
    pub fn restore(
        path_to_instance: String,
        uuid: String,
        creation_time: i64,
        parsed_config: Result<RestoreConfig, String>,
        properties: &str,
    ) -> (r: Result<MinecraftBedrockInstance, Error>)
        ensures
            parsed_config is Err <==> r is Err,
            r matches Err(e) ==> e.spec_kind() == crate::error::ErrorKind::Fatal,
            parsed_config matches Err(d) ==> r matches Err(e) && e matches Error::MalformedConfig {
                detail,
            } && detail@ == d@,
            parsed_config matches Ok(c) ==> r matches Ok(i) && i.wf() && restored_instance(
                i,
                path_to_instance@,
                uuid@,
                creation_time,
                c,
                properties@,
            ),
    {
        let config = match parsed_config {
            Ok(c) => c,
            Err(detail) => {
                return Err(Error::MalformedConfig { detail });
            },
        };
        let path_to_config = join_path(path_to_instance.as_str(), ".lodestone_minecraft_config.json");
        let path_to_properties = join_path(path_to_instance.as_str(), "server.properties");
        let path_to_macros = join_path(path_to_instance.as_str(), "macros");
        let path_to_worlds = join_path(path_to_instance.as_str(), "worlds");
        let entries = parse_properties(properties);
        let ghost view = pairs_view(entries@);
        proof {
            assert forall|k: int| 0 <= k < entries@.len() implies (#[trigger] entries@[k]).0@ == view[k].0 by {}
        }
        let section = properties_section(entries);
        let mut sections: Vec<SectionManifest> = Vec::new();
        sections.push(section);
        let configurable_manifest = ConfigurableManifest::new(false, false, false, false, sections);
        proof {
            assert(crate::manifest::section_ids_unique(sections@));
            assert forall|id: Seq<char>| #[trigger]
                has_setting(configurable_manifest@[0]@, id) <==> exists|k: int|
                    0 <= k < view.len() && (#[trigger] view[k]).0 == id by {
                if exists|k: int| 0 <= k < view.len() && (#[trigger] view[k]).0 == id {
                    let k = choose|k: int| 0 <= k < view.len() && (#[trigger] view[k]).0 == id;
                    assert(entries@[k].0@ == id);
                }
            }
        }
        Ok(
            MinecraftBedrockInstance {
                config,
                uuid,
                creation_time,
                state: State::Stopped,
                path_to_instance,
                path_to_config,
                path_to_properties,
                path_to_macros,
                path_to_worlds,
                configurable_manifest,
            },
        )
    }

    pub fn config(&self) -> (r: &RestoreConfig)
        ensures
            *r == self.spec_config(),
    {
        &self.config
    }

    pub fn uuid(&self) -> (r: &String)
        ensures
            r@ == self.spec_uuid(),
    {
        &self.uuid
    }

    pub fn creation_time(&self) -> (r: i64)
        ensures
            r == self.spec_creation_time(),
    {
        self.creation_time
    }

    pub fn state(&self) -> (r: State)
        ensures
            r == self.spec_state(),
    {
        self.state
    }

    pub fn path_to_config(&self) -> (r: &String)
        ensures
            r@ == self.spec_paths().1,
    {
        &self.path_to_config
    }

    pub fn path_to_properties(&self) -> (r: &String)
        ensures
            r@ == self.spec_paths().2,
    {
        &self.path_to_properties
    }

    pub fn path_to_worlds(&self) -> (r: &String)
        ensures
            r@ == self.spec_paths().4,
    {
        &self.path_to_worlds
    }

    pub fn configurable_manifest(&self) -> (r: &ConfigurableManifest)
        ensures
            *r == self.manifest(),
    {
        &self.configurable_manifest
    }

    /// Gives the supervisor a lifecycle event: on success the state moves
    /// on as `lifecycle_step` says, and the events to broadcast and the
    /// action to take come back; otherwise nothing changes. A first start
    /// marks the instance as started.
    pub fn handle_lifecycle_event(&mut self, event: LifecycleEvent) -> (r: Result<Transition, Error>)
        ensures
            match lifecycle_step(old(self).spec_state(), event, old(self).spec_config().restart_on_crash) {
                Some((next, events, action)) => r matches Ok(t) && t.next == next && t.events@
                    == events && t.action == action && final(self).spec_state() == next
                    && final(self).spec_config() == (RestoreConfig {
                        has_started: old(self).spec_config().has_started || next == State::Running,
                        ..old(self).spec_config()
                    }),
                None => r matches Err(e) && e == Error::InvalidState && final(self).spec_state()
                    == old(self).spec_state() && final(self).spec_config() == old(self).spec_config(),
            },
            final(self).spec_uuid() == old(self).spec_uuid(),
            final(self).spec_paths() == old(self).spec_paths(),
            final(self).manifest() == old(self).manifest(),
            final(self).spec_creation_time() == old(self).spec_creation_time(),
    {
        let r = next_lifecycle(self.state, event, self.config.restart_on_crash);
        if let Ok(t) = &r {
            self.state = t.next;
            if t.next == State::Running {
                self.config.has_started = true;
            }
        }
        r
    }

    /// The value of well-known setting `key`: `Ok(None)` for a backup period
    /// that is off; settings a Bedrock instance does not have, or whose value
    /// a configurable value cannot hold, are unsupported.
    pub fn get_instance_setting(&self, key: InstanceSetting) -> (r: Result<
        Option<ConfigurableValue>,
        Error,
    >)
        ensures
            match key {
                InstanceSetting::Uuid => r matches Ok(Some(ConfigurableValue::String(s))) && s@
                    == self.spec_uuid(),
                InstanceSetting::Path => r matches Ok(Some(ConfigurableValue::String(s))) && s@
                    == self.spec_paths().0,
                InstanceSetting::Name => r == Ok::<Option<ConfigurableValue>, Error>(
                    Some(ConfigurableValue::String(self.spec_config().name)),
                ),
                InstanceSetting::Description => r == Ok::<Option<ConfigurableValue>, Error>(
                    Some(ConfigurableValue::String(self.spec_config().description)),
                ),
                InstanceSetting::Port => r == Ok::<Option<ConfigurableValue>, Error>(
                    Some(ConfigurableValue::UnsignedInteger(self.spec_config().port)),
                ),
                InstanceSetting::AutoStart => r == Ok::<Option<ConfigurableValue>, Error>(
                    Some(ConfigurableValue::Boolean(self.spec_config().auto_start)),
                ),
                InstanceSetting::RestartOnCrash => r == Ok::<Option<ConfigurableValue>, Error>(
                    Some(ConfigurableValue::Boolean(self.spec_config().restart_on_crash)),
                ),
                InstanceSetting::BackupPeriod => r == Ok::<Option<ConfigurableValue>, Error>(
                    match self.spec_config().backup_period {
                        Some(p) => Some(ConfigurableValue::UnsignedInteger(p)),
                        None => None,
                    },
                ),
                _ => r == Err::<Option<ConfigurableValue>, Error>(Error::UnsupportedSetting),
            },
    {
        match key {
            InstanceSetting::Uuid => Ok(Some(ConfigurableValue::String(self.uuid.clone()))),
            InstanceSetting::Path => Ok(Some(ConfigurableValue::String(self.path_to_instance.clone()))),
            InstanceSetting::Name => Ok(Some(ConfigurableValue::String(self.config.name.clone()))),
            InstanceSetting::Description => Ok(
                Some(ConfigurableValue::String(self.config.description.clone())),
            ),
            InstanceSetting::Port => Ok(Some(ConfigurableValue::UnsignedInteger(self.config.port))),
            InstanceSetting::AutoStart => Ok(Some(ConfigurableValue::Boolean(self.config.auto_start))),
            InstanceSetting::RestartOnCrash => Ok(
                Some(ConfigurableValue::Boolean(self.config.restart_on_crash)),
            ),
            InstanceSetting::BackupPeriod => match self.config.backup_period {
                Some(p) => Ok(Some(ConfigurableValue::UnsignedInteger(p))),
                None => Ok(None),
            },
            _ => Err(Error::UnsupportedSetting),
        }
    }

    /// Sets well-known setting `key`; a change of backup period comes back as
    /// the instruction to send to the backup scheduler.
    pub fn set_instance_setting(&mut self, key: InstanceSetting, value: Option<ConfigurableValue>) -> (r:
        Result<Option<BackupInstruction>, Error>)
        ensures
            instance_setting_verdict(key, value) matches Err(e) ==> r == Err::<
                Option<BackupInstruction>,
                Error,
            >(e) && final(self).spec_config() == old(self).spec_config(),
            instance_setting_verdict(key, value) is Ok ==> r is Ok && final(self).spec_config()
                == config_with_setting(old(self).spec_config(), key, value),
            r matches Ok(instruction) ==> instruction == if key == InstanceSetting::BackupPeriod {
                Some(BackupInstruction::SetPeriod(final(self).spec_config().backup_period))
            } else {
                None::<BackupInstruction>
            },
            final(self).spec_state() == old(self).spec_state(),
            final(self).spec_uuid() == old(self).spec_uuid(),
            final(self).spec_paths() == old(self).spec_paths(),
            final(self).manifest() == old(self).manifest(),
            final(self).spec_creation_time() == old(self).spec_creation_time(),
    {
        let expected = match key {
            InstanceSetting::Name => ValueKind::String,
            InstanceSetting::Description => ValueKind::String,
            InstanceSetting::Port => ValueKind::UnsignedInteger,
            InstanceSetting::AutoStart => ValueKind::Boolean,
            InstanceSetting::RestartOnCrash => ValueKind::Boolean,
            InstanceSetting::BackupPeriod => ValueKind::UnsignedInteger,
            _ => {
                return Err(Error::UnsupportedSetting);
            },
        };
        match value {
            None => {
                if key == InstanceSetting::BackupPeriod {
                    self.config.backup_period = None;
                    Ok(Some(BackupInstruction::SetPeriod(None)))
                } else {
                    Err(Error::RequiredValueMissing)
                }
            },
            Some(v) => {
                let found = v.kind();
                if found != expected {
                    return Err(Error::TypeMismatch { expected, found });
                }
                match (key, v) {
                    (InstanceSetting::Name, ConfigurableValue::String(s)) => {
                        self.config.name = s;
                        Ok(None)
                    },
                    (InstanceSetting::Description, ConfigurableValue::String(s)) => {
                        self.config.description = s;
                        Ok(None)
                    },
                    (InstanceSetting::Port, ConfigurableValue::UnsignedInteger(n)) => {
                        self.config.port = n;
                        Ok(None)
                    },
                    (InstanceSetting::AutoStart, ConfigurableValue::Boolean(b)) => {
                        self.config.auto_start = b;
                        Ok(None)
                    },
                    (InstanceSetting::RestartOnCrash, ConfigurableValue::Boolean(b)) => {
                        self.config.restart_on_crash = b;
                        Ok(None)
                    },
                    (InstanceSetting::BackupPeriod, ConfigurableValue::UnsignedInteger(n)) => {
                        self.config.backup_period = Some(n);
                        Ok(Some(BackupInstruction::SetPeriod(Some(n))))
                    },
                    _ => Ok(None),
                }
            },
        }
    }

    /// Sets a game-specific setting of the registry by section and id, as
    /// `ConfigurableManifest::set_setting_value` does.
    pub fn set_field(
        &mut self,
        section_id: &str,
        setting_id: &str,
        value: Option<ConfigurableValue>,
    ) -> (r: Result<(), Error>)
        requires
            old(self).wf(),
        ensures
            final(self).wf(),
            !crate::manifest::has_section(old(self).manifest()@, section_id@) ==> r == Err::<(), Error>(
                Error::SectionNotFound,
            ) && final(self).manifest()@ == old(self).manifest()@,
            crate::manifest::has_section(old(self).manifest()@, section_id@) ==> {
                let i = crate::manifest::section_index(old(self).manifest()@, section_id@);
                &&& crate::manifest::only_section_changed(old(self).manifest()@, final(self).manifest()@, i)
                &&& crate::manifest::optional_update_is(
                    old(self).manifest()@[i]@,
                    final(self).manifest()@[i]@,
                    setting_id@,
                    value,
                    r,
                )
            },
            final(self).spec_config() == old(self).spec_config(),
            final(self).spec_state() == old(self).spec_state(),
    {
        self.configurable_manifest.set_setting_value(section_id, setting_id, value)
    }

    /// The text of the properties file, written from the properties section
    /// in its stored order; `None` when a property has no text.
    pub fn properties_text(&self) -> (r: Option<String>)
        requires
            self.wf(),
        ensures
            match self.manifest().get_section_spec(properties_section_id()) {
                Some(s) => match r {
                    Some(t) => crate::properties::properties_text(s@) == Some(t@),
                    None => crate::properties::properties_text(s@) is None,
                },
                None => r is None,
            },
    {
        proof {
            reveal_strlit("server_properties");
        }
        match self.configurable_manifest.get_section("server_properties") {
            Some(section) => crate::properties::write_properties(section.all_settings()),
            None => None,
        }
    }
}

} // verus!
