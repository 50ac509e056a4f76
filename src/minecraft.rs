use vstd::prelude::*;

use crate::error::Error;
use crate::files::{join_path, child_path};

verus! {

/// The server software a Java-edition instance runs.
#[derive(Clone, Copy, Debug, PartialEq, Eq, Structural)]
pub enum Flavour {
    Vanilla,
    Fabric,
    Paper,
    Spigot,
}

pub open spec fn flavour_name(f: Flavour) -> Seq<char> {
    match f {
        Flavour::Vanilla => "vanilla"@,
        Flavour::Fabric => "fabric"@,
        Flavour::Paper => "paper"@,
        Flavour::Spigot => "spigot"@,
    }
}

/// The flavour whose lower-case name is `s`, if any.
pub open spec fn flavour_named(s: Seq<char>) -> Option<Flavour> {
    if s == "vanilla"@ {
        Some(Flavour::Vanilla)
    } else if s == "fabric"@ {
        Some(Flavour::Fabric)
    } else if s == "paper"@ {
        Some(Flavour::Paper)
    } else if s == "spigot"@ {
        Some(Flavour::Spigot)
    } else {
        None
    }
}

/// The lower-case form of a text, by Unicode's rules.
pub uninterp spec fn lowercase_of(s: Seq<char>) -> Seq<char>;

/// Relies on str::to_lowercase: the result depends on the characters alone.
#[verifier::external_body]
fn lowercase(s: &str) -> (r: String)
    ensures
        r@ == lowercase_of(s@),
{
    s.to_lowercase()
}

impl Flavour {
    /// The lower-case name of this flavour.
    pub fn to_string(&self) -> (r: String)
        ensures
            r@ == flavour_name(*self),
    {
        match self {
            Flavour::Vanilla => String::from_str("vanilla"),
            Flavour::Fabric => String::from_str("fabric"),
            Flavour::Paper => String::from_str("paper"),
            Flavour::Spigot => String::from_str("spigot"),
        }
    }

    /// The flavour named by an already lower-cased text.
    pub fn from_lowercase_name(name: &str) -> (r: Option<Flavour>)
        ensures
            r == flavour_named(name@),
    {
        let s = String::from_str(name);
        if s == String::from_str("vanilla") {
            Some(Flavour::Vanilla)
        } else if s == String::from_str("fabric") {
            Some(Flavour::Fabric)
        } else if s == String::from_str("paper") {
            Some(Flavour::Paper)
        } else if s == String::from_str("spigot") {
            Some(Flavour::Spigot)
        } else {
            None
        }
    }

    /// The flavour named by `name`, in any letter case.
    pub fn from_name(name: &str) -> (r: Option<Flavour>)
        ensures
            r == flavour_named(lowercase_of(name@)),
    {
        let lowered = lowercase(name);
        Flavour::from_lowercase_name(lowered.as_str())
    }
}

/// The persisted configuration of a Java-edition instance.
#[derive(Clone, Debug)]
pub struct Config {
    pub uuid: String,
    pub name: String,
    pub version: String,
    pub fabric_loader_version: Option<String>,
    pub fabric_installer_version: Option<String>,
    pub flavour: Flavour,
    pub description: String,
    pub jvm_args: Vec<String>,
    pub path: String,
    pub port: u32,
    pub min_ram: u32,
    pub max_ram: u32,
    pub creation_time: u64,
    pub auto_start: bool,
    pub restart_on_crash: bool,
    pub timeout_last_left: Option<i32>,
    pub timeout_no_activity: Option<i32>,
    pub start_on_connection: bool,
    pub backup_period: Option<i32>,
}

/// A Java-edition instance: its configuration, the files and directories it
/// lives in, and the settings that can change while it runs.
#[derive(Debug)]
pub struct Instance {
    pub config: Config,
    pub path_to_config: String,
    pub path_to_eula: String,
    pub path_to_properties: String,
    pub path_to_macros: String,
    pub path_to_resources: String,
    pub auto_start: bool,
    pub restart_on_crash: bool,
    pub timeout_last_left: Option<i32>,
    pub timeout_no_activity: Option<i32>,
    pub start_on_connection: bool,
    pub backup_period: Option<i32>,
}

/// The text of the EULA acceptance file written for a new instance.
pub open spec fn eula_text() -> Seq<char> {
    "#generated by Lodestone\neula=true"@
}

/// The EULA acceptance file's content.
pub fn eula_contents() -> (r: String)
    ensures
        r@ == eula_text(),
{
    String::from_str("#generated by Lodestone\neula=true")
}

impl Instance {
    /// Whether `i` is the instance that `restore` builds from `config`.
    pub open spec fn restored_from(i: Instance, config: Config) -> bool {
        let root = config.path@;
        &&& i.config == config
        &&& i.path_to_config@ == child_path(root, ".lodestone_config"@)
        &&& i.path_to_eula@ == child_path(root, "eula.txt"@)
        &&& i.path_to_macros@ == child_path(root, "macros"@)
        &&& i.path_to_resources@ == child_path(root, "resources"@)
        &&& i.path_to_properties@ == child_path(root, "server.properties"@)
        &&& i.auto_start == config.auto_start
        &&& i.restart_on_crash == config.restart_on_crash
        &&& i.timeout_last_left == config.timeout_last_left
        &&& i.timeout_no_activity == config.timeout_no_activity
        &&& i.start_on_connection == config.start_on_connection
        &&& i.backup_period == config.backup_period
    }

    /// The instance described by an existing configuration; its files are
    /// where the configuration's path says.
    pub fn restore(config: Config) -> (r: Result<Instance, Error>)
        ensures
            r matches Ok(i) && Instance::restored_from(i, config),
    {
        let path_to_config = join_path(config.path.as_str(), ".lodestone_config");
        let path_to_eula = join_path(config.path.as_str(), "eula.txt");
        let path_to_macros = join_path(config.path.as_str(), "macros");
        let path_to_resources = join_path(config.path.as_str(), "resources");
        let path_to_properties = join_path(config.path.as_str(), "server.properties");
        Ok(
            Instance {
                auto_start: config.auto_start,
                restart_on_crash: config.restart_on_crash,
                timeout_last_left: config.timeout_last_left,
                timeout_no_activity: config.timeout_no_activity,
                start_on_connection: config.start_on_connection,
                backup_period: config.backup_period,
                config,
                path_to_config,
                path_to_eula,
                path_to_properties,
                path_to_macros,
                path_to_resources,
            },
        )
    }
}

} // verus!
