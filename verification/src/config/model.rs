//! The shape of `config.toml`. Everything here is safe to commit to a dotfiles repo;
//! secrets live in `secrets.toml` next to it.

use vstd::prelude::*;

verus! {

#[derive(Debug, Clone)]
pub struct Config {
    pub version: u32,
    /// Contact put into the User-Agent, as Modrinth's API terms ask for.
    pub contact: Option<String>,
    pub mcsmanager: McsmConfig,
    /// The `servers` table: servers that no panel manages.
    pub manual_servers: Vec<ManualServer>,
    pub sources: SourcesConfig,
    pub backup: BackupConfig,
}

impl Default for Config {
    fn default() -> (r: Config)
        ensures
            r.version == 1,
            r.contact is None,
            r.mcsmanager.is_default(),
            r.manual_servers@.len() == 0,
            r.sources.modrinth && r.sources.hangar && r.sources.github && r.sources.geysermc,
            r.backup.mcbackup@ == "auto"@,
    {
        Config {
            version: 1,
            contact: None,
            mcsmanager: McsmConfig::default(),
            manual_servers: Vec::new(),
            sources: SourcesConfig::default(),
            backup: BackupConfig::default(),
        }
    }
}

#[derive(Debug, Clone)]
pub struct McsmConfig {
    pub enabled: bool,
    pub url: String,
    /// Where the MCSManager daemon keeps one JSON file per instance.
    pub instance_config_dir: String,
    /// Instance nicknames or uuids to skip.
    pub ignore: Vec<String>,
    /// Optional `KEY=VALUE` file to read `MCSM_APIKEY` from when secrets.toml has none.
    pub api_key_env_file: Option<String>,
}

impl McsmConfig {
    /// The panel settings of a stock MCSManager install.
    pub open spec fn is_default(&self) -> bool {
        &&& self.enabled
        &&& self.url@ == "http://127.0.0.1:23333"@
        &&& self.instance_config_dir@ == "/opt/mcsmanager/daemon/data/InstanceConfig"@
        &&& self.ignore@.len() == 1
        &&& self.ignore@[0]@ == "__MCSM_GLOBAL_INSTANCE__"@
        &&& self.api_key_env_file matches Some(f) && f@ == "/opt/mcbackup/env"@
    }
}

impl Default for McsmConfig {
    fn default() -> (r: McsmConfig)
        ensures
            r.is_default(),
    {
        let mut ignore: Vec<String> = Vec::new();
        ignore.push(String::from_str("__MCSM_GLOBAL_INSTANCE__"));
        McsmConfig {
            enabled: true,
            url: String::from_str("http://127.0.0.1:23333"),
            instance_config_dir: String::from_str("/opt/mcsmanager/daemon/data/InstanceConfig"),
            ignore,
            api_key_env_file: Some(String::from_str("/opt/mcbackup/env")),
        }
    }
}

/// A server that no panel manages: a directory, plus how to talk to it.
#[derive(Debug, Clone)]
pub struct ManualServer {
    pub id: String,
    pub name: String,
    pub path: String,
    /// Start command, used to find the server jar and the java binary. When absent the
    /// single `*.jar` in `path` is used.
    pub start_command: Option<String>,
    pub ping_port: Option<u16>,
    pub control: ControlConfig,
    /// mcbackup source name; defaults to the slug of `name`.
    pub backup_slug: Option<String>,
}

/// How mcplug talks to a server that no panel manages.
#[derive(Debug, Clone)]
pub enum ControlConfig {
    /// No way to talk to the server: updates are staged, restarts are the user's job.
    Absent,
    Rcon {
        host: String,
        port: u16,
        /// Key in the `[rcon]` table of secrets.toml.
        password_ref: String,
        restart_command: Option<String>,
    },
    Command { restart_command: String },
}

impl Default for ControlConfig {
    fn default() -> (r: ControlConfig)
        ensures
            r is Absent,
    {
        ControlConfig::Absent
    }
}

impl ControlConfig {
    pub fn copy(&self) -> (r: ControlConfig)
        ensures
            r.same(*self),
    {
        match self {
            ControlConfig::Absent => ControlConfig::Absent,
            ControlConfig::Rcon { host, port, password_ref, restart_command } => ControlConfig::Rcon {
                host: host.clone(),
                port: *port,
                password_ref: password_ref.clone(),
                restart_command: crate::text::clone_opt_string(restart_command),
            },
            ControlConfig::Command { restart_command } => ControlConfig::Command { restart_command: restart_command.clone() },
        }
    }

    /// Equal field by field, strings by their characters.
    pub open spec fn same(&self, o: ControlConfig) -> bool {
        match (*self, o) {
            (ControlConfig::Absent, ControlConfig::Absent) => true,
            (ControlConfig::Rcon { host: h1, port: p1, password_ref: w1, restart_command: r1 },
             ControlConfig::Rcon { host: h2, port: p2, password_ref: w2, restart_command: r2 }) =>
                h1@ == h2@ && p1 == p2 && w1@ == w2@ && crate::text::opt_view(r1) == crate::text::opt_view(r2),
            (ControlConfig::Command { restart_command: c1 }, ControlConfig::Command { restart_command: c2 }) => c1@ == c2@,
            _ => false,
        }
    }
}

/// The RCON host used when the config names none.
pub fn localhost() -> (r: String)
    ensures
        r@ == "127.0.0.1"@,
{
    String::from_str("127.0.0.1")
}

/// Which plugin sources are consulted.
#[derive(Debug, Clone)]
pub struct SourcesConfig {
    pub modrinth: bool,
    pub hangar: bool,
    pub github: bool,
    pub geysermc: bool,
}

impl Default for SourcesConfig {
    fn default() -> (r: SourcesConfig)
        ensures
            r.modrinth && r.hangar && r.github && r.geysermc,
    {
        SourcesConfig { modrinth: true, hangar: true, github: true, geysermc: true }
    }
}

#[derive(Debug, Clone)]
pub struct BackupConfig {
    /// `"auto"` (use `mcbackup` if it is installed), `"off"`, or a path.
    pub mcbackup: String,
}

impl Default for BackupConfig {
    fn default() -> (r: BackupConfig)
        ensures
            r.mcbackup@ == "auto"@,
    {
        BackupConfig { mcbackup: String::from_str("auto") }
    }
}

} // verus!
