use vstd::prelude::*;

verus! {

/// How an automatic restart is triggered.
#[derive(Debug, Clone, Copy, PartialEq, Eq, Structural)]
pub enum RestartType {
    /// Restart once a fixed number of seconds has passed since the last start.
    Interval,
    /// Restart at a daily wall-clock time in a named time zone.
    Schedule,
}

impl RestartType {
    /// The policy a record gets when none is stored.
    pub fn default_policy() -> (r: RestartType)
        ensures
            r == RestartType::Interval,
    {
        RestartType::Interval
    }
}

/// The server software a record runs; new variants only touch launch planning
/// and plugin placement.
#[derive(Debug, Clone, Copy, PartialEq, Eq, Structural)]
pub enum ServerType {
    Vanilla,
    Paper,
    Spigot,
    Forge,
    Fabric,
    Mohist,
    Taiyitist,
    Purpur,
    Banner,
    BungeeCord,
    Velocity,
    Waterfall,
}

/// Declared lifecycle status of a server.
#[derive(Debug, Clone, Copy, PartialEq, Eq, Structural)]
pub enum ServerStatus {
    Stopped,
    Starting,
    Running,
    Stopping,
}

/// The server type that a creation request names: "vanilla", "paper",
/// "spigot", "forge", "mohist" or "banner".
pub open spec fn server_type_named(s: Seq<char>) -> Option<ServerType> {
    if s == "vanilla"@ {
        Some(ServerType::Vanilla)
    } else if s == "paper"@ {
        Some(ServerType::Paper)
    } else if s == "spigot"@ {
        Some(ServerType::Spigot)
    } else if s == "forge"@ {
        Some(ServerType::Forge)
    } else if s == "mohist"@ {
        Some(ServerType::Mohist)
    } else if s == "banner"@ {
        Some(ServerType::Banner)
    } else {
        None
    }
}

/// Reads the server type of a creation request; `None` for any other name.
pub fn server_type_from_name(name: &str) -> (r: Option<ServerType>)
    ensures
        r == server_type_named(name@),
{
    let s = String::from_str(name);
    if s == String::from_str("vanilla") {
        Some(ServerType::Vanilla)
    } else if s == String::from_str("paper") {
        Some(ServerType::Paper)
    } else if s == String::from_str("spigot") {
        Some(ServerType::Spigot)
    } else if s == String::from_str("forge") {
        Some(ServerType::Forge)
    } else if s == String::from_str("mohist") {
        Some(ServerType::Mohist)
    } else if s == String::from_str("banner") {
        Some(ServerType::Banner)
    } else {
        None
    }
}

/// Durable metadata of one managed server.
#[derive(Debug, Clone)]
pub struct ServerInfo {
    pub id: String,
    pub name: String,
    /// Install directory, as text.
    pub path: String,
    pub version: String,
    pub server_type: ServerType,
    pub status: ServerStatus,
    pub pid: Option<u32>,
    pub port: u16,
    pub max_memory: String,
    pub min_memory: String,
    /// Player count for display, e.g. "0/20".
    pub players: String,
    pub auto_restart: bool,
    /// Seconds between automatic restarts under the interval policy.
    pub restart_interval: u64,
    pub restart_type: RestartType,
    /// Daily restart time, "HH:MM".
    pub restart_schedule: Option<String>,
    /// IANA time zone name, e.g. "Asia/Tokyo".
    pub time_zone: Option<String>,
    /// Seconds since the Unix epoch at the last start.
    pub last_start_time: Option<u64>,
}

pub fn copy_text(s: &String) -> (r: String)
    ensures
        r == *s,
{
    s.clone()
}

pub fn copy_opt_text(s: &Option<String>) -> (r: Option<String>)
    ensures
        r == *s,
{
    match s {
        Some(t) => Some(t.clone()),
        None => None,
    }
}

impl ServerInfo {
    /// A field-for-field copy of the record.
    pub fn duplicate(&self) -> (r: ServerInfo)
        ensures
            r == *self,
    {
        ServerInfo {
            id: self.id.clone(),
            name: self.name.clone(),
            path: self.path.clone(),
            version: self.version.clone(),
            server_type: self.server_type,
            status: self.status,
            pid: self.pid,
            port: self.port,
            max_memory: self.max_memory.clone(),
            min_memory: self.min_memory.clone(),
            players: self.players.clone(),
            auto_restart: self.auto_restart,
            restart_interval: self.restart_interval,
            restart_type: self.restart_type,
            restart_schedule: copy_opt_text(&self.restart_schedule),
            time_zone: copy_opt_text(&self.time_zone),
            last_start_time: self.last_start_time,
        }
    }
}

/// Seconds between automatic restarts when a record stores none: one day.
pub fn default_restart_interval() -> (r: u64)
    ensures
        r == 86400,
{
    86400
}

/// Minimum heap when a record stores none.
pub fn default_min_memory() -> (r: String)
    ensures
        r@ == "1G"@,
{
    String::from_str("1G")
}

/// Whether a managed port is active when its entry does not say.
pub fn default_active() -> (r: bool)
    ensures
        r,
{
    true
}

/// An entry of a server's operator list.
#[derive(Debug, Clone)]
pub struct OpEntry {
    pub uuid: String,
    pub name: String,
    pub level: i32,
    pub bypasses_player_limit: bool,
}

/// One hit of a plugin search.
#[derive(Debug, Clone)]
pub struct PluginSearchResult {
    pub id: String,
    pub name: String,
    pub description: String,
    pub author: String,
    pub icon_url: Option<String>,
    /// "Modrinth" or "Spigot".
    pub source: String,
    pub external_url: String,
    pub download_url: Option<String>,
}

/// A backend registered with a proxy server.
#[derive(Debug, Clone)]
pub struct ProxyServerEntry {
    pub name: String,
    pub address: String,
}

/// A router port mapping.
#[derive(Debug, Clone)]
pub struct PortMapping {
    pub external_port: u16,
    pub internal_port: u16,
    pub description: String,
    pub enabled: bool,
}

/// A port slot that the user manages.
#[derive(Debug, Clone)]
pub struct ManagedPort {
    pub slot: u8,
    pub port: u16,
    /// "TCP", "UDP" or "BOTH".
    pub protocol: String,
    pub name: String,
    pub active: bool,
}

/// Application settings as stored.
#[derive(Debug, Clone)]
pub struct AppConfig {
    pub servers: Vec<ServerInfo>,
    pub base_path: String,
    pub auto_open_ports: bool,
}

impl AppConfig {
    /// Settings with no servers, installing under `base_path`, with ports
    /// opened automatically.
    pub fn new(base_path: String) -> (r: AppConfig)
        ensures
            r.servers@.len() == 0,
            r.base_path == base_path,
            r.auto_open_ports,
    {
        AppConfig { servers: Vec::new(), base_path, auto_open_ports: true }
    }
}

/// State of the tunnel that exposes a server to the internet.
#[derive(Debug, Clone, PartialEq, Eq)]
pub enum BridgeStatus {
    /// Not started.
    Stopped,
    /// Fetching the tunnel program.
    Downloading,
    /// Starting up.
    Starting,
    /// Running, with no address yet.
    Running,
    /// Connected, with the public address.
    Connected(String),
    /// Failed, with the line that reported it.
    Error(String),
}

} // verus!
