//! The messages that the desktop client and the agent exchange.
use vstd::prelude::*;

verus! {

/// The state of a server's container.
#[derive(Clone, Copy, Debug, PartialEq, Eq, Structural)]
pub enum ServerStatus {
    Running,
    Stopped,
    Restarting,
    Missing,
    Unknown,
}

/// One server found under the root folder.
#[derive(Clone, Debug)]
pub struct ServerInfo {
    pub id: String,
    pub display_name: String,
    pub server_type: String,
    pub port: u16,
    pub mc_version: String,
    pub mod_source: String,
    pub status: ServerStatus,
}

/// A file or folder in a listing, with its contents for a folder.
#[derive(Debug)]
pub struct FileNode {
    pub name: String,
    pub is_dir: bool,
    pub path: String,
    pub children: Option<Vec<FileNode>>,
}

/// What the client asks for when it creates a server.
#[derive(Clone, Debug)]
pub struct ServerConfigParams {
    pub display_name: String,
    pub server_type: String,
    pub mc_version: String,
    pub loader_version: Option<String>,
    pub port: u16,
    pub min_ram: String,
    pub max_ram: String,
    pub online_mode: bool,
    pub enforce_secure_profile: bool,
}

/// The cover image of a published modpack.
#[derive(Clone, Debug)]
pub struct PackwizImage {
    pub filename: String,
    pub data_base64: String,
}

/// Which tree a file request is about.
#[derive(Clone, Copy, Debug, PartialEq, Eq, Structural)]
pub enum FileScope {
    Packwiz,
    ServerRoot,
}

/// Where a plugin of a proxy or plugin server is downloaded from.
#[derive(Clone, Copy, Debug, PartialEq, Eq, Structural)]
pub enum PluginSource {
    Modrinth,
    Github,
    Direct,
}

/// One plugin listed in the requirements of a server.
#[derive(Clone, Debug)]
pub struct VelocityPluginEntry {
    pub source: PluginSource,
    pub value: String,
}

/// One mod of a packwiz modpack.
#[derive(Clone, Debug)]
pub struct PackwizMod {
    pub name: String,
    pub filename: String,
    pub toml_path: String,
    pub side: String,
}

/// A request of the client.
#[derive(Clone, Debug)]
pub enum ClientRequest {
    ListServers,
    StartServer { id: String },
    ListPackwizFiles { id: String, scope: FileScope },
    UpdateServer {
        id: String,
        loader_version: Option<String>,
        update_mods: bool,
        update_engine: bool,
        force: bool,
    },
    CreateDirectory { id: String, path: String, scope: FileScope },
    ReadFile { id: String, path: String, scope: FileScope },
    WriteFile { id: String, path: String, content: String, scope: FileScope },
    DeleteFile { id: String, path: String, scope: FileScope },
    SendConsoleCommand { id: String, command: String },
    StopServer { id: String },
    RestartServer { id: String },
    SyncMods { id: String },
    SubscribeLogs { id: String },
    UnsubscribeLogs { id: String },
    DeleteServer { id: String },
    RecreateContainer { id: String },
    StartStack,
    StopStack,
    RestartStack,
    CreateServer { id: String, config: ServerConfigParams },
    AddModPackwiz { id: String, query: String },
    RemoveModPackwiz { id: String, query: String },
    UploadModPackwiz {
        id: String,
        filename: String,
        data_base64: String,
        folder: String,
        scope: FileScope,
    },
    PublishPackwiz { id: String, pack_key: String, image: Option<PackwizImage> },
    UnpublishPackwiz { id: String, pack_key: String },
    ListPackwizMods { id: String },
    AutoUpdateServer { id: String },
    ListVelocityPlugins { id: String },
    AddVelocityPlugin { id: String, source: PluginSource, value: String },
    RemoveVelocityPlugin { id: String, source: PluginSource, value: String },
    SetVelocityMcVersionHint { id: String, mc_version: Option<String> },
    SyncVelocityPlugins { id: String },
    UploadServerIcon { id: String, data_base64: String },
    SetMotd { id: String, motd: String },
    SetPort { id: String, port: u16 },
    SyncPackToServer { id: String },
    SetPublishConfig { ssh_host: Option<String>, remote_base: String, domain: String },
    GetPublishConfig,
    ChangePackwizModSide { id: String, toml_path: String, side: String },
}

/// An event that the agent sends to the client.
#[derive(Debug)]
pub enum ServerEvent {
    Servers { servers: Vec<ServerInfo> },
    ConsoleResponse { id: String, response: String },
    PackwizFilesList { id: String, scope: FileScope, files: Vec<FileNode> },
    FileContent { id: String, path: String, scope: FileScope, content: Option<String> },
    LogLine { id: String, line: String },
    StatusChanged { id: String, status: ServerStatus },
    Ack { ok: bool, message: Option<String> },
    Error { message: String },
    InstallProgress { id: String, step: String, percentage: u8 },
    PackwizLog { id: String, line: String },
    PackwizModsList { id: String, mods: Vec<PackwizMod> },
    VelocityPluginsList { id: String, plugins: Vec<VelocityPluginEntry> },
    PublishConfig { ssh_host: Option<String>, remote_base: String, domain: String },
}

} // verus!
