use vstd::prelude::*;

verus! {

/// Permission tags a plugin can request.
pub enum Permission {
    ReadMessages,
    SendMessages,
    ManageCommands,
    FileSystem,
    Http,
    EnvVars,
    LoadPlugins,
}

impl Permission {
    pub open spec fn label_spec(&self) -> Seq<char> {
        match self {
            Permission::ReadMessages => "read-messages"@,
            Permission::SendMessages => "send-messages"@,
            Permission::ManageCommands => "manage-commands"@,
            Permission::FileSystem => "filesystem"@,
            Permission::Http => "http"@,
            Permission::EnvVars => "env-vars"@,
            Permission::LoadPlugins => "load-plugins"@,
        }
    }

    pub fn as_str(&self) -> (r: &str)
        ensures
            r@ == self.label_spec(),
    {
        match self {
            Permission::ReadMessages => "read-messages",
            Permission::SendMessages => "send-messages",
            Permission::ManageCommands => "manage-commands",
            Permission::FileSystem => "filesystem",
            Permission::Http => "http",
            Permission::EnvVars => "env-vars",
            Permission::LoadPlugins => "load-plugins",
        }
    }
}

/// Plugin metadata as declared in a manifest file; reading the file belongs
/// to the host program.
pub struct PluginManifest {
    pub name: String,
    pub version: String,
    pub description: Option<String>,
    pub author: Option<String>,
    pub library: Option<String>,
    pub permissions: Vec<Permission>,
    pub dependencies: Vec<String>,
    pub min_bot_version: Option<String>,
}

/// Configuration for a Model Context Protocol plugin.
pub struct McpPluginConfig {
    pub name: String,
    pub server_url: Option<String>,
    pub tools: Vec<String>,
}

/// Configuration for an agent-to-agent plugin.
pub struct A2APluginConfig {
    pub name: String,
    pub endpoint: String,
    pub capabilities: Vec<String>,
}

/// Summary of a loaded plugin for listings.
pub struct PluginInfo {
    pub name: String,
    pub description: String,
    pub metadata: Vec<(String, String)>,
}

/// One plugin execution's outcome.
pub struct PluginResult {
    pub success: bool,
    pub output: String,
    pub error: Option<String>,
}

impl PluginResult {
    pub fn success(output: &str) -> (r: PluginResult)
        ensures
            r.success,
            r.output@ == output@,
            r.error is None,
    {
        PluginResult { success: true, output: String::from_str(output), error: None }
    }

    pub fn error(msg: &str) -> (r: PluginResult)
        ensures
            !r.success,
            r.output@ == Seq::<char>::empty(),
            r.error matches Some(e) && e@ == msg@,
    {
        PluginResult { success: false, output: String::new(), error: Some(String::from_str(msg)) }
    }
}

/// An agent-to-agent plugin: configured but not yet backed by a transport,
/// so every execution reports that.
pub struct A2AAgent {
    pub name: String,
    pub config: A2APluginConfig,
}

impl A2AAgent {
    pub fn new(name: &str, config: A2APluginConfig) -> (r: A2AAgent)
        ensures
            r.name@ == name@,
            r.config == config,
    {
        A2AAgent { name: String::from_str(name), config }
    }

    /// Always declines: agent communication has no transport yet.
    pub fn execute(&self, _args: &str) -> (r: Result<String, String>)
        ensures
            r matches Err(e) && e@ == "A2A agents not yet implemented (Phase 3)"@,
    {
        Err(String::from_str("A2A agents not yet implemented (Phase 3)"))
    }
}

/// A Model Context Protocol plugin: configured but not yet backed by a
/// server connection, so every execution reports that.
pub struct McpPlugin {
    pub name: String,
    pub config: McpPluginConfig,
}

impl McpPlugin {
    pub fn new(name: &str, config: McpPluginConfig) -> (r: McpPlugin)
        ensures
            r.name@ == name@,
            r.config == config,
    {
        McpPlugin { name: String::from_str(name), config }
    }

    /// Always declines: no server connection exists yet.
    pub fn execute(&self, _args: &str) -> (r: Result<String, String>)
        ensures
            r matches Err(e) && e@ == "MCP plugins not yet implemented (Phase 2)"@,
    {
        Err(String::from_str("MCP plugins not yet implemented (Phase 2)"))
    }
}

} // verus!
