use vstd::prelude::*;
use crate::text;

verus! {

/// Does some element of `users` spell exactly `user_id`?
pub open spec fn lists_user(users: Seq<String>, user_id: Seq<char>) -> bool {
    exists|i: int| 0 <= i < users.len() && users[i]@ == user_id
}

pub struct BotConfig {
    pub name: String,
    pub prefix: String,
}

pub struct PluginConfig {
    pub directory: String,
    pub auto_load: bool,
}

pub struct RateLimitConfig {
    pub max_requests: u32,
    pub window_seconds: u64,
}

pub struct SandboxConfig {
    pub enabled: bool,
    pub memory_mb: Option<u32>,
}

pub struct AuditConfig {
    pub enabled: bool,
    pub path: Option<String>,
}

pub struct SecurityConfig {
    pub rate_limit: RateLimitConfig,
    pub sandbox: SandboxConfig,
    pub audit: AuditConfig,
}

/// Access control: when enabled, only the listed users pass.
pub struct WhitelistConfig {
    pub enabled: bool,
    pub users: Vec<String>,
}

/// Guest access: requests wait in `pending` until approved.
pub struct GuestsConfig {
    pub enabled: bool,
    pub pending: Vec<String>,
    pub approved: Vec<String>,
}

pub struct TelegramConfig {
    pub enabled: bool,
    pub token: Option<String>,
}

pub struct ConsoleConfig {
    pub enabled: bool,
}

pub struct AdaptersConfig {
    pub telegram: Option<TelegramConfig>,
    pub console: Option<ConsoleConfig>,
}

/// Bot configuration, read once at startup. Loading it from a file or the
/// environment belongs to the host program.
pub struct Config {
    pub bot: BotConfig,
    pub plugins: PluginConfig,
    pub security: SecurityConfig,
    pub adapters: AdaptersConfig,
    pub whitelist: WhitelistConfig,
    pub guests: GuestsConfig,
}

impl Config {
    /// A user passes the whitelist when it is disabled or lists them.
    pub fn is_user_whitelisted(&self, user_id: &str) -> (r: bool)
        ensures
            r == (!self.whitelist.enabled || lists_user(self.whitelist.users@, user_id@)),
    {
        if !self.whitelist.enabled {
            return true;
        }
        contains_user(&self.whitelist.users, user_id)
    }
}

/// Does the list contain exactly this user id?
pub fn contains_user(users: &Vec<String>, user_id: &str) -> (r: bool)
    ensures
        r == lists_user(users@, user_id@),
{
    let uv = text::chars_of(user_id);
    let n: usize = users.len();
    let mut i: usize = 0;
    while i < n
        invariant
            i <= n,
            n == users@.len(),
            uv@ == user_id@,
            forall|m: int| 0 <= m < i ==> users@[m]@ != user_id@,
        decreases n - i,
    {
        let ev = text::chars_of(users[i].as_str());
        if text::eq_chars(&ev, &uv) {
            return true;
        }
        i = i + 1;
    }
    false
}

/// May this user run the privileged commands? Whitelisted users always may;
/// otherwise an approved guest may, when guest access is enabled.
pub fn can_use_privileged(config: &Config, user_id: &str) -> (r: bool)
    ensures
        r == ((config.whitelist.enabled && lists_user(config.whitelist.users@, user_id@)) || (
        config.guests.enabled && lists_user(config.guests.approved@, user_id@))),
{
    if config.whitelist.enabled && contains_user(&config.whitelist.users, user_id) {
        return true;
    }
    if config.guests.enabled && contains_user(&config.guests.approved, user_id) {
        return true;
    }
    false
}

impl Default for Config {
    /// The default configuration the generated config file starts from.
    fn default() -> (r: Config)
        ensures
            r.bot.name@ == "carik-bot"@,
            r.bot.prefix@ == "/"@,
            r.plugins.directory@ == "./plugins"@,
            r.plugins.auto_load,
            r.security.rate_limit.max_requests == 20,
            r.security.rate_limit.window_seconds == 60,
            r.security.sandbox.enabled,
            r.security.sandbox.memory_mb == Some(256u32),
            r.security.audit.enabled,
            r.security.audit.path matches Some(p) && p@ == "logs/audit.log"@,
            r.adapters.telegram matches Some(t) && !t.enabled && t.token is None,
            r.adapters.console matches Some(c) && c.enabled,
            r.whitelist.enabled,
            r.whitelist.users@.len() == 1 && r.whitelist.users@[0]@ == "6504720757"@,
            !r.guests.enabled,
            r.guests.pending@.len() == 0,
            r.guests.approved@.len() == 0,
    {
        let mut users: Vec<String> = Vec::new();
        users.push(String::from_str("6504720757"));
        Config {
            bot: BotConfig { name: String::from_str("carik-bot"), prefix: String::from_str("/") },
            plugins: PluginConfig { directory: String::from_str("./plugins"), auto_load: true },
            security: SecurityConfig {
                rate_limit: RateLimitConfig { max_requests: 20, window_seconds: 60 },
                sandbox: SandboxConfig { enabled: true, memory_mb: Some(256) },
                audit: AuditConfig {
                    enabled: true,
                    path: Some(String::from_str("logs/audit.log")),
                },
            },
            adapters: AdaptersConfig {
                telegram: Some(TelegramConfig { enabled: false, token: None }),
                console: Some(ConsoleConfig { enabled: true }),
            },
            whitelist: WhitelistConfig { enabled: true, users },
            guests: GuestsConfig { enabled: false, pending: Vec::new(), approved: Vec::new() },
        }
    }
}

} // verus!
