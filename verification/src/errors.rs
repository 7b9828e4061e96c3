use vstd::prelude::*;

verus! {

/// General bot errors surfaced to the adapter.
#[derive(Debug)]
pub enum BotError {
    Config(String),
    Network(String),
    Auth(String),
    Parse(String),
    Storage(StorageError),
    Command(CommandError),
    Plugin(String),
    RateLimited(String),
    PermissionDenied(String),
    NotFound(String),
    Internal(String),
}

/// Command execution errors.
#[derive(Debug)]
pub enum CommandError {
    NotFound(String),
    InvalidArgs(String),
    ExecutionFailed(String),
    PermissionDenied,
}

/// Storage errors.
#[derive(Debug)]
pub enum StorageError {
    Io(String),
    Serialization(String),
    NotFound(String),
}

/// Configuration errors.
#[derive(Debug)]
pub enum ConfigError {
    MissingField(String),
    InvalidValue(String),
    Parse(String),
}

impl CommandError {
    /// The error rendered as text.
    pub fn message(&self) -> (r: String)
        ensures
            r@ == self.message_spec(),
    {
        match self {
            CommandError::NotFound(s) => {
                let mut m = String::from_str("Command not found: ");
                m.append(s.as_str());
                m
            },
            CommandError::InvalidArgs(s) => {
                let mut m = String::from_str("Invalid arguments: ");
                m.append(s.as_str());
                m
            },
            CommandError::ExecutionFailed(s) => {
                let mut m = String::from_str("Execution failed: ");
                m.append(s.as_str());
                m
            },
            CommandError::PermissionDenied => String::from_str("Permission denied"),
        }
    }

    pub open spec fn message_spec(&self) -> Seq<char> {
        match self {
            CommandError::NotFound(s) => "Command not found: "@ + s@,
            CommandError::InvalidArgs(s) => "Invalid arguments: "@ + s@,
            CommandError::ExecutionFailed(s) => "Execution failed: "@ + s@,
            CommandError::PermissionDenied => "Permission denied"@,
        }
    }
}

impl BotError {
    /// The error rendered as text.
    pub fn message(&self) -> (r: String)
        ensures
            r@ == self.message_spec(),
    {
        match self {
            BotError::Config(s) => {
                let mut m = String::from_str("Configuration error: ");
                m.append(s.as_str());
                m
            },
            BotError::Network(s) => {
                let mut m = String::from_str("Network error: ");
                m.append(s.as_str());
                m
            },
            BotError::Auth(s) => {
                let mut m = String::from_str("Authentication error: ");
                m.append(s.as_str());
                m
            },
            BotError::Parse(s) => {
                let mut m = String::from_str("Parse error: ");
                m.append(s.as_str());
                m
            },
            BotError::Storage(e) => {
                let mut m = String::from_str("Storage error: ");
                let inner = e.message();
                m.append(inner.as_str());
                m
            },
            BotError::Command(e) => {
                let mut m = String::from_str("Command error: ");
                let inner = e.message();
                m.append(inner.as_str());
                m
            },
            BotError::Plugin(s) => {
                let mut m = String::from_str("Plugin error: ");
                m.append(s.as_str());
                m
            },
            BotError::RateLimited(s) => {
                let mut m = String::from_str("Rate limited: ");
                m.append(s.as_str());
                m
            },
            BotError::PermissionDenied(s) => {
                let mut m = String::from_str("Permission denied: ");
                m.append(s.as_str());
                m
            },
            BotError::NotFound(s) => {
                let mut m = String::from_str("Not found: ");
                m.append(s.as_str());
                m
            },
            BotError::Internal(s) => {
                let mut m = String::from_str("Internal error: ");
                m.append(s.as_str());
                m
            },
        }
    }

    pub open spec fn message_spec(&self) -> Seq<char> {
        match self {
            BotError::Config(s) => "Configuration error: "@ + s@,
            BotError::Network(s) => "Network error: "@ + s@,
            BotError::Auth(s) => "Authentication error: "@ + s@,
            BotError::Parse(s) => "Parse error: "@ + s@,
            BotError::Storage(e) => "Storage error: "@ + e.message_spec(),
            BotError::Command(e) => "Command error: "@ + e.message_spec(),
            BotError::Plugin(s) => "Plugin error: "@ + s@,
            BotError::RateLimited(s) => "Rate limited: "@ + s@,
            BotError::PermissionDenied(s) => "Permission denied: "@ + s@,
            BotError::NotFound(s) => "Not found: "@ + s@,
            BotError::Internal(s) => "Internal error: "@ + s@,
        }
    }
}

impl StorageError {
    pub fn message(&self) -> (r: String)
        ensures
            r@ == self.message_spec(),
    {
        match self {
            StorageError::Io(s) => {
                let mut m = String::from_str("IO error: ");
                m.append(s.as_str());
                m
            },
            StorageError::Serialization(s) => {
                let mut m = String::from_str("Serialization error: ");
                m.append(s.as_str());
                m
            },
            StorageError::NotFound(s) => {
                let mut m = String::from_str("Not found: ");
                m.append(s.as_str());
                m
            },
        }
    }

    pub open spec fn message_spec(&self) -> Seq<char> {
        match self {
            StorageError::Io(s) => "IO error: "@ + s@,
            StorageError::Serialization(s) => "Serialization error: "@ + s@,
            StorageError::NotFound(s) => "Not found: "@ + s@,
        }
    }
}

impl ConfigError {
    pub fn message(&self) -> (r: String)
        ensures
            r@ == self.message_spec(),
    {
        match self {
            ConfigError::MissingField(s) => {
                let mut m = String::from_str("Missing required field: ");
                m.append(s.as_str());
                m
            },
            ConfigError::InvalidValue(s) => {
                let mut m = String::from_str("Invalid value: ");
                m.append(s.as_str());
                m
            },
            ConfigError::Parse(s) => {
                let mut m = String::from_str("Parse error: ");
                m.append(s.as_str());
                m
            },
        }
    }

    pub open spec fn message_spec(&self) -> Seq<char> {
        match self {
            ConfigError::MissingField(s) => "Missing required field: "@ + s@,
            ConfigError::InvalidValue(s) => "Invalid value: "@ + s@,
            ConfigError::Parse(s) => "Parse error: "@ + s@,
        }
    }
}

} // verus!
