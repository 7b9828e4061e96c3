use carik_bot::config::{can_use_privileged, Config};
use carik_bot::db::{within_query_limits, UserSettings};
use carik_bot::llm::trim_history;
use carik_bot::plugin::{A2AAgent, A2APluginConfig, Permission, PluginResult};
use carik_bot::{BotError, CommandError, ConfigError, LLMMessage, StorageError};

#[test]
fn test_llm_message_builder() {
    let msg = LLMMessage::user("Hello");
    assert_eq!(msg.role, "user");
    assert_eq!(msg.content, "Hello");

    let system_msg = LLMMessage::system("You are helpful.");
    assert_eq!(system_msg.role, "system");
}

#[test]
fn assistant_messages_carry_their_role() {
    let msg = LLMMessage::assistant("done");
    assert_eq!(msg.role, "assistant");
    assert_eq!(msg.content, "done");
}

#[test]
fn history_is_trimmed_beyond_twenty() {
    let mut convo: Vec<LLMMessage> = (0..22).map(|i| LLMMessage::user(&format!("m{}", i))).collect();
    trim_history(&mut convo);
    assert_eq!(convo.len(), 20);
    assert_eq!(convo[0].content, "m2");

    let mut short: Vec<LLMMessage> = (0..3).map(|i| LLMMessage::user(&format!("m{}", i))).collect();
    trim_history(&mut short);
    assert_eq!(short.len(), 3);
}

#[test]
fn error_messages_render() {
    assert_eq!(
        BotError::Internal("boom".to_string()).message(),
        "Internal error: boom"
    );
    assert_eq!(
        BotError::Command(CommandError::NotFound("x".to_string())).message(),
        "Command error: Command not found: x"
    );
    assert_eq!(
        BotError::Storage(StorageError::NotFound("k".to_string())).message(),
        "Storage error: Not found: k"
    );
    assert_eq!(CommandError::PermissionDenied.message(), "Permission denied");
    assert_eq!(
        ConfigError::MissingField("token".to_string()).message(),
        "Missing required field: token"
    );
}

#[test]
fn default_config_values() {
    let config = Config::default();
    assert_eq!(config.bot.name, "carik-bot");
    assert_eq!(config.bot.prefix, "/");
    assert_eq!(config.security.rate_limit.max_requests, 20);
    assert_eq!(config.security.rate_limit.window_seconds, 60);
    assert!(config.whitelist.enabled);
    assert_eq!(config.whitelist.users.len(), 1);
}

#[test]
fn whitelist_gates_users() {
    let mut config = Config::default();
    config.whitelist.users = vec!["alice".to_string()];
    assert!(config.is_user_whitelisted("alice"));
    assert!(!config.is_user_whitelisted("bob"));
    config.whitelist.enabled = false;
    assert!(config.is_user_whitelisted("bob"));
}

#[test]
fn privileged_access_needs_whitelist_or_approval() {
    let mut config = Config::default();
    config.whitelist.users = vec!["owner".to_string()];
    assert!(can_use_privileged(&config, "owner"));
    assert!(!can_use_privileged(&config, "guest"));
    config.guests.enabled = true;
    config.guests.approved = vec!["guest".to_string()];
    assert!(can_use_privileged(&config, "guest"));
}

#[test]
fn query_limits_spare_owners() {
    assert!(within_query_limits(true, 100, 100));
    assert!(within_query_limits(false, 0, 0));
    assert!(!within_query_limits(false, 1, 0));
    assert!(!within_query_limits(false, 0, 20));
}

#[test]
fn user_settings_default_is_empty() {
    let s = UserSettings::default();
    assert_eq!(s.language, "");
    assert!(s.system_prompt.is_none());
}

#[test]
fn permissions_render_as_tags() {
    assert_eq!(Permission::ReadMessages.as_str(), "read-messages");
    assert_eq!(Permission::Http.as_str(), "http");
    assert_eq!(Permission::LoadPlugins.as_str(), "load-plugins");
}

#[test]
fn plugin_results_carry_outcome() {
    let ok = PluginResult::success("done");
    assert!(ok.success);
    assert_eq!(ok.output, "done");
    assert!(ok.error.is_none());

    let bad = PluginResult::error("failed");
    assert!(!bad.success);
    assert_eq!(bad.output, "");
    assert_eq!(bad.error.as_deref(), Some("failed"));
}

#[test]
fn a2a_agents_decline_execution() {
    let agent = A2AAgent::new(
        "peer",
        A2APluginConfig {
            name: "peer".to_string(),
            endpoint: "http://localhost".to_string(),
            capabilities: vec![],
        },
    );
    let result = agent.execute("{}");
    assert!(result.is_err());
    assert!(result.unwrap_err().contains("Phase 3"));
}
