pub mod ansi;
pub mod bot;
mod clock;
pub mod command;
pub mod config;
pub mod db;
pub mod dispatcher;
pub mod errors;
pub mod feed;
pub mod financial;
pub mod greeting;
pub mod intent;
pub mod llm;
pub mod message;
pub mod miniapp;
pub mod middleware;
pub mod parser;
pub mod plugin;
pub mod ratelimit;
pub mod service;
pub mod text;
pub mod user;
pub mod webcrawl;

pub use command::{Command, CommandAction, CommandRegistry};
pub use dispatcher::{CommandHandler, MessageDispatcher};
pub use errors::{BotError, CommandError, ConfigError, StorageError};
pub use intent::{detect_news_source, detect_news_topic, detect_skill, is_coding_intent, is_news_conversation, is_rss_intent, route_decision, RouteDecision};
pub use llm::{LLMError, LLMMessage, LLMProvider, LLMResponse, LLMUsage};
pub use message::{Content, Message, MessageType};
pub use middleware::{Context, LoggingMiddleware, MiddlewareError};
pub use ratelimit::RateLimitMiddleware;
pub use service::CommandService;
pub use parser::MessageParser;
pub use user::User;
