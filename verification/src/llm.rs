use vstd::prelude::*;

verus! {

/// A chat message for model conversations; the role is one of "system",
/// "user" or "assistant".
pub struct LLMMessage {
    pub role: String,
    pub content: String,
}

impl LLMMessage {
    pub fn system(content: &str) -> (r: LLMMessage)
        ensures
            r.role@ == "system"@,
            r.content@ == content@,
    {
        LLMMessage { role: String::from_str("system"), content: String::from_str(content) }
    }

    pub fn user(content: &str) -> (r: LLMMessage)
        ensures
            r.role@ == "user"@,
            r.content@ == content@,
    {
        LLMMessage { role: String::from_str("user"), content: String::from_str(content) }
    }

    pub fn assistant(content: &str) -> (r: LLMMessage)
        ensures
            r.role@ == "assistant"@,
            r.content@ == content@,
    {
        LLMMessage { role: String::from_str("assistant"), content: String::from_str(content) }
    }
}

/// Token usage reported by a provider.
pub struct LLMUsage {
    pub prompt_tokens: Option<u32>,
    pub completion_tokens: Option<u32>,
    pub total_tokens: Option<u32>,
}

/// A provider's reply.
pub struct LLMResponse {
    pub content: String,
    pub model: String,
    pub usage: Option<LLMUsage>,
    pub finish_reason: Option<String>,
}

/// The providers the host can call.
pub enum LLMProvider {
    MiniMax,
    Claude,
    Groq,
}

/// Errors from model providers.
#[derive(Debug)]
pub enum LLMError {
    MissingApiKey,
    InvalidRequest(String),
    ApiError(String),
    NetworkError(String),
    RateLimited,
    ParseError(String),
    ConfigError(String),
}

impl LLMError {
    pub open spec fn message_spec(&self) -> Seq<char> {
        match self {
            LLMError::MissingApiKey => "Missing API key"@,
            LLMError::InvalidRequest(s) => "Invalid request: "@ + s@,
            LLMError::ApiError(s) => "API error: "@ + s@,
            LLMError::NetworkError(s) => "Network error: "@ + s@,
            LLMError::RateLimited => "Rate limited"@,
            LLMError::ParseError(s) => "Parse error: "@ + s@,
            LLMError::ConfigError(s) => "Config error: "@ + s@,
        }
    }

    /// The error rendered as text.
    pub fn message(&self) -> (r: String)
        ensures
            r@ == self.message_spec(),
    {
        match self {
            LLMError::MissingApiKey => String::from_str("Missing API key"),
            LLMError::InvalidRequest(s) => {
                let mut m = String::from_str("Invalid request: ");
                m.append(s.as_str());
                m
            },
            LLMError::ApiError(s) => {
                let mut m = String::from_str("API error: ");
                m.append(s.as_str());
                m
            },
            LLMError::NetworkError(s) => {
                let mut m = String::from_str("Network error: ");
                m.append(s.as_str());
                m
            },
            LLMError::RateLimited => String::from_str("Rate limited"),
            LLMError::ParseError(s) => {
                let mut m = String::from_str("Parse error: ");
                m.append(s.as_str());
                m
            },
            LLMError::ConfigError(s) => {
                let mut m = String::from_str("Config error: ");
                m.append(s.as_str());
                m
            },
        }
    }
}

/// Keep a conversation bounded: while more than twenty messages stand, drop
/// the two oldest.
pub fn trim_history(conversation: &mut Vec<LLMMessage>)
    ensures
        old(conversation)@.len() > 20 ==> final(conversation)@ == old(conversation)@.subrange(
            2,
            old(conversation)@.len() as int,
        ),
        old(conversation)@.len() <= 20 ==> final(conversation)@ == old(conversation)@,
{
    if conversation.len() > 20 {
        conversation.remove(0);
        conversation.remove(0);
        proof {
            assert(conversation@ =~= old(conversation)@.subrange(
                2,
                old(conversation)@.len() as int,
            ));
        }
    }
}

} // verus!
