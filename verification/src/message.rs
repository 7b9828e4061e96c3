use vstd::prelude::*;
use crate::user::User;
use crate::clock;

verus! {

/// Category tag kept beside the content, for display purposes.
pub enum MessageType {
    Text,
    Command,
    Callback,
    Photo,
    Document,
    Audio,
    Video,
    Sticker,
    Location,
    Other(String),
}

impl MessageType {
    pub open spec fn label_spec(&self) -> Seq<char> {
        match self {
            MessageType::Text => "text"@,
            MessageType::Command => "command"@,
            MessageType::Callback => "callback"@,
            MessageType::Photo => "photo"@,
            MessageType::Document => "document"@,
            MessageType::Audio => "audio"@,
            MessageType::Video => "video"@,
            MessageType::Sticker => "sticker"@,
            MessageType::Location => "location"@,
            MessageType::Other(s) => s@,
        }
    }

    pub fn as_str(&self) -> (r: &str)
        ensures
            r@ == self.label_spec(),
    {
        match self {
            MessageType::Text => "text",
            MessageType::Command => "command",
            MessageType::Callback => "callback",
            MessageType::Photo => "photo",
            MessageType::Document => "document",
            MessageType::Audio => "audio",
            MessageType::Video => "video",
            MessageType::Sticker => "sticker",
            MessageType::Location => "location",
            MessageType::Other(s) => s.as_str(),
        }
    }
}

/// Message content: exactly one variant is active per message.
pub enum Content {
    Text(String),
    Command { name: String, args: Vec<String> },
    CallbackData(String),
    Empty,
}

impl Content {
    /// The text of a plain text message, and nothing of any other variant.
    pub fn text(&self) -> (r: Option<&str>)
        ensures
            match self {
                Content::Text(t) => r matches Some(s) && s@ == t@,
                _ => r is None,
            },
    {
        match self {
            Content::Text(s) => Some(s.as_str()),
            _ => None,
        }
    }

    pub fn is_command(&self) -> (r: bool)
        ensures
            r == (self is Command),
    {
        match self {
            Content::Command { .. } => true,
            _ => false,
        }
    }
}

/// One inbound (or synthesized) event.
pub struct Message {
    pub id: String,
    pub chat_id: String,
    pub sender: Option<User>,
    pub content: Content,
    pub message_type: MessageType,
    pub timestamp: u64,
    pub platform: String,
}

/// Relies on uuid's `Uuid::new_v4` and its `Display` form: a fresh random
/// identifier rendered as the 36-character hyphenated text form. The value
/// is random; only its length is promised.
#[verifier::external_body]
fn fresh_id() -> (r: String)
    ensures
        r@.len() == 36,
{
    uuid::Uuid::new_v4().to_string()
}

impl Message {
    pub fn new(chat_id: &str, content: Content) -> (r: Message)
        ensures
            r.id@.len() == 36,
            r.chat_id@ == chat_id@,
            r.sender is None,
            r.content == content,
            r.message_type is Text,
            r.platform@ == "unknown"@,
    {
        Message {
            id: fresh_id(),
            chat_id: String::from_str(chat_id),
            sender: None,
            content,
            message_type: MessageType::Text,
            timestamp: clock::now_ms(),
            platform: String::from_str("unknown"),
        }
    }

    pub fn from_text(chat_id: &str, text: &str) -> (r: Message)
        ensures
            r.id@.len() == 36,
            r.chat_id@ == chat_id@,
            r.sender is None,
            r.content matches Content::Text(t) && t@ == text@,
            r.message_type is Text,
            r.platform@ == "unknown"@,
    {
        Message::new(chat_id, Content::Text(String::from_str(text)))
    }

    pub fn from_command(chat_id: &str, name: &str, args: Vec<String>) -> (r: Message)
        ensures
            r.id@.len() == 36,
            r.chat_id@ == chat_id@,
            r.sender is None,
            r.content matches Content::Command { name: n, args: a } && n@ == name@ && a
                == args,
            r.message_type is Command,
            r.platform@ == "unknown"@,
    {
        let mut msg = Message::new(
            chat_id,
            Content::Command { name: String::from_str(name), args },
        );
        msg.message_type = MessageType::Command;
        msg
    }

    pub fn with_sender(self, user: User) -> (r: Message)
        ensures
            r == (Message { sender: Some(user), ..self }),
    {
        Message { sender: Some(user), ..self }
    }

    /// Sets the sender only when one is given.
    pub fn with_sender_opt(self, user: Option<User>) -> (r: Message)
        ensures
            match user {
                Some(u) => r == (Message { sender: Some(u), ..self }),
                None => r == self,
            },
    {
        match user {
            Some(u) => Message { sender: Some(u), ..self },
            None => self,
        }
    }

    pub fn with_message_type(self, mt: MessageType) -> (r: Message)
        ensures
            r == (Message { message_type: mt, ..self }),
    {
        Message { message_type: mt, ..self }
    }

    pub fn with_platform(self, platform: &str) -> (r: Message)
        ensures
            r.id == self.id,
            r.chat_id == self.chat_id,
            r.sender == self.sender,
            r.content == self.content,
            r.message_type == self.message_type,
            r.timestamp == self.timestamp,
            r.platform@ == platform@,
    {
        Message { platform: String::from_str(platform), ..self }
    }
}

} // verus!
