use vstd::prelude::*;
use crate::message::{Content, Message, MessageType};
use crate::text;
use crate::user::User;

verus! {

/// Is `text` command input under `prefix`: it starts with '/' or with `prefix`.
pub open spec fn is_command_text(text: Seq<char>, prefix: Seq<char>) -> bool {
    (text.len() >= 1 && text[0] == '/') || text::starts_with_spec(text, prefix)
}

/// The command body: `text` with exactly one leading prefix occurrence
/// removed ('/' counts one character, a custom prefix its own length).
pub open spec fn command_body(text: Seq<char>, prefix: Seq<char>) -> Seq<char> {
    if text.len() >= 1 && text[0] == '/' {
        text.subrange(1, text.len() as int)
    } else {
        text.subrange(prefix.len() as int, text.len() as int)
    }
}

/// The command name: the first whitespace-separated word of the body, or
/// empty when the body has no words.
pub open spec fn command_name(text: Seq<char>, prefix: Seq<char>) -> Seq<char> {
    let toks = text::tokens(command_body(text, prefix));
    if toks.len() > 0 {
        toks[0]
    } else {
        Seq::empty()
    }
}

/// The command arguments: the remaining words of the body, in order.
pub open spec fn command_args(text: Seq<char>, prefix: Seq<char>) -> Seq<Seq<char>> {
    let toks = text::tokens(command_body(text, prefix));
    if toks.len() > 0 {
        toks.drop_first()
    } else {
        Seq::empty()
    }
}

/// Turns raw text events into structured messages. Pure: no I/O, and the
/// outcome is a function of the inputs alone (but for the fresh message id
/// and timestamp).
pub struct MessageParser {
    command_prefix: String,
}

impl MessageParser {
    pub closed spec fn prefix_spec(&self) -> Seq<char> {
        self.command_prefix@
    }

    pub fn new(prefix: &str) -> (r: MessageParser)
        ensures
            r.prefix_spec() == prefix@,
    {
        MessageParser { command_prefix: String::from_str(prefix) }
    }

    /// Parse a text message: command input becomes `Content::Command` with
    /// the name and arguments split on whitespace; anything else becomes
    /// `Content::Text` unchanged.
    pub fn parse(&self, chat_id: &str, text: &str, sender: Option<User>) -> (r: Message)
        ensures
            r.chat_id@ == chat_id@,
            r.sender == sender,
            is_command_text(text@, self.prefix_spec()) ==> {
                &&& r.message_type is Command
                &&& r.content matches Content::Command { name, args } && name@ == command_name(
                    text@,
                    self.prefix_spec(),
                ) && args.deep_view() == command_args(text@, self.prefix_spec())
            },
            !is_command_text(text@, self.prefix_spec()) ==> {
                &&& r.message_type is Text
                &&& r.content matches Content::Text(t) && t@ == text@
            },
    {
        let tv = text::chars_of(text);
        let pv = text::chars_of(self.command_prefix.as_str());
        let slash = tv.len() >= 1 && tv[0] == '/';
        if slash || text::starts_with_chars(&tv, &pv) {
            self.parse_command(chat_id, text, sender)
        } else {
            Message::new(chat_id, Content::Text(String::from_str(text))).with_message_type(
                MessageType::Text,
            ).with_sender_opt(sender)
        }
    }

    fn parse_command(&self, chat_id: &str, text: &str, sender: Option<User>) -> (r: Message)
        requires
            is_command_text(text@, self.prefix_spec()),
        ensures
            r.chat_id@ == chat_id@,
            r.sender == sender,
            r.message_type is Command,
            r.content matches Content::Command { name, args } && name@ == command_name(
                text@,
                self.prefix_spec(),
            ) && args.deep_view() == command_args(text@, self.prefix_spec()),
    {
        let tv = text::chars_of(text);
        let pv = text::chars_of(self.command_prefix.as_str());
        let body = if tv.len() >= 1 && tv[0] == '/' {
            text::subvec(&tv, 1, tv.len())
        } else {
            text::subvec(&tv, pv.len(), tv.len())
        };
        let parts = text::split_ws(&body);
        proof {
            assert(body@ == command_body(text@, self.prefix_spec()));
        }
        let name = if parts.len() > 0 {
            text::string_of(&parts[0])
        } else {
            String::new()
        };
        let mut args: Vec<String> = Vec::new();
        let mut k: usize = 1;
        proof {
            if parts.deep_view().len() > 0 {
                assert(args.deep_view() =~~= parts.deep_view().subrange(1, 1));
            }
        }
        while k < parts.len()
            invariant
                1 <= k,
                parts@.len() > 0 ==> k <= parts@.len(),
                parts@.len() == 0 ==> k == 1,
                parts.deep_view().len() == parts@.len(),
                parts@.len() > 0 ==> args.deep_view() == parts.deep_view().subrange(1, k as int),
                parts@.len() == 0 ==> args.deep_view() == Seq::<Seq<char>>::empty(),
            decreases parts@.len() - k,
        {
            let ghost prev = args.deep_view();
            let a = text::string_of(&parts[k]);
            args.push(a);
            proof {
                assert(args.deep_view() =~~= prev.push(parts.deep_view()[k as int]));
                assert(args.deep_view() =~~= parts.deep_view().subrange(1, k + 1));
            }
            k = k + 1;
        }
        proof {
            let toks = text::tokens(command_body(text@, self.prefix_spec()));
            if toks.len() > 0 {
                assert(parts.deep_view().subrange(1, parts.deep_view().len() as int)
                    =~~= toks.drop_first());
            }
        }
        Message::new(
            chat_id,
            Content::Command { name, args },
        ).with_message_type(MessageType::Command).with_sender_opt(sender)
    }

    /// Parse a callback query (inline button press): always `CallbackData`,
    /// with a mandatory sender.
    pub fn parse_callback(&self, chat_id: &str, data: &str, user: User) -> (r: Message)
        ensures
            r.chat_id@ == chat_id@,
            r.sender matches Some(u) && u == user,
            r.message_type is Callback,
            r.content matches Content::CallbackData(d) && d@ == data@,
    {
        Message::new(chat_id, Content::CallbackData(String::from_str(data))).with_message_type(
            MessageType::Callback,
        ).with_sender(user)
    }
}

} // verus!
