use vstd::prelude::*;

verus! {

/// An inline keyboard button, carrying callback data or a link.
pub struct KeyboardButton {
    pub text: String,
    pub callback_data: Option<String>,
    pub url: Option<String>,
}

impl KeyboardButton {
    pub fn new(text: &str) -> (r: KeyboardButton)
        ensures
            r.text@ == text@,
            r.callback_data is None,
            r.url is None,
    {
        KeyboardButton { text: String::from_str(text), callback_data: None, url: None }
    }

    pub fn with_callback(self, data: &str) -> (r: KeyboardButton)
        ensures
            r.text == self.text,
            r.callback_data matches Some(d) && d@ == data@,
            r.url == self.url,
    {
        KeyboardButton { callback_data: Some(String::from_str(data)), ..self }
    }

    pub fn with_url(self, url: &str) -> (r: KeyboardButton)
        ensures
            r.text == self.text,
            r.callback_data == self.callback_data,
            r.url matches Some(u) && u@ == url@,
    {
        KeyboardButton { url: Some(String::from_str(url)), ..self }
    }
}

/// A conversation on the platform, named by its numeric id.
pub struct Chat {
    pub id: i64,
}

/// What the platform knows about the bot itself.
pub struct BotInfo {
    pub id: String,
    pub name: String,
    pub username: String,
}

} // verus!
