use vstd::prelude::*;

verus! {

/// A user of the chat platform, as seen by the message pipeline.
pub struct User {
    pub id: String,
    pub username: Option<String>,
    pub first_name: Option<String>,
    pub last_name: Option<String>,
    pub is_bot: bool,
}

/// What `display_name` returns: the username if set, else the first name
/// (with the last name after a space, if set), else the id.
pub open spec fn display_name_spec(u: &User) -> Seq<char> {
    match u.username {
        Some(name) => name@,
        None => match u.first_name {
            Some(first) => match u.last_name {
                Some(last) => first@ + " "@ + last@,
                None => first@,
            },
            None => u.id@,
        },
    }
}

impl User {
    pub fn new(id: &str) -> (r: User)
        ensures
            r.id@ == id@,
            r.username is None,
            r.first_name is None,
            r.last_name is None,
            !r.is_bot,
    {
        User {
            id: String::from_str(id),
            username: None,
            first_name: None,
            last_name: None,
            is_bot: false,
        }
    }

    pub fn with_username(self, username: &str) -> (r: User)
        ensures
            r.id@ == self.id@,
            r.username matches Some(u) && u@ == username@,
            r.first_name == self.first_name,
            r.last_name == self.last_name,
            r.is_bot == self.is_bot,
    {
        User { username: Some(String::from_str(username)), ..self }
    }

    pub fn with_name(self, first: &str, last: Option<&str>) -> (r: User)
        ensures
            r.id@ == self.id@,
            r.username == self.username,
            r.first_name matches Some(f) && f@ == first@,
            match last {
                Some(l) => r.last_name matches Some(x) && x@ == l@,
                None => r.last_name is None,
            },
            r.is_bot == self.is_bot,
    {
        let last_name = match last {
            Some(l) => Some(String::from_str(l)),
            None => None,
        };
        User { first_name: Some(String::from_str(first)), last_name, ..self }
    }

    /// A human-readable name for the user.
    pub fn display_name(&self) -> (r: String)
        ensures
            r@ == display_name_spec(self),
    {
        match &self.username {
            Some(name) => name.clone(),
            None => match &self.first_name {
                Some(first) => match &self.last_name {
                    Some(last) => {
                        let mut r = first.clone();
                        r.append(" ");
                        r.append(last.as_str());
                        r
                    },
                    None => first.clone(),
                },
                None => self.id.clone(),
            },
        }
    }
}

} // verus!
