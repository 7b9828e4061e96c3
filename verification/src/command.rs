use vstd::prelude::*;
use crate::errors::CommandError;
use crate::message::Message;
use crate::text;

verus! {

/// What a command does when dispatched: the built-in handlers reply with a
/// fixed text. Hosts with richer behaviour resolve the command themselves.
pub enum CommandAction {
    Reply(String),
}

impl CommandAction {
    /// Run the handler against a message.
    pub fn run(&self, _msg: &Message) -> (r: Result<String, CommandError>)
        ensures
            match self {
                CommandAction::Reply(s) => r matches Ok(t) && t@ == s@,
            },
    {
        match self {
            CommandAction::Reply(s) => Ok(s.clone()),
        }
    }
}

/// A registry entry: a named command with optional help texts, aliases,
/// permission tags and handler.
pub struct Command {
    pub name: String,
    pub description: Option<String>,
    pub aliases: Vec<String>,
    pub usage: Option<String>,
    pub handler: Option<CommandAction>,
    pub permissions: Vec<String>,
}

/// `input` names `c`: it equals the name or one of the aliases,
/// ASCII-case-insensitively.
pub open spec fn matches_spec(c: &Command, input: Seq<char>) -> bool {
    text::lower(c.name@) == text::lower(input) || exists|k: int|
        0 <= k < c.aliases@.len() && text::lower(c.aliases@[k]@) == text::lower(input)
}

impl Command {
    pub fn new(name: &str) -> (r: Command)
        ensures
            r.name@ == name@,
            r.description is None,
            r.aliases@.len() == 0,
            r.usage is None,
            r.handler is None,
            r.permissions@.len() == 0,
    {
        Command {
            name: String::from_str(name),
            description: None,
            aliases: Vec::new(),
            usage: None,
            handler: None,
            permissions: Vec::new(),
        }
    }

    pub fn with_description(self, desc: &str) -> (r: Command)
        ensures
            r.name == self.name,
            r.description matches Some(d) && d@ == desc@,
            r.aliases == self.aliases,
            r.usage == self.usage,
            r.handler == self.handler,
            r.permissions == self.permissions,
    {
        Command { description: Some(String::from_str(desc)), ..self }
    }

    pub fn with_aliases(self, aliases: Vec<String>) -> (r: Command)
        ensures
            r == (Command { aliases, ..self }),
    {
        Command { aliases, ..self }
    }

    pub fn with_usage(self, usage: &str) -> (r: Command)
        ensures
            r.name == self.name,
            r.description == self.description,
            r.aliases == self.aliases,
            r.usage matches Some(u) && u@ == usage@,
            r.handler == self.handler,
            r.permissions == self.permissions,
    {
        Command { usage: Some(String::from_str(usage)), ..self }
    }

    pub fn with_permission(self, permission: &str) -> (r: Command)
        ensures
            r.name == self.name,
            r.description == self.description,
            r.aliases == self.aliases,
            r.usage == self.usage,
            r.handler == self.handler,
            r.permissions@.len() == self.permissions@.len() + 1,
            r.permissions@ == self.permissions@ + seq![r.permissions@[r.permissions@.len() - 1]],
            r.permissions@[r.permissions@.len() - 1]@ == permission@,
    {
        let mut c = self;
        c.permissions.push(String::from_str(permission));
        proof {
            assert(c.permissions@ =~= self.permissions@ + seq![
                c.permissions@[c.permissions@.len() - 1],
            ]);
        }
        c
    }

    pub fn with_handler(self, handler: CommandAction) -> (r: Command)
        ensures
            r == (Command { handler: Some(handler), ..self }),
    {
        Command { handler: Some(handler), ..self }
    }

    /// Does `input` name this command (by name or alias, case-insensitively)?
    pub fn matches(&self, input: &str) -> (r: bool)
        ensures
            r == matches_spec(self, input@),
    {
        let iv = text::chars_of(input);
        let input_lower = text::ascii_lower(&iv);
        let nv = text::chars_of(self.name.as_str());
        let name_lower = text::ascii_lower(&nv);
        if text::eq_chars(&name_lower, &input_lower) {
            return true;
        }
        let mut k: usize = 0;
        while k < self.aliases.len()
            invariant
                k <= self.aliases@.len(),
                input_lower@ == text::lower(input@),
                forall|m: int|
                    0 <= m < k ==> text::lower(self.aliases@[m]@) != text::lower(input@),
            decreases self.aliases@.len() - k,
        {
            let av = text::chars_of(self.aliases[k].as_str());
            let alias_lower = text::ascii_lower(&av);
            if text::eq_chars(&alias_lower, &input_lower) {
                return true;
            }
            k = k + 1;
        }
        false
    }
}

/// No two entries share a name.
pub open spec fn unique_names(s: Seq<Command>) -> bool {
    forall|i: int, j: int| 0 <= i < j < s.len() ==> s[i].name@ != s[j].name@
}

/// Registration: replaces the entry with the same name in place, else
/// appends at the end.
pub open spec fn insert_spec(s: Seq<Command>, c: Command) -> Seq<Command>
    decreases s.len(),
{
    if s.len() == 0 {
        seq![c]
    } else if s[0].name@ == c.name@ {
        seq![c] + s.drop_first()
    } else {
        seq![s[0]] + insert_spec(s.drop_first(), c)
    }
}

proof fn lemma_insert_replaces(s: Seq<Command>, c: Command, i: int)
    requires
        0 <= i < s.len(),
        s[i].name@ == c.name@,
        forall|m: int| 0 <= m < i ==> s[m].name@ != c.name@,
    ensures
        insert_spec(s, c) == s.update(i, c),
    decreases s.len(),
{
    if i == 0 {
        assert(seq![c] + s.drop_first() =~= s.update(0, c));
    } else {
        let t = s.drop_first();
        assert(forall|m: int| 0 <= m < i - 1 ==> t[m] == s[m + 1]);
        assert(t[i - 1] == s[i]);
        lemma_insert_replaces(t, c, i - 1);
        assert(seq![s[0]] + t.update(i - 1, c) =~= s.update(i, c));
    }
}

proof fn lemma_insert_appends(s: Seq<Command>, c: Command)
    requires
        forall|m: int| 0 <= m < s.len() ==> s[m].name@ != c.name@,
    ensures
        insert_spec(s, c) == s.push(c),
    decreases s.len(),
{
    if s.len() == 0 {
        assert(seq![c] =~= s.push(c));
    } else {
        let t = s.drop_first();
        assert(forall|m: int| 0 <= m < t.len() ==> t[m] == s[m + 1]);
        lemma_insert_appends(t, c);
        assert(seq![s[0]] + t.push(c) =~= s.push(c));
    }
}

/// Registering under one name twice keeps only the later registration:
/// inserting `c1` and then `c2`, where both carry the same name, leaves the
/// registry exactly as inserting `c2` alone would.
pub proof fn lemma_register_last_wins(s: Seq<Command>, c1: Command, c2: Command)
    requires
        c1.name@ == c2.name@,
    ensures
        insert_spec(insert_spec(s, c1), c2) == insert_spec(s, c2),
    decreases s.len(),
{
    if s.len() == 0 {
        assert(insert_spec(s, c1) == seq![c1]);
        assert(insert_spec(seq![c1], c2) =~= seq![c2]);
        assert(insert_spec(s, c2) =~= seq![c2]);
    } else if s[0].name@ == c1.name@ {
        assert(insert_spec(s, c1) == seq![c1] + s.drop_first());
        assert((seq![c1] + s.drop_first())[0] == c1);
        assert((seq![c1] + s.drop_first()).drop_first() =~= s.drop_first());
        assert(insert_spec(seq![c1] + s.drop_first(), c2) =~= seq![c2] + s.drop_first());
        assert(insert_spec(s, c2) =~= seq![c2] + s.drop_first());
    } else {
        lemma_register_last_wins(s.drop_first(), c1, c2);
        assert(insert_spec(s, c1) == seq![s[0]] + insert_spec(s.drop_first(), c1));
        assert((seq![s[0]] + insert_spec(s.drop_first(), c1))[0] == s[0]);
        assert((seq![s[0]] + insert_spec(s.drop_first(), c1)).drop_first() =~= insert_spec(
            s.drop_first(),
            c1,
        ));
        assert(insert_spec(insert_spec(s, c1), c2) =~= seq![s[0]] + insert_spec(
            insert_spec(s.drop_first(), c1),
            c2,
        ));
    }
}

/// A registered name stays unique: insertion preserves name uniqueness, and
/// afterwards exactly one entry carries the inserted command's name — the
/// inserted command itself.
pub proof fn lemma_insert_unique(s: Seq<Command>, c: Command)
    requires
        unique_names(s),
    ensures
        unique_names(insert_spec(s, c)),
        exists|i: int|
            0 <= i < insert_spec(s, c).len() && insert_spec(s, c)[i] == c && forall|j: int|
                0 <= j < insert_spec(s, c).len() && j != i ==> insert_spec(s, c)[j].name@
                    != c.name@,
    decreases s.len(),
{
    let s2 = insert_spec(s, c);
    if s.len() == 0 {
        assert(s2 =~= seq![c]);
        assert(s2[0] == c);
    } else if s[0].name@ == c.name@ {
        assert(s2 =~= seq![c] + s.drop_first());
        assert(s2[0] == c);
        assert(forall|j: int| 1 <= j < s2.len() ==> s2[j] == s[j]);
        assert(forall|j: int| 1 <= j < s2.len() ==> s2[j].name@ != c.name@);
    } else {
        let t = s.drop_first();
        assert(forall|m: int, n: int| 0 <= m < n < t.len() ==> t[m].name@ != t[n].name@);
        lemma_insert_unique(t, c);
        let t2 = insert_spec(t, c);
        assert(s2 =~= seq![s[0]] + t2);
        let i = choose|i: int|
            0 <= i < t2.len() && t2[i] == c && forall|j: int|
                0 <= j < t2.len() && j != i ==> t2[j].name@ != c.name@;
        assert(s2[i + 1] == c);
        assert(forall|j: int| 1 <= j < s2.len() ==> s2[j] == t2[j - 1]);
        assert(forall|j: int|
            0 <= j < s2.len() && j != i + 1 ==> s2[j].name@ != c.name@);
        assert(forall|m: int, n: int|
            0 <= m < n < s2.len() ==> s2[m].name@ != s2[n].name@) by {
            assert forall|m: int, n: int|
                0 <= m < n < s2.len() implies s2[m].name@ != s2[n].name@ by {
                if m == 0 {
                    if n == i + 1 {
                        assert(s2[n] == c);
                        assert(s2[0] == s[0]);
                    } else {
                        assert(s2[n] == t2[n - 1]);
                        lemma_insert_keeps_names(t, c, n - 1);
                    }
                } else {
                    assert(s2[m] == t2[m - 1]);
                    assert(s2[n] == t2[n - 1]);
                }
            }
        }
    }
}

/// Every name in the inserted registry is the new name or one of the old.
proof fn lemma_insert_keeps_names(s: Seq<Command>, c: Command, j: int)
    requires
        0 <= j < insert_spec(s, c).len(),
    ensures
        insert_spec(s, c)[j].name@ == c.name@ || exists|m: int|
            0 <= m < s.len() && s[m].name@ == insert_spec(s, c)[j].name@,
    decreases s.len(),
{
    if s.len() == 0 {
    } else if s[0].name@ == c.name@ {
        if j > 0 {
            assert(insert_spec(s, c)[j] == s[j]);
        }
    } else {
        if j == 0 {
            assert(insert_spec(s, c)[0] == s[0]);
        } else {
            lemma_insert_keeps_names(s.drop_first(), c, j - 1);
            assert(insert_spec(s, c)[j] == insert_spec(s.drop_first(), c)[j - 1]);
            if exists|m: int|
                0 <= m < s.drop_first().len() && s.drop_first()[m].name@ == insert_spec(
                    s.drop_first(),
                    c,
                )[j - 1].name@ {
                let m = choose|m: int|
                    0 <= m < s.drop_first().len() && s.drop_first()[m].name@ == insert_spec(
                        s.drop_first(),
                        c,
                    )[j - 1].name@;
                assert(s[m + 1].name@ == insert_spec(s, c)[j].name@);
            }
        }
    }
}

/// The entry carrying exactly `name`, if any (the first; names are unique).
pub open spec fn named_command(s: Seq<Command>, name: Seq<char>) -> Option<Command>
    decreases s.len(),
{
    if s.len() == 0 {
        None
    } else if s[0].name@ == name {
        Some(s[0])
    } else {
        named_command(s.drop_first(), name)
    }
}

/// The first entry that `input` names by name or alias, if any.
pub open spec fn found_command(s: Seq<Command>, input: Seq<char>) -> Option<Command>
    decreases s.len(),
{
    if s.len() == 0 {
        None
    } else if matches_spec(&s[0], input) {
        Some(s[0])
    } else {
        found_command(s.drop_first(), input)
    }
}

proof fn lemma_named_at(s: Seq<Command>, name: Seq<char>, i: int)
    requires
        0 <= i < s.len(),
        s[i].name@ == name,
        forall|m: int| 0 <= m < i ==> s[m].name@ != name,
    ensures
        named_command(s, name) == Some(s[i]),
    decreases s.len(),
{
    if i == 0 {
    } else {
        let t = s.drop_first();
        assert(forall|m: int| 0 <= m < i - 1 ==> t[m] == s[m + 1]);
        assert(t[i - 1] == s[i]);
        lemma_named_at(t, name, i - 1);
    }
}

proof fn lemma_named_missing(s: Seq<Command>, name: Seq<char>)
    requires
        forall|m: int| 0 <= m < s.len() ==> s[m].name@ != name,
    ensures
        named_command(s, name) is None,
    decreases s.len(),
{
    if s.len() == 0 {
    } else {
        let t = s.drop_first();
        assert(forall|m: int| 0 <= m < t.len() ==> t[m] == s[m + 1]);
        lemma_named_missing(t, name);
    }
}

proof fn lemma_found_at(s: Seq<Command>, input: Seq<char>, i: int)
    requires
        0 <= i < s.len(),
        matches_spec(&s[i], input),
        forall|m: int| 0 <= m < i ==> !matches_spec(&s[m], input),
    ensures
        found_command(s, input) == Some(s[i]),
    decreases s.len(),
{
    if i == 0 {
    } else {
        let t = s.drop_first();
        assert(forall|m: int| 0 <= m < i - 1 ==> t[m] == s[m + 1]);
        assert(t[i - 1] == s[i]);
        lemma_found_at(t, input, i - 1);
    }
}

proof fn lemma_found_missing(s: Seq<Command>, input: Seq<char>)
    requires
        forall|m: int| 0 <= m < s.len() ==> !matches_spec(&s[m], input),
    ensures
        found_command(s, input) is None,
    decreases s.len(),
{
    if s.len() == 0 {
    } else {
        let t = s.drop_first();
        assert(forall|m: int| 0 <= m < t.len() ==> t[m] == s[m + 1]);
        lemma_found_missing(t, input);
    }
}

/// Name-to-command lookup structure. Keys are unique: registering a name
/// that already exists replaces the previous entry.
pub struct CommandRegistry {
    commands: Vec<Command>,
}

impl CommandRegistry {
    /// The registry's entries, in registration order.
    pub closed spec fn entries(&self) -> Seq<Command> {
        self.commands@
    }

    pub open spec fn wf(&self) -> bool {
        unique_names(self.entries())
    }

    pub fn new() -> (r: CommandRegistry)
        ensures
            r.entries() == Seq::<Command>::empty(),
            r.wf(),
    {
        let r = CommandRegistry { commands: Vec::new() };
        proof {
            assert(r.entries() =~= Seq::<Command>::empty());
        }
        r
    }

    /// Insert or replace by name.
    pub fn register(&mut self, command: Command)
        requires
            old(self).wf(),
        ensures
            final(self).wf(),
            final(self).entries() == insert_spec(old(self).entries(), command),
    {
        let n: usize = self.commands.len();
        let mut i: usize = 0;
        while i < n
            invariant
                i <= n,
                n == self.commands@.len(),
                self.commands@ == old(self).entries(),
                old(self).wf(),
                forall|m: int| 0 <= m < i ==> self.commands@[m].name@ != command.name@,
            decreases n - i,
        {
            let cv = text::chars_of(self.commands[i].name.as_str());
            let nv = text::chars_of(command.name.as_str());
            if text::eq_chars(&cv, &nv) {
                proof {
                    lemma_insert_replaces(self.commands@, command, i as int);
                    lemma_insert_unique(old(self).entries(), command);
                }
                self.commands[i] = command;
                proof {
                    assert(self.commands@ =~= insert_spec(old(self).entries(), command));
                }
                return ;
            }
            i = i + 1;
        }
        proof {
            lemma_insert_appends(self.commands@, command);
            lemma_insert_unique(old(self).entries(), command);
        }
        self.commands.push(command);
    }

    /// Exact-name lookup.
    pub fn get(&self, name: &str) -> (r: Option<&Command>)
        ensures
            match r {
                Some(c) => named_command(self.entries(), name@) == Some(*c),
                None => named_command(self.entries(), name@) is None,
            },
    {
        let n: usize = self.commands.len();
        let nv = text::chars_of(name);
        let mut i: usize = 0;
        while i < n
            invariant
                i <= n,
                n == self.commands@.len(),
                nv@ == name@,
                forall|m: int| 0 <= m < i ==> self.commands@[m].name@ != name@,
            decreases n - i,
        {
            let cv = text::chars_of(self.commands[i].name.as_str());
            if text::eq_chars(&cv, &nv) {
                proof {
                    lemma_named_at(self.entries(), name@, i as int);
                }
                return Some(&self.commands[i]);
            }
            i = i + 1;
        }
        proof {
            lemma_named_missing(self.entries(), name@);
        }
        None
    }

    /// First command, in registration order, that `input` names by name or
    /// alias, case-insensitively.
    pub fn find(&self, input: &str) -> (r: Option<&Command>)
        ensures
            match r {
                Some(c) => found_command(self.entries(), input@) == Some(*c),
                None => found_command(self.entries(), input@) is None,
            },
    {
        let n: usize = self.commands.len();
        let mut i: usize = 0;
        while i < n
            invariant
                i <= n,
                n == self.commands@.len(),
                forall|m: int| 0 <= m < i ==> !matches_spec(&self.commands@[m], input@),
            decreases n - i,
    {
            if self.commands[i].matches(input) {
                proof {
                    lemma_found_at(self.entries(), input@, i as int);
                }
                return Some(&self.commands[i]);
            }
            i = i + 1;
        }
        proof {
            lemma_found_missing(self.entries(), input@);
        }
        None
    }

    /// All entries, in registration order.
    pub fn all(&self) -> (r: &Vec<Command>)
        ensures
            r@ == self.entries(),
    {
        &self.commands
    }

    pub fn len(&self) -> (r: usize)
        ensures
            r == self.entries().len(),
    {
        self.commands.len()
    }

    pub fn is_empty(&self) -> (r: bool)
        ensures
            r == (self.entries().len() == 0),
    {
        self.commands.is_empty()
    }
}

} // verus!
