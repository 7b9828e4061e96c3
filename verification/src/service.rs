use vstd::prelude::*;
use crate::command::{
    found_command, insert_spec, named_command, Command, CommandAction, CommandRegistry,
};
use crate::errors::CommandError;
use crate::message::{Content, Message};

verus! {

/// The help text for one registered command when listing them all.
pub open spec fn help_line(c: Command) -> Seq<char> {
    "  /"@ + c.name@ + " - "@ + (match c.description {
        Some(d) => d@,
        None => Seq::empty(),
    }) + "\n"@
}

/// The command list rendered one line per entry, in registration order.
pub open spec fn help_lines(s: Seq<Command>) -> Seq<char>
    decreases s.len(),
{
    if s.len() == 0 {
        Seq::empty()
    } else {
        help_lines(s.drop_last()) + help_line(s.last())
    }
}

/// The help text for a single named command, or the not-found notice.
pub open spec fn help_for(entries: Seq<Command>, name: Seq<char>) -> Seq<char> {
    match named_command(entries, name) {
        Some(c) => "/"@ + c.name@ + " - "@ + (match c.description {
            Some(d) => d@,
            None => "No description"@,
        }) + (match c.usage {
            Some(u) => "\nUsage: "@ + u@,
            None => Seq::empty(),
        }),
        None => "Command /"@ + name + " not found"@,
    }
}

/// What `handle` owes for a message: nothing for non-commands, the found
/// handler's reply (or the not-implemented notice) for commands, and the
/// not-found error exactly when no command matches the name.
pub open spec fn handle_spec(
    entries: Seq<Command>,
    message: &Message,
    r: &Result<Option<String>, CommandError>,
) -> bool {
    match &message.content {
        Content::Command { name, args: _ } => match found_command(entries, name@) {
            Some(c) => match c.handler {
                Some(CommandAction::Reply(s)) => r matches Ok(o) && (o matches Some(t) && t@
                    == s@),
                None => r matches Ok(o) && (o matches Some(t) && t@ == "Command "@ + c.name@
                    + " not implemented"@),
            },
            None => r matches Err(e) && (e matches CommandError::NotFound(n) && n@ == name@),
        },
        _ => r matches Ok(o) && o is None,
    }
}

/// Manages and executes the registered commands behind a shared prefix.
pub struct CommandService {
    registry: CommandRegistry,
    prefix: String,
}

impl CommandService {
    pub closed spec fn entries(&self) -> Seq<Command> {
        self.registry.entries()
    }

    pub closed spec fn prefix_spec(&self) -> Seq<char> {
        self.prefix@
    }

    pub open spec fn wf(&self) -> bool {
        crate::command::unique_names(self.entries())
    }

    pub fn new(prefix: &str) -> (r: CommandService)
        ensures
            r.wf(),
            r.entries() == Seq::<Command>::empty(),
            r.prefix_spec() == prefix@,
    {
        CommandService { registry: CommandRegistry::new(), prefix: String::from_str(prefix) }
    }

    pub fn register(&mut self, command: Command)
        requires
            old(self).wf(),
        ensures
            final(self).wf(),
            final(self).prefix_spec() == old(self).prefix_spec(),
            final(self).entries() == insert_spec(old(self).entries(), command),
    {
        self.registry.register(command);
    }

    /// Register the built-in `help` and `version` commands.
    pub fn register_defaults(&mut self)
        requires
            old(self).wf(),
        ensures
            final(self).wf(),
            final(self).prefix_spec() == old(self).prefix_spec(),
            exists|c1: Command, c2: Command|
                {
                    &&& c1.name@ == "help"@
                    &&& c1.handler matches Some(CommandAction::Reply(s1)) && s1@
                        == "Available commands:\n/help - Show this message\n/version - Show version"@
                    &&& c2.name@ == "version"@
                    &&& c2.handler matches Some(CommandAction::Reply(s2)) && s2@
                        == "carik-bot v0.1.0"@
                    &&& final(self).entries() == insert_spec(
                        insert_spec(old(self).entries(), c1),
                        c2,
                    )
                },
    {
        let help_cmd = Command::new("help").with_description("Show help message").with_usage(
            "/help [command]",
        ).with_handler(
            CommandAction::Reply(
                String::from_str(
                    "Available commands:\n/help - Show this message\n/version - Show version",
                ),
            ),
        );
        let ghost c1 = help_cmd;
        self.register(help_cmd);
        let version_cmd = Command::new("version").with_description("Show bot version").with_handler(
            CommandAction::Reply(String::from_str("carik-bot v0.1.0")),
        );
        let ghost c2 = version_cmd;
        self.register(version_cmd);
    }

    /// Execute the command a message names, if the message is a command.
    pub fn handle(&self, message: &Message) -> (r: Result<Option<String>, CommandError>)
        ensures
            handle_spec(self.entries(), message, &r),
    {
        match &message.content {
            Content::Command { name, args: _ } => {
                let name_owned = name.clone();
                match self.registry.find(name_owned.as_str()) {
                    None => Err(CommandError::NotFound(name.clone())),
                    Some(cmd) => match &cmd.handler {
                        Some(action) => match action.run(message) {
                            Ok(s) => Ok(Some(s)),
                            Err(e) => Err(e),
                        },
                        None => {
                            let mut t = String::from_str("Command ");
                            t.append(cmd.name.as_str());
                            t.append(" not implemented");
                            Ok(Some(t))
                        },
                    },
                }
            },
            _ => Ok(None),
        }
    }

    /// Help text: for one command when a name is given, else the list of
    /// all registered commands.
    pub fn get_help(&self, command: Option<&str>) -> (r: String)
        ensures
            match command {
                Some(name) => r@ == help_for(self.entries(), name@),
                None => r@ == "Available commands:\n"@ + help_lines(self.entries()),
            },
    {
        match command {
            Some(name) => {
                match self.registry.get(name) {
                    Some(cmd) => {
                        let mut help = String::from_str("/");
                        help.append(cmd.name.as_str());
                        help.append(" - ");
                        match &cmd.description {
                            Some(d) => help.append(d.as_str()),
                            None => help.append("No description"),
                        }
                        match &cmd.usage {
                            Some(u) => {
                                help.append("\nUsage: ");
                                help.append(u.as_str());
                            },
                            None => {},
                        }
                        help
                    },
                    None => {
                        let mut help = String::from_str("Command /");
                        help.append(name);
                        help.append(" not found");
                        help
                    },
                }
            },
            None => {
                let mut help = String::from_str("Available commands:\n");
                let all = self.registry.all();
                let n: usize = all.len();
                let mut k: usize = 0;
                proof {
                    assert(self.entries().subrange(0, 0) =~= Seq::<Command>::empty());
                }
                while k < n
                    invariant
                        k <= n,
                        n == self.entries().len(),
                        all@ == self.entries(),
                        help@ == "Available commands:\n"@ + help_lines(
                            self.entries().subrange(0, k as int),
                        ),
                    decreases n - k,
                {
                    help.append("  /");
                    help.append(all[k].name.as_str());
                    help.append(" - ");
                    match &all[k].description {
                        Some(d) => help.append(d.as_str()),
                        None => {},
                    }
                    help.append("\n");
                    proof {
                        let pre = self.entries().subrange(0, k as int);
                        let cur = self.entries().subrange(0, k + 1);
                        assert(cur.drop_last() =~= pre);
                        assert(cur.last() == self.entries()[k as int]);
                        assert(help@ =~= "Available commands:\n"@ + help_lines(cur));
                    }
                    k = k + 1;
                }
                proof {
                    assert(self.entries().subrange(0, n as int) =~= self.entries());
                }
                help
            },
        }
    }

    pub fn prefix(&self) -> (r: &str)
        ensures
            r@ == self.prefix_spec(),
    {
        self.prefix.as_str()
    }
}

} // verus!
