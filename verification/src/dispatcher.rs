use vstd::prelude::*;
use crate::clock;
use crate::command::{named_command, Command, CommandAction, CommandRegistry};
use crate::errors::BotError;
use crate::message::{Content, Message};
use crate::middleware::{
    is_halt_at, lookup, mw_evolved, mw_wf, passes_upto, Context, Middleware, MiddlewareError,
};
use crate::parser::{command_args, command_name, is_command_text, MessageParser};

verus! {

/// The reply the command handler owes for `name`: the registered handler's
/// reply, or the unknown-command notice.
pub open spec fn handler_reply(entries: Seq<Command>, name: Seq<char>) -> Seq<char> {
    match named_command(entries, name) {
        Some(c) => match c.handler {
            Some(CommandAction::Reply(s)) => s@,
            None => "Unknown command: /"@ + name,
        },
        None => "Unknown command: /"@ + name,
    }
}

/// The reply the dispatcher owes on the normal path, by content: a command's
/// handler reply, an echo for plain text, and nothing for the rest.
pub open spec fn normal_reply(entries: Seq<Command>, content: &Content) -> Seq<char> {
    match content {
        Content::Command { name, args: _ } => handler_reply(entries, name@),
        Content::Text(t) => "Echo: "@ + t@,
        _ => Seq::empty(),
    }
}

/// The actor key the rate-limiting middleware buckets `message` by.
pub open spec fn message_key(message: &Message) -> Seq<char> {
    match message.sender {
        Some(u) => u.id@,
        None => message.chat_id@,
    }
}

/// Registry of built-in command handlers, resolved by exact name.
pub struct CommandHandler {
    commands: CommandRegistry,
}

impl CommandHandler {
    pub closed spec fn entries(&self) -> Seq<Command> {
        self.commands.entries()
    }

    pub open spec fn wf(&self) -> bool {
        crate::command::unique_names(self.entries())
    }

    /// Starts with the default `help` and `version` commands registered.
    pub fn new() -> (r: CommandHandler)
        ensures
            r.wf(),
            r.entries().len() == 2,
            handler_reply(r.entries(), "help"@)
                == "Available commands:\n/help - Show this message\n/version - Show version"@,
            handler_reply(r.entries(), "version"@) == "carik-bot v0.1.0"@,
    {
        let mut commands = CommandRegistry::new();
        let help_cmd = Command::new("help").with_description("Show help message").with_handler(
            CommandAction::Reply(
                String::from_str(
                    "Available commands:\n/help - Show this message\n/version - Show version",
                ),
            ),
        );
        let ghost h = help_cmd;
        commands.register(help_cmd);
        let version_cmd = Command::new("version").with_description("Show bot version").with_handler(
            CommandAction::Reply(String::from_str("carik-bot v0.1.0")),
        );
        let ghost v = version_cmd;
        commands.register(version_cmd);
        proof {
            reveal_strlit("help");
            reveal_strlit("version");
            assert("help"@.len() == 4);
            assert("version"@.len() == 7);
            assert(crate::command::insert_spec(Seq::<Command>::empty(), h) =~= seq![h]);
            assert(seq![h].drop_first() =~= Seq::<Command>::empty());
            assert(crate::command::insert_spec(Seq::<Command>::empty(), v) =~= seq![v]);
            assert(crate::command::insert_spec(seq![h], v) =~= seq![h, v]);
            assert(commands.entries() =~= seq![h, v]);
            assert(named_command(seq![h, v], "help"@) == Some(h));
            assert(seq![h, v].drop_first() =~= seq![v]);
            assert(named_command(seq![v], "version"@) == Some(v));
            assert(named_command(seq![h, v], "version"@) == Some(v));
        }
        CommandHandler { commands }
    }

    pub fn register(&mut self, command: Command)
        requires
            old(self).wf(),
        ensures
            final(self).wf(),
            final(self).entries() == crate::command::insert_spec(old(self).entries(), command),
    {
        self.commands.register(command);
    }

    /// Resolve `name` exactly and run its handler against the context's
    /// message; unknown or handlerless names get the notice, not an error.
    pub fn handle(&self, name: &str, ctx: &Context) -> (r: Result<String, BotError>)
        ensures
            r matches Ok(t) && t@ == handler_reply(self.entries(), name@),
    {
        match self.commands.get(name) {
            Some(cmd) => match &cmd.handler {
                Some(action) => match action.run(&ctx.message) {
                    Ok(s) => Ok(s),
                    Err(e) => Err(BotError::Command(e)),
                },
                None => {
                    let mut t = String::from_str("Unknown command: /");
                    t.append(name);
                    Ok(t)
                },
            },
            None => {
                let mut t = String::from_str("Unknown command: /");
                t.append(name);
                Ok(t)
            },
        }
    }
}

/// How a finished dispatch relates the reply `r` to the configured chain and
/// handlers, at the clock reading `now` the dispatch ran with.
pub open spec fn dispatch_spec(
    mws0: Seq<Middleware>,
    mws2: Seq<Middleware>,
    entries: Seq<Command>,
    message: &Message,
    r: &Result<String, BotError>,
    now: u64,
) -> bool {
    let key = message_key(message);
    let n = mws0.len() as int;
    &&& passes_upto(mws0, key, now, n) ==> (r matches Ok(t) && t@ == normal_reply(
        entries,
        &message.content,
    )) && (forall|i: int|
        0 <= i < n ==> mw_evolved(&mws2[i], &mws0[i], i, n, n, message, key, now))
    &&& forall|h: int|
        is_halt_at(mws0, key, now, h) ==> (match mws0[h] {
            Middleware::Block(reason) => r matches Ok(t) && t@ == reason@,
            Middleware::RateLimit(_) => r matches Ok(t) && t@
                == "Rate limited. Please try again later."@,
            _ => false,
        }) && (forall|i: int|
            0 <= i < n ==> mw_evolved(&mws2[i], &mws0[i], i, h, n, message, key, now))
}

/// Routes a message through the middleware chain to a command handler or
/// the default echo behaviour.
pub struct MessageDispatcher {
    parser: MessageParser,
    middleware: Vec<Middleware>,
    command_handler: CommandHandler,
}

impl MessageDispatcher {
    pub closed spec fn prefix_spec(&self) -> Seq<char> {
        self.parser.prefix_spec()
    }

    pub closed spec fn middleware_spec(&self) -> Seq<Middleware> {
        self.middleware@
    }

    pub closed spec fn entries(&self) -> Seq<Command> {
        self.command_handler.entries()
    }

    pub open spec fn wf(&self) -> bool {
        crate::command::unique_names(self.entries()) && forall|i: int|
            0 <= i < self.middleware_spec().len() ==> mw_wf(&self.middleware_spec()[i])
    }

    pub fn new(prefix: &str) -> (r: MessageDispatcher)
        ensures
            r.wf(),
            r.prefix_spec() == prefix@,
            r.middleware_spec() == Seq::<Middleware>::empty(),
            r.entries().len() == 2,
            handler_reply(r.entries(), "help"@)
                == "Available commands:\n/help - Show this message\n/version - Show version"@,
            handler_reply(r.entries(), "version"@) == "carik-bot v0.1.0"@,
    {
        let r = MessageDispatcher {
            parser: MessageParser::new(prefix),
            middleware: Vec::new(),
            command_handler: CommandHandler::new(),
        };
        proof {
            assert(r.middleware_spec() =~= Seq::<Middleware>::empty());
        }
        r
    }

    /// Add middleware to the end of the chain.
    pub fn with_middleware(self, middleware: Middleware) -> (r: MessageDispatcher)
        requires
            self.wf(),
            mw_wf(&middleware),
        ensures
            r.wf(),
            r.prefix_spec() == self.prefix_spec(),
            r.middleware_spec() == self.middleware_spec().push(middleware),
            r.entries() == self.entries(),
    {
        let mut d = self;
        d.middleware.push(middleware);
        proof {
            assert(d.middleware_spec() =~= self.middleware_spec().push(middleware));
            assert(forall|i: int|
                0 <= i < d.middleware_spec().len() ==> mw_wf(#[trigger] &d.middleware_spec()[i]));
        }
        d
    }

    /// Register a command handler.
    pub fn register_command(&mut self, command: Command)
        requires
            old(self).wf(),
        ensures
            final(self).wf(),
            final(self).prefix_spec() == old(self).prefix_spec(),
            final(self).middleware_spec() == old(self).middleware_spec(),
            final(self).entries() == crate::command::insert_spec(old(self).entries(), command),
    {
        self.command_handler.register(command);
        proof {
            assert(self.middleware_spec() == old(self).middleware_spec());
            assert(forall|i: int|
                0 <= i < self.middleware_spec().len() ==> mw_wf(
                    #[trigger] &self.middleware_spec()[i],
                ));
        }
    }

    /// Parse raw text and dispatch the resulting message.
    pub fn process_text(&mut self, chat_id: &str, text: &str) -> (r: Result<String, BotError>)
        requires
            old(self).wf(),
        ensures
            final(self).wf(),
            final(self).prefix_spec() == old(self).prefix_spec(),
            final(self).entries() == old(self).entries(),
            exists|message: Message, now: u64|
                {
                    &&& message.chat_id@ == chat_id@
                    &&& message.sender is None
                    &&& is_command_text(text@, old(self).prefix_spec()) ==> (
                    message.content matches Content::Command { name, args } && name@
                        == command_name(text@, old(self).prefix_spec()) && args.deep_view()
                        == command_args(text@, old(self).prefix_spec()))
                    &&& !is_command_text(text@, old(self).prefix_spec()) ==> (
                    message.content matches Content::Text(t) && t@ == text@)
                    &&& dispatch_spec(
                        old(self).middleware_spec(),
                        final(self).middleware_spec(),
                        old(self).entries(),
                        &message,
                        &r,
                        now,
                    )
                },
    {
        let message = self.parser.parse(chat_id, text, None);
        let ghost msg = message;
        let r = self.process(message);
        proof {
            let now = choose|now: u64|
                dispatch_spec(
                    old(self).middleware_spec(),
                    self.middleware_spec(),
                    old(self).entries(),
                    &msg,
                    &r,
                    now,
                );
            assert(dispatch_spec(
                old(self).middleware_spec(),
                self.middleware_spec(),
                old(self).entries(),
                &msg,
                &r,
                now,
            ));
        }
        r
    }

    /// Dispatch one message: wrap it in a fresh context, run the chain, then
    /// resolve a command or echo; the reply follows `dispatch_spec` at the
    /// clock reading the dispatch ran with.
    pub fn process(&mut self, message: Message) -> (r: Result<String, BotError>)
        requires
            old(self).wf(),
        ensures
            final(self).wf(),
            final(self).prefix_spec() == old(self).prefix_spec(),
            final(self).entries() == old(self).entries(),
            exists|now: u64|
                dispatch_spec(
                    old(self).middleware_spec(),
                    final(self).middleware_spec(),
                    old(self).entries(),
                    &message,
                    &r,
                    now,
                ),
    {
        let ghost msg = message;
        let ctx = Context::new(message);
        let ghost c0 = ctx;
        let now = clock::now_ms();
        let result = crate::middleware::run_chain(&mut self.middleware, ctx, now);
        match result {
            Ok(ctx) => {
                let out = self.run_handler(ctx);
                proof {
                    assert(message_key(&msg) == crate::middleware::ctx_key(&c0));
                    assert(dispatch_spec(
                        old(self).middleware_spec(),
                        self.middleware_spec(),
                        old(self).entries(),
                        &msg,
                        &out,
                        now,
                    ));
                }
                out
            },
            Err(e) => {
                let out: Result<String, BotError> = match e {
                    MiddlewareError::Blocked(msg_text) => Ok(msg_text),
                    MiddlewareError::RateLimited { .. } => Ok(
                        String::from_str("Rate limited. Please try again later."),
                    ),
                    MiddlewareError::PermissionDenied(msg_text) => {
                        let mut t = String::from_str("Permission denied: ");
                        t.append(msg_text.as_str());
                        Ok(t)
                    },
                    MiddlewareError::Internal(msg_text) => Err(BotError::Internal(msg_text)),
                };
                proof {
                    assert(message_key(&msg) == crate::middleware::ctx_key(&c0));
                    assert(dispatch_spec(
                        old(self).middleware_spec(),
                        self.middleware_spec(),
                        old(self).entries(),
                        &msg,
                        &out,
                        now,
                    ));
                }
                out
            },
        }
    }

    /// The terminal step of the chain: resolve and run the handler, or echo.
    fn run_handler(&self, ctx: Context) -> (r: Result<String, BotError>)
        ensures
            r matches Ok(t) && t@ == normal_reply(self.entries(), &ctx.message.content),
    {
        let mut ctx = ctx;
        match &ctx.message.content {
            Content::Command { name, args: _ } => {
                let name_owned = name.clone();
                match self.command_handler.handle(name_owned.as_str(), &ctx) {
                    Ok(response) => {
                        let ghost d0 = ctx.data_spec();
                        let resp2 = response.clone();
                        ctx.set_owned("response", response);
                        proof {
                            assert(lookup(ctx.data_spec(), "response"@) == Some(resp2@));
                        }
                        match ctx.get("response") {
                            Some(v) => Ok(v.clone()),
                            None => Ok(String::new()),
                        }
                    },
                    Err(e) => {
                        let m = e.message();
                        Err(BotError::Internal(m))
                    },
                }
            },
            Content::Text(t) => {
                let mut response = String::from_str("Echo: ");
                response.append(t.as_str());
                Ok(response)
            },
            _ => Ok(String::new()),
        }
    }
}

} // verus!
