use vstd::prelude::*;
use crate::message::{Content, Message};
use crate::ratelimit::{kept, store_spec, RateLimitMiddleware};
use crate::text;

verus! {

/// Middleware errors: the closed set of ways a middleware can halt the
/// chain. Blocking outcomes are business results, not failures.
#[derive(Debug)]
pub enum MiddlewareError {
    Blocked(String),
    RateLimited { retry_after_ms: u64 },
    PermissionDenied(String),
    Internal(String),
}

impl MiddlewareError {
    pub open spec fn message_spec(&self) -> Seq<char> {
        match self {
            MiddlewareError::Blocked(s) => "Blocked: "@ + s@,
            MiddlewareError::RateLimited { .. } => "Rate limited"@,
            MiddlewareError::PermissionDenied(s) => "Permission denied: "@ + s@,
            MiddlewareError::Internal(s) => "Internal error: "@ + s@,
        }
    }

    /// The error rendered as text.
    pub fn message(&self) -> (r: String)
        ensures
            r@ == self.message_spec(),
    {
        match self {
            MiddlewareError::Blocked(s) => {
                let mut m = String::from_str("Blocked: ");
                m.append(s.as_str());
                m
            },
            MiddlewareError::RateLimited { .. } => String::from_str("Rate limited"),
            MiddlewareError::PermissionDenied(s) => {
                let mut m = String::from_str("Permission denied: ");
                m.append(s.as_str());
                m
            },
            MiddlewareError::Internal(s) => {
                let mut m = String::from_str("Internal error: ");
                m.append(s.as_str());
                m
            },
        }
    }
}

// ---------------------------------------------------------------------------
// Context
// ---------------------------------------------------------------------------

/// Last-write-wins lookup in the context's blackboard records.
pub open spec fn lookup(s: Seq<(Seq<char>, Seq<char>)>, k: Seq<char>) -> Option<Seq<char>>
    decreases s.len(),
{
    if s.len() == 0 {
        None
    } else if s.last().0 == k {
        Some(s.last().1)
    } else {
        lookup(s.drop_last(), k)
    }
}

/// Per-request processing state: the message, denormalized ids, and a
/// string-keyed blackboard shared by middleware and handlers. Never shared
/// across requests.
pub struct Context {
    pub message: Message,
    pub chat_id: String,
    pub user_id: Option<String>,
    pub data: Vec<(String, String)>,
}

impl Context {
    /// The blackboard as written so far; `lookup` on it is the map the
    /// entries denote, later writes shadowing earlier ones.
    pub open spec fn data_spec(&self) -> Seq<(Seq<char>, Seq<char>)> {
        self.data@.map_values(|e: (String, String)| (e.0@, e.1@))
    }

    pub open spec fn get_spec(&self, k: Seq<char>) -> Option<Seq<char>> {
        lookup(self.data_spec(), k)
    }

    pub fn new(message: Message) -> (r: Context)
        ensures
            r.message == message,
            r.chat_id@ == message.chat_id@,
            match message.sender {
                Some(u) => r.user_id matches Some(x) && x@ == u.id@,
                None => r.user_id is None,
            },
            r.data_spec() == Seq::<(Seq<char>, Seq<char>)>::empty(),
    {
        let chat_id = message.chat_id.clone();
        let user_id = match &message.sender {
            Some(u) => Some(u.id.clone()),
            None => None,
        };
        let r = Context { message, chat_id, user_id, data: Vec::new() };
        proof {
            assert(r.data_spec() =~= Seq::<(Seq<char>, Seq<char>)>::empty());
        }
        r
    }

    /// Read a blackboard value.
    pub fn get(&self, key: &str) -> (r: Option<&String>)
        ensures
            match r {
                Some(v) => self.get_spec(key@) == Some(v@),
                None => self.get_spec(key@) is None,
            },
    {
        let n: usize = self.data.len();
        let kv = text::chars_of(key);
        let mut i: usize = n;
        proof {
            assert(self.data_spec().subrange(0, n as int) =~= self.data_spec());
        }
        loop
            invariant
                i <= n,
                n == self.data@.len(),
                kv@ == key@,
                lookup(self.data_spec(), key@) == lookup(
                    self.data_spec().subrange(0, i as int),
                    key@,
                ),
            decreases i,
        {
            proof {
                assert(self.data_spec().len() == n);
            }
            if i == 0 {
                return None;
            }
            let ev = text::chars_of(self.data[i - 1].0.as_str());
            proof {
                assert(self.data_spec().subrange(0, i as int).last() == self.data_spec()[i - 1]);
                assert(self.data_spec().subrange(0, i as int).drop_last()
                    =~= self.data_spec().subrange(0, i - 1));
            }
            if text::eq_chars(&ev, &kv) {
                return Some(&self.data[i - 1].1);
            }
            i = i - 1;
        }
    }

    /// Write a blackboard value; a later write for a key shadows earlier
    /// ones.
    pub fn set(&mut self, key: &str, value: &str)
        ensures
            final(self).message == old(self).message,
            final(self).chat_id == old(self).chat_id,
            final(self).user_id == old(self).user_id,
            final(self).data_spec() == old(self).data_spec().push((key@, value@)),
    {
        self.data.push((String::from_str(key), String::from_str(value)));
        proof {
            assert(self.data_spec() =~= old(self).data_spec().push((key@, value@)));
        }
    }

    /// Write a blackboard value, taking ownership of the value.
    pub fn set_owned(&mut self, key: &str, value: String)
        ensures
            final(self).message == old(self).message,
            final(self).chat_id == old(self).chat_id,
            final(self).user_id == old(self).user_id,
            final(self).data_spec() == old(self).data_spec().push((key@, value@)),
    {
        self.data.push((String::from_str(key), value));
        proof {
            assert(self.data_spec() =~= old(self).data_spec().push((key@, value@)));
        }
    }
}

// ---------------------------------------------------------------------------
// Logging middleware
// ---------------------------------------------------------------------------

/// What the logging middleware records before the continuation runs: a
/// preview of text content of at most fifty characters, or a placeholder.
pub open spec fn preview_spec(m: &Message) -> Seq<char> {
    match m.content {
        Content::Text(t) => if t@.len() <= 50 {
            t@
        } else {
            t@.subrange(0, 50)
        },
        _ => "[command]"@,
    }
}

/// Records a preview of each message before delegating and the outcome
/// after; never alters the result. The records stand in for a log sink.
pub struct LoggingMiddleware {
    records: Vec<String>,
}

impl LoggingMiddleware {
    pub closed spec fn records_spec(&self) -> Seq<Seq<char>> {
        self.records.deep_view()
    }

    pub fn new() -> (r: LoggingMiddleware)
        ensures
            r.records_spec() == Seq::<Seq<char>>::empty(),
    {
        let r = LoggingMiddleware { records: Vec::new() };
        proof {
            assert(r.records_spec() =~~= Seq::<Seq<char>>::empty());
        }
        r
    }

    /// All records so far, oldest first.
    pub fn records(&self) -> (r: &Vec<String>)
        ensures
            r.deep_view() == self.records_spec(),
    {
        &self.records
    }

    pub(crate) fn log_preview(&mut self, message: &Message)
        ensures
            final(self).records_spec() == old(self).records_spec().push(preview_spec(message)),
    {
        let ghost prev = self.records_spec();
        let text: String = match &message.content {
            Content::Text(t) => {
                let tv = text::chars_of(t.as_str());
                if tv.len() <= 50 {
                    t.clone()
                } else {
                    let cut = text::subvec(&tv, 0, 50);
                    text::string_of(&cut)
                }
            },
            _ => String::from_str("[command]"),
        };
        self.records.push(text);
        proof {
            assert(self.records_spec() =~~= prev.push(preview_spec(message)));
        }
    }

    pub(crate) fn log_outcome(&mut self, ok: bool)
        ensures
            final(self).records_spec() == old(self).records_spec().push(
                if ok {
                    "Processed OK"@
                } else {
                    "Error"@
                },
            ),
    {
        let ghost prev = self.records_spec();
        if ok {
            self.records.push(String::from_str("Processed OK"));
            proof {
                assert(self.records_spec() =~~= prev.push("Processed OK"@));
            }
        } else {
            self.records.push(String::from_str("Error"));
            proof {
                assert(self.records_spec() =~~= prev.push("Error"@));
            }
        }
    }
}


// ---------------------------------------------------------------------------
// The middleware chain
// ---------------------------------------------------------------------------

/// A processor in the pipeline. The closed set of variants stands in for
/// dynamic dispatch: each inspects the context, may reject the request, or
/// lets the rest of the chain run.
pub enum Middleware {
    /// Sliding-window rate limiting by actor key.
    RateLimit(RateLimitMiddleware),
    /// Records previews and outcomes without altering results.
    Logging(LoggingMiddleware),
    /// Access control: halts every request with the given reason.
    Block(String),
    /// Appends its label to the blackboard's trail and continues.
    Note(String),
}

/// The actor key a rate limiter buckets by: the user id when there is one,
/// else the chat id.
pub open spec fn ctx_key(ctx: &Context) -> Seq<char> {
    match ctx.user_id {
        Some(u) => u@,
        None => ctx.chat_id@,
    }
}

pub open spec fn mw_wf(m: &Middleware) -> bool {
    match m {
        Middleware::RateLimit(rl) => rl.wf(),
        _ => true,
    }
}

/// Does this middleware let the chain continue for this key at this time?
pub open spec fn mw_passes(m: &Middleware, key: Seq<char>, now: u64) -> bool {
    match m {
        Middleware::RateLimit(rl) => rl.would_allow(key, now),
        Middleware::Logging(_) => true,
        Middleware::Block(_) => false,
        Middleware::Note(_) => true,
    }
}

/// The first `h` middlewares all pass.
pub open spec fn passes_upto(mws: Seq<Middleware>, key: Seq<char>, now: u64, h: int) -> bool {
    forall|m: int| 0 <= m < h ==> mw_passes(&mws[m], key, now)
}

/// `h` is where the chain halts: everything before passes, `h` does not.
pub open spec fn is_halt_at(mws: Seq<Middleware>, key: Seq<char>, now: u64, h: int) -> bool {
    0 <= h < mws.len() && passes_upto(mws, key, now, h) && !mw_passes(&mws[h], key, now)
}

/// The error a halting middleware produces.
pub open spec fn err_matches(e: &MiddlewareError, m: &Middleware, key: Seq<char>, now: u64) -> bool {
    match m {
        Middleware::Block(reason) => e matches MiddlewareError::Blocked(s) && s@ == reason@,
        Middleware::RateLimit(rl) => e matches MiddlewareError::RateLimited { retry_after_ms }
            && retry_after_ms == rl.retry_spec(key, now),
        _ => false,
    }
}

/// The blackboard's trail value, empty until a note writes it.
pub open spec fn trail_of(data: Seq<(Seq<char>, Seq<char>)>) -> Seq<char> {
    match lookup(data, "trail"@) {
        Some(t) => t,
        None => Seq::empty(),
    }
}

/// How one middleware changes the blackboard: only a note writes, appending
/// its label to the trail.
pub open spec fn mw_data_step(m: &Middleware, data: Seq<(Seq<char>, Seq<char>)>) -> Seq<
    (Seq<char>, Seq<char>),
> {
    match m {
        Middleware::Note(label) => data.push(("trail"@, trail_of(data) + label@)),
        _ => data,
    }
}

/// The blackboard after the first `upto` middlewares ran, in list order.
pub open spec fn data_after(
    mws: Seq<Middleware>,
    data: Seq<(Seq<char>, Seq<char>)>,
    upto: int,
) -> Seq<(Seq<char>, Seq<char>)>
    decreases upto,
{
    if upto <= 0 {
        data
    } else {
        mw_data_step(&mws[upto - 1], data_after(mws, data, upto - 1))
    }
}

/// How one middleware's own state looks after a run that halted at `h`
/// (with `h == n` for a run that completed): untouched after the halt; a
/// rate limiter before it pruned and recorded, at it only pruned; a logger
/// before it holds the preview and the outcome.
pub open spec fn mw_evolved(
    m2: &Middleware,
    m1: &Middleware,
    i: int,
    h: int,
    n: int,
    msg: &Message,
    key: Seq<char>,
    now: u64,
) -> bool {
    if i > h {
        m2 == m1
    } else if i == h {
        match m1 {
            Middleware::RateLimit(rl1) => m2 matches Middleware::RateLimit(rl2)
                && rl2.max_spec() == rl1.max_spec() && rl2.window_spec() == rl1.window_spec()
                && rl2.table() == store_spec(
                rl1.table(),
                key,
                kept(rl1.times_spec(key), now, rl1.window_spec()),
            ),
            _ => m2 == m1,
        }
    } else {
        match m1 {
            Middleware::RateLimit(rl1) => m2 matches Middleware::RateLimit(rl2)
                && rl2.max_spec() == rl1.max_spec() && rl2.window_spec() == rl1.window_spec()
                && rl2.table() == store_spec(
                rl1.table(),
                key,
                kept(rl1.times_spec(key), now, rl1.window_spec()).push(now),
            ),
            Middleware::Logging(lg1) => m2 matches Middleware::Logging(lg2) && lg2.records_spec()
                == lg1.records_spec().push(preview_spec(msg)).push(
                if h == n {
                    "Processed OK"@
                } else {
                    "Error"@
                },
            ),
            _ => m2 == m1,
        }
    }
}

/// An ordered chain of middleware, built once and run in that exact order.
pub struct MiddlewareChain {
    middlewares: Vec<Middleware>,
}

impl MiddlewareChain {
    pub closed spec fn list(&self) -> Seq<Middleware> {
        self.middlewares@
    }

    pub fn new() -> (r: MiddlewareChain)
        ensures
            r.list() == Seq::<Middleware>::empty(),
    {
        let r = MiddlewareChain { middlewares: Vec::new() };
        proof {
            assert(r.list() =~= Seq::<Middleware>::empty());
        }
        r
    }

    pub fn add(self, middleware: Middleware) -> (r: MiddlewareChain)
        ensures
            r.list() == self.list().push(middleware),
    {
        let mut m = self;
        m.middlewares.push(middleware);
        m
    }

    pub fn build(self) -> (r: Vec<Middleware>)
        ensures
            r@ == self.list(),
    {
        self.middlewares
    }
}

/// Push the outcome record into every logger among the first `upto`
/// middlewares; touch nothing else.
fn log_outcomes(mws: &mut Vec<Middleware>, upto: usize, ok: bool)
    requires
        upto <= old(mws)@.len(),
    ensures
        final(mws)@.len() == old(mws)@.len(),
        forall|j: int| #![trigger final(mws)@[j]]
            0 <= j < old(mws)@.len() ==> match old(mws)@[j] {
                Middleware::Logging(lg1) => if j < upto {
                    final(mws)@[j] matches Middleware::Logging(lg2) && lg2.records_spec()
                        == lg1.records_spec().push(
                        if ok {
                            "Processed OK"@
                        } else {
                            "Error"@
                        },
                    )
                } else {
                    final(mws)@[j] == old(mws)@[j]
                },
                _ => final(mws)@[j] == old(mws)@[j],
            },
{
    let mut j: usize = 0;
    while j < upto
        invariant
            j <= upto,
            upto <= mws@.len(),
            mws@.len() == old(mws)@.len(),
            forall|m: int| j <= m < mws@.len() ==> mws@[m] == old(mws)@[m],
            forall|m: int| #![trigger mws@[m]]
                0 <= m < j ==> match old(mws)@[m] {
                    Middleware::Logging(lg1) => mws@[m] matches Middleware::Logging(lg2)
                        && lg2.records_spec() == lg1.records_spec().push(
                        if ok {
                            "Processed OK"@
                        } else {
                            "Error"@
                        },
                    ),
                    _ => mws@[m] == old(mws)@[m],
                },
        decreases upto - j,
    {
        match &mut mws[j] {
            Middleware::Logging(lg) => {
                lg.log_outcome(ok);
            },
            _ => {},
        }
        j = j + 1;
    }
}

/// Run the chain over the context, in list order, halting at the first
/// middleware that rejects. The continuation is a cursor over the list, so
/// no middleware can run twice and none past a halt runs at all.
#[verifier::loop_isolation(false)]
pub fn run_chain(mws: &mut Vec<Middleware>, ctx: Context, now: u64) -> (r: Result<
    Context,
    MiddlewareError,
>)
    requires
        forall|i: int| 0 <= i < old(mws)@.len() ==> mw_wf(&old(mws)@[i]),
    ensures
        final(mws)@.len() == old(mws)@.len(),
        forall|i: int| 0 <= i < final(mws)@.len() ==> mw_wf(&final(mws)@[i]),
        passes_upto(old(mws)@, ctx_key(&ctx), now, old(mws)@.len() as int) ==> (r matches Ok(c)
            && c.message == ctx.message && c.chat_id == ctx.chat_id && c.user_id == ctx.user_id
            && c.data_spec() == data_after(old(mws)@, ctx.data_spec(), old(mws)@.len() as int)) && (
        forall|i: int|
            0 <= i < old(mws)@.len() ==> mw_evolved(
                &final(mws)@[i],
                &old(mws)@[i],
                i,
                old(mws)@.len() as int,
                old(mws)@.len() as int,
                &ctx.message,
                ctx_key(&ctx),
                now,
            )),
        forall|h: int|
            is_halt_at(old(mws)@, ctx_key(&ctx), now, h) ==> (r matches Err(e) && err_matches(
                &e,
                &old(mws)@[h],
                ctx_key(&ctx),
                now,
            )) && (forall|i: int|
                0 <= i < old(mws)@.len() ==> mw_evolved(
                    &final(mws)@[i],
                    &old(mws)@[i],
                    i,
                    h,
                    old(mws)@.len() as int,
                    &ctx.message,
                    ctx_key(&ctx),
                    now,
                )),
{
    let ghost c0 = ctx;
    let ghost mws0 = mws@;
    let ghost key_spec = ctx_key(&ctx);
    let key: String = match &ctx.user_id {
        Some(u) => u.clone(),
        None => ctx.chat_id.clone(),
    };
    let mut ctx = ctx;
    let n: usize = mws.len();
    let mut i: usize = 0;
    while i < n
        invariant
            i <= n,
            n == mws@.len(),
            mws@.len() == mws0.len(),
            key@ == key_spec,
            key_spec == ctx_key(&c0),
            forall|m: int| 0 <= m < mws0.len() ==> mw_wf(&mws0[m]),
            passes_upto(mws0, key_spec, now, i as int),
            ctx.message == c0.message,
            ctx.chat_id == c0.chat_id,
            ctx.user_id == c0.user_id,
            ctx.data_spec() == data_after(mws0, c0.data_spec(), i as int),
            forall|m: int| i <= m < mws0.len() ==> mws@[m] == mws0[m],
            forall|m: int| 0 <= m < mws@.len() ==> mw_wf(&mws@[m]),
            forall|m: int| #![trigger mws@[m]]
                0 <= m < i ==> match mws0[m] {
                    Middleware::RateLimit(rl1) => mws@[m] matches Middleware::RateLimit(rl2)
                        && rl2.max_spec() == rl1.max_spec() && rl2.window_spec()
                        == rl1.window_spec() && rl2.table() == store_spec(
                        rl1.table(),
                        key_spec,
                        kept(rl1.times_spec(key_spec), now, rl1.window_spec()).push(now),
                    ),
                    Middleware::Logging(lg1) => mws@[m] matches Middleware::Logging(lg2)
                        && lg2.records_spec() == lg1.records_spec().push(preview_spec(&c0.message)),
                    _ => mws@[m] == mws0[m],
                },
        decreases n - i,
    {
        let halted: Option<MiddlewareError> = match &mut mws[i] {
            Middleware::RateLimit(rl) => {
                match rl.check_rate_limit(key.as_str(), now) {
                    Ok(()) => None,
                    Err(e) => Some(e),
                }
            },
            Middleware::Logging(lg) => {
                lg.log_preview(&ctx.message);
                None
            },
            Middleware::Block(reason) => Some(MiddlewareError::Blocked(reason.clone())),
            Middleware::Note(label) => {
                let mut trail: String = match ctx.get("trail") {
                    Some(v) => v.clone(),
                    None => String::new(),
                };
                trail.append(label.as_str());
                ctx.set_owned("trail", trail);
                None
            },
        };
        match halted {
            Some(e) => {
                proof {
                    assert(is_halt_at(mws0, key_spec, now, i as int));
                }
                log_outcomes(mws, i, false);
                proof {
                    assert forall|h: int|
                        is_halt_at(mws0, key_spec, now, h) implies h == i as int by {
                        if h < i as int {
                            assert(mw_passes(&mws0[h], key_spec, now));
                        } else if h > i as int {
                            assert(mw_passes(&mws0[i as int], key_spec, now));
                        }
                    }
                }
                return Err(e);
            },
            None => {},
        }
        i = i + 1;
    }
    log_outcomes(mws, n, true);
    proof {
        assert forall|h: int| is_halt_at(mws0, key_spec, now, h) implies false by {
            assert(mw_passes(&mws0[h], key_spec, now));
        }
    }
    Ok(ctx)
}

/// Concatenation of the note labels among the first `upto` middlewares, in
/// list order.
pub open spec fn labels_concat(mws: Seq<Middleware>, upto: int) -> Seq<char>
    decreases upto,
{
    if upto <= 0 {
        Seq::empty()
    } else {
        labels_concat(mws, upto - 1) + match mws[upto - 1] {
            Middleware::Note(label) => label@,
            _ => Seq::<char>::empty(),
        }
    }
}

/// Short-circuit: a chain whose head blocks halts at the head, and the
/// definition of `mw_evolved` then leaves every later middleware exactly as
/// it was — nothing after the halt ever runs.
pub proof fn lemma_short_circuit(mws: Seq<Middleware>, key: Seq<char>, now: u64)
    requires
        mws.len() >= 1,
        mws[0] is Block,
    ensures
        is_halt_at(mws, key, now, 0),
        forall|h: int| is_halt_at(mws, key, now, h) ==> h == 0,
        forall|m2: Middleware, i: int|
            1 <= i < mws.len() ==> (mw_evolved(
                &m2,
                &mws[i],
                i,
                0,
                mws.len() as int,
                &arbitrary(),
                key,
                now,
            ) <==> m2 == mws[i]),
{
    assert(!mw_passes(&mws[0], key, now));
    assert forall|h: int| is_halt_at(mws, key, now, h) implies h == 0 by {
        if h > 0 {
            assert(mw_passes(&mws[0], key, now));
        }
    }
}

/// Chain ordering: over any run that reaches them, notes append their
/// labels to the trail in exactly list order.
pub proof fn lemma_chain_order(
    mws: Seq<Middleware>,
    data: Seq<(Seq<char>, Seq<char>)>,
    upto: int,
)
    requires
        0 <= upto <= mws.len(),
    ensures
        trail_of(data_after(mws, data, upto)) == trail_of(data) + labels_concat(mws, upto),
    decreases upto,
{
    if upto <= 0 {
        assert(trail_of(data) + Seq::<char>::empty() =~= trail_of(data));
    } else {
        lemma_chain_order(mws, data, upto - 1);
        let d1 = data_after(mws, data, upto - 1);
        match mws[upto - 1] {
            Middleware::Note(label) => {
                let d2 = d1.push(("trail"@, trail_of(d1) + label@));
                assert(d2.last().0 == "trail"@);
                assert(trail_of(d2) == trail_of(d1) + label@);
                assert(trail_of(data) + labels_concat(mws, upto - 1) + label@ =~= trail_of(data)
                    + labels_concat(mws, upto));
            },
            _ => {
                assert(labels_concat(mws, upto) =~= labels_concat(mws, upto - 1));
            },
        }
    }
}

} // verus!
