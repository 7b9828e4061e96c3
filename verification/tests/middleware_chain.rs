use carik_bot::middleware::{run_chain, Middleware, MiddlewareChain};
use carik_bot::{
    Context, LoggingMiddleware, Message, MessageDispatcher, MiddlewareError, RateLimitMiddleware,
};

#[test]
fn rate_limit_allows_then_rejects() {
    let mut limiter = RateLimitMiddleware::new(2, 60);
    let t0: u64 = 1_000_000;
    assert!(limiter.check_rate_limit("key", t0).is_ok());
    assert!(limiter.check_rate_limit("key", t0 + 200).is_ok());
    let rejected = limiter.check_rate_limit("key", t0 + 900);
    match rejected {
        Err(MiddlewareError::RateLimited { retry_after_ms }) => {
            // the oldest stamp is 900 ms old, so the wait is the window less that
            assert_eq!(retry_after_ms, 60_000 - 900);
        },
        _ => panic!("expected a rate-limited rejection"),
    }
    // past the window the key is fresh again
    assert!(limiter.check_rate_limit("key", t0 + 61_000).is_ok());
}

#[test]
fn rate_limit_keys_are_independent() {
    let mut limiter = RateLimitMiddleware::new(1, 60);
    let t0: u64 = 5_000;
    assert!(limiter.check_rate_limit("a", t0).is_ok());
    assert!(limiter.check_rate_limit("b", t0).is_ok());
    assert!(limiter.check_rate_limit("a", t0 + 1).is_err());
}

#[test]
fn blocking_middleware_short_circuits() {
    let mut chain = MiddlewareChain::new()
        .add(Middleware::Block("nope".to_string()))
        .add(Middleware::Logging(LoggingMiddleware::new()))
        .build();
    let ctx = Context::new(Message::from_text("c1", "hello"));
    let result = run_chain(&mut chain, ctx, 0);
    match result {
        Err(MiddlewareError::Blocked(reason)) => assert_eq!(reason, "nope"),
        _ => panic!("expected the block to halt the chain"),
    }
    // the logger after the block never ran: no records
    match &chain[1] {
        Middleware::Logging(lg) => assert!(lg.records().is_empty()),
        _ => panic!("expected the logger to still be there"),
    }
}

#[test]
fn chain_runs_in_list_order() {
    let mut chain = MiddlewareChain::new()
        .add(Middleware::Note("a".to_string()))
        .add(Middleware::Note("b".to_string()))
        .add(Middleware::Note("c".to_string()))
        .build();
    let ctx = Context::new(Message::from_text("c1", "hello"));
    let out = run_chain(&mut chain, ctx, 0).expect("all middleware pass");
    assert_eq!(out.get("trail").expect("trail written").as_str(), "abc");
}

#[test]
fn logging_records_preview_and_outcome() {
    let mut chain = MiddlewareChain::new()
        .add(Middleware::Logging(LoggingMiddleware::new()))
        .build();
    let ctx = Context::new(Message::from_text("c1", "hello there"));
    run_chain(&mut chain, ctx, 0).expect("chain passes");
    match &chain[0] {
        Middleware::Logging(lg) => {
            let records = lg.records();
            assert_eq!(records.len(), 2);
            assert_eq!(records[0], "hello there");
            assert_eq!(records[1], "Processed OK");
        },
        _ => panic!("expected the logger"),
    }
}

#[test]
fn logging_truncates_long_previews() {
    let mut chain = MiddlewareChain::new()
        .add(Middleware::Logging(LoggingMiddleware::new()))
        .build();
    let long = "x".repeat(80);
    let ctx = Context::new(Message::from_text("c1", &long));
    run_chain(&mut chain, ctx, 0).expect("chain passes");
    match &chain[0] {
        Middleware::Logging(lg) => {
            assert_eq!(lg.records()[0].len(), 50);
        },
        _ => panic!("expected the logger"),
    }
}

#[test]
fn rate_limited_chain_reports_error_and_logs_it() {
    let mut chain = MiddlewareChain::new()
        .add(Middleware::Logging(LoggingMiddleware::new()))
        .add(Middleware::RateLimit(RateLimitMiddleware::new(0, 60)))
        .build();
    let ctx = Context::new(Message::from_text("c1", "hello"));
    let result = run_chain(&mut chain, ctx, 42);
    assert!(matches!(result, Err(MiddlewareError::RateLimited { .. })));
    match &chain[0] {
        Middleware::Logging(lg) => {
            assert_eq!(lg.records()[1], "Error");
        },
        _ => panic!("expected the logger"),
    }
}

#[test]
fn context_blackboard_last_write_wins() {
    let mut ctx = Context::new(Message::from_text("c1", "hello"));
    assert!(ctx.get("k").is_none());
    ctx.set("k", "v1");
    ctx.set("k", "v2");
    assert_eq!(ctx.get("k").unwrap().as_str(), "v2");
}

#[test]
fn context_denormalizes_sender() {
    let msg = Message::from_text("c1", "hello")
        .with_sender(carik_bot::User::new("u77"));
    let ctx = Context::new(msg);
    assert_eq!(ctx.chat_id, "c1");
    assert_eq!(ctx.user_id.as_deref(), Some("u77"));
}

#[test]
fn middleware_error_messages() {
    assert_eq!(
        MiddlewareError::Blocked("x".to_string()).message(),
        "Blocked: x"
    );
    assert_eq!(
        MiddlewareError::RateLimited { retry_after_ms: 5 }.message(),
        "Rate limited"
    );
    assert_eq!(
        MiddlewareError::PermissionDenied("p".to_string()).message(),
        "Permission denied: p"
    );
    assert_eq!(
        MiddlewareError::Internal("i".to_string()).message(),
        "Internal error: i"
    );
}

#[test]
fn dispatcher_applies_rate_limit_middleware() {
    let mut dispatcher = MessageDispatcher::new("/")
        .with_middleware(Middleware::RateLimit(RateLimitMiddleware::new(2, 60)));
    assert_eq!(dispatcher.process_text("c1", "one").unwrap(), "Echo: one");
    assert_eq!(dispatcher.process_text("c1", "two").unwrap(), "Echo: two");
    assert_eq!(
        dispatcher.process_text("c1", "three").unwrap(),
        "Rate limited. Please try again later."
    );
}

#[test]
fn dispatcher_returns_block_reason_verbatim() {
    let mut dispatcher = MessageDispatcher::new("/")
        .with_middleware(Middleware::Block("down for maintenance".to_string()));
    assert_eq!(
        dispatcher.process_text("c1", "/help").unwrap(),
        "down for maintenance"
    );
}
