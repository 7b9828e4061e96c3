use carik_bot::ansi::{clean_kiro_output, strip_ansi_codes, strip_colors};
use carik_bot::feed::feed_summary;
use carik_bot::financial::{format_crypto_feed, format_stock_feed};
use carik_bot::greeting::generate_greeting;
use carik_bot::webcrawl::{extract_content, extract_domain};
use carik_bot::{
    detect_news_source, detect_news_topic, detect_skill, is_coding_intent, is_news_conversation,
    is_rss_intent, route_decision, LLMMessage, RouteDecision,
};

#[test]
fn test_extract_domain() {
    assert_eq!(extract_domain("https://example.com/page").unwrap(), "example.com");
    assert_eq!(extract_domain("http://news.example.org/path").unwrap(), "news.example.org");
}

#[test]
fn test_extract_content() {
    let html = "<html><head><title>Test</title></head><body><p>Hello World</p></body></html>";
    let content = extract_content(html);
    assert!(content.contains("Hello World"));
}

#[test]
fn extract_content_drops_scripts_and_comments() {
    let html = "<p>keep</p><script>var x = 1;</script><!-- note --><style>p{}</style><p>more</p>";
    let content = extract_content(html);
    assert_eq!(content, "keepmore");
}

#[test]
fn extract_domain_rejects_bare_words() {
    assert!(extract_domain("not a url").is_err());
}

#[test]
fn coding_and_rss_intents() {
    assert!(is_coding_intent("please write a python script"));
    assert!(!is_coding_intent("good morning"));
    assert!(is_rss_intent("any latest news today?"));
    assert!(!is_rss_intent("how are you"));
}

#[test]
fn skill_detection_takes_first_match() {
    assert_eq!(detect_skill("what's the weather like").as_deref(), Some("weather"));
    assert_eq!(detect_skill("open my github repos").as_deref(), Some("github"));
    assert_eq!(detect_skill("nothing special").as_deref(), None);
}

#[test]
fn news_source_detection() {
    assert_eq!(detect_news_source("show me bbc headlines").as_deref(), Some("bbc"));
    assert_eq!(detect_news_source("anything from techcrunch").as_deref(), Some("techcrunch"));
    assert_eq!(detect_news_source("no outlets here").as_deref(), None);
}

#[test]
fn news_topic_detection() {
    let (display, url) = detect_news_topic("news from india please").expect("topic");
    assert_eq!(display, "India");
    assert!(url.contains("timesofindia"));
    assert!(detect_news_topic("nothing topical").is_none());
}

#[test]
fn news_conversation_markers() {
    let convo = vec![
        LLMMessage::user("hi"),
        LLMMessage::assistant("Pick a news source to continue."),
    ];
    assert!(is_news_conversation(&convo));
    let other = vec![LLMMessage::user("hi"), LLMMessage::assistant("hello!")];
    assert!(!is_news_conversation(&other));
}

#[test]
fn routing_prefers_news_context() {
    match route_decision("google", true) {
        RouteDecision::NewsFeed { url, display } => {
            assert!(url.contains("news.google.com"));
            assert_eq!(display, "google");
        },
        _ => panic!("expected a feed"),
    }
    match route_decision("latest hacker news", false) {
        RouteDecision::NewsFeed { url, display } => {
            assert!(url.contains("hnrss"));
            assert_eq!(display, "Hacker News");
        },
        _ => panic!("expected a feed"),
    }
    assert!(matches!(route_decision("debug my program", false), RouteDecision::Coding));
    assert!(matches!(route_decision("play some music", false), RouteDecision::Skill(_)));
    assert!(matches!(route_decision("tell me a joke", false), RouteDecision::Chat));
}

#[test]
fn greetings_by_language() {
    assert!(generate_greeting("carik-bot", "id").contains("Halo"));
    assert!(generate_greeting("carik-bot", "jv").contains("Sugeng rawuh"));
    assert!(generate_greeting("carik-bot", "en").contains("Hello"));
    assert!(generate_greeting("carik-bot", "xx").contains("Hello"));
}

#[test]
fn ansi_codes_are_stripped() {
    let cleaned = strip_colors("\u{1b}[31mred\u{1b}[0m plain");
    assert_eq!(cleaned, "red plain");
}

#[test]
fn tool_output_is_tidied() {
    let out = strip_ansi_codes("  \u{1b}[1mbold\u{1b}[0m line  \n  second  ");
    assert_eq!(out, "bold line\nsecond");
}

#[test]
fn kiro_output_drops_credits_footer() {
    let out = clean_kiro_output("result text\nCredits: 0.03 \u{2022} Time: 2s");
    assert_eq!(out, "result text");
}

#[test]
fn crypto_feed_keeps_only_long_plain_lines() {
    let content = "short\nthis line is definitely long enough to keep\n<tagged line that is long enough to drop>";
    let formatted = format_crypto_feed(content, "src");
    assert!(formatted.contains("*Crypto News*"));
    assert!(formatted.contains("\u{2022} this line is definitely long enough to keep"));
    assert!(!formatted.contains("short"));
    assert!(!formatted.contains("tagged"));
}

#[test]
fn stock_feed_names_market_upper_case() {
    let formatted = format_stock_feed("a market line that is long enough to keep\n", "us");
    assert!(formatted.contains("*Stock Market (US)*"));
    assert!(formatted.contains("a market line that is long enough to keep"));
}

#[test]
fn feed_summary_renders_items() {
    let xml = "<rss version=\"2.0\"><channel><title>My Feed</title>\
               <item><title>First story</title><link>https://example.com/1</link></item>\
               <item><title>Second story</title><link>https://example.com/2</link></item>\
               </channel></rss>";
    let bytes: Vec<u8> = xml.bytes().collect();
    let out = feed_summary(&bytes).expect("well-formed feed");
    assert!(out.contains("*My Feed*"));
    assert!(out.contains("First story"));
    assert!(out.contains("https://example.com/2"));
}

#[test]
fn feed_summary_rejects_garbage() {
    let bytes: Vec<u8> = b"not xml at all".to_vec();
    assert!(feed_summary(&bytes).is_err());
}
