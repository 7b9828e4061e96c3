use vstd::prelude::*;
use crate::text::{self, join_with, replace_spec};

verus! {

/// One feed entry as plain values, exactly as the parser reported them.
pub struct FeedItem {
    pub title: Option<String>,
    pub link: Option<String>,
}

pub open spec fn item_views(items: Seq<FeedItem>) -> Seq<(Option<Seq<char>>, Option<Seq<char>>)> {
    items.map_values(
        |it: FeedItem|
            (
                match it.title {
                    Some(t) => Some(t@),
                    None => None,
                },
                match it.link {
                    Some(l) => Some(l@),
                    None => None,
                },
            ),
    )
}

/// What rss's parser makes of the bytes: the channel title and each item's
/// title and link, or nothing when the bytes are not a feed. The result is
/// a function of the bytes alone.
pub uninterp spec fn feed_of(bytes: Seq<u8>) -> Option<
    (Seq<char>, Seq<(Option<Seq<char>>, Option<Seq<char>>)>),
>;

/// Relies on rss's `Channel::read_from`: parsing is deterministic in the
/// bytes, and the channel title and the items' titles and links are handed
/// over unchanged.
#[verifier::external_body]
fn parse_channel(bytes: &Vec<u8>) -> (r: Result<(String, Vec<FeedItem>), String>)
    ensures
        match r {
            Ok(p) => feed_of(bytes@) matches Some(f) && f.0 == p.0@ && f.1 == item_views(p.1@),
            Err(_) => feed_of(bytes@) is None,
        },
{
    match rss::Channel::read_from(&bytes[..]) {
        Ok(channel) => {
            let title = channel.title().to_string();
            let items = channel.items().iter().map(
                |item| FeedItem {
                    title: item.title().map(|t| t.to_string()),
                    link: item.link().map(|l| l.to_string()),
                },
            ).collect();
            Ok((title, items))
        },
        Err(e) => Err(e.to_string()),
    }
}

/// One item rendered: its title (or the placeholder) and its link.
pub open spec fn item_line(it: (Option<Seq<char>>, Option<Seq<char>>)) -> Seq<char> {
    "\u{1f4f0} "@ + (match it.0 {
        Some(t) => t,
        None => "No title"@,
    }) + "\n\u{1f517} "@ + (match it.1 {
        Some(l) => l,
        None => Seq::empty(),
    })
}

/// At most the first five items.
pub open spec fn first_five(items: Seq<(Option<Seq<char>>, Option<Seq<char>>)>) -> Seq<
    (Option<Seq<char>>, Option<Seq<char>>),
> {
    if items.len() > 5 {
        items.subrange(0, 5)
    } else {
        items
    }
}

/// The feed rendered: a header with the title (asterisks escaped) and the
/// first five items, blank-line separated.
pub open spec fn feed_text(
    title: Seq<char>,
    items: Seq<(Option<Seq<char>>, Option<Seq<char>>)>,
) -> Seq<char> {
    "\u{1f4e1} *"@ + replace_spec(title, "*"@, "\\*"@) + "*\n\n"@ + join_with(
        first_five(items).map_values(|it: (Option<Seq<char>>, Option<Seq<char>>)| item_line(it)),
        "\n\n"@,
    )
}

/// Render a parsed feed's first items under its title.
pub fn format_feed(title: &str, items: &Vec<FeedItem>) -> (r: String)
    ensures
        r@ == feed_text(title@, item_views(items@)),
{
    let limit: usize = if items.len() > 5 {
        5
    } else {
        items.len()
    };
    let ghost taken = first_five(item_views(items@));
    let mut parts: Vec<Vec<char>> = Vec::new();
    let mut k: usize = 0;
    proof {
        assert(taken.subrange(0, 0).map_values(
            |it: (Option<Seq<char>>, Option<Seq<char>>)| item_line(it),
        ) =~~= Seq::<Seq<char>>::empty());
        assert(parts.deep_view() =~~= Seq::<Seq<char>>::empty());
    }
    while k < limit
        invariant
            k <= limit,
            limit <= items@.len(),
            item_views(items@).len() == items@.len(),
            taken == first_five(item_views(items@)),
            limit == taken.len(),
            parts.deep_view() == taken.subrange(0, k as int).map_values(
                |it: (Option<Seq<char>>, Option<Seq<char>>)| item_line(it),
            ),
        decreases limit - k,
    {
        let mut line = text::chars_of("\u{1f4f0} ");
        match &items[k].title {
            Some(t) => {
                let tv = text::chars_of(t.as_str());
                text::push_all(&mut line, &tv);
            },
            None => {
                let tv = text::chars_of("No title");
                text::push_all(&mut line, &tv);
            },
        }
        let mid = text::chars_of("\n\u{1f517} ");
        text::push_all(&mut line, &mid);
        match &items[k].link {
            Some(l) => {
                let lv = text::chars_of(l.as_str());
                text::push_all(&mut line, &lv);
            },
            None => {},
        }
        let ghost prev = parts.deep_view();
        parts.push(line);
        proof {
            assert(taken[k as int] == item_views(items@)[k as int]);
            assert(parts.deep_view() =~~= prev.push(item_line(taken[k as int])));
            assert(parts.deep_view() =~~= taken.subrange(0, k + 1).map_values(
                |it: (Option<Seq<char>>, Option<Seq<char>>)| item_line(it),
            ));
        }
        k = k + 1;
    }
    proof {
        assert(taken.subrange(0, limit as int) =~~= taken);
    }
    let sep = text::chars_of("\n\n");
    let joined = text::join_chars(&parts, &sep);
    let tv = text::chars_of(title);
    let star = text::chars_of("*");
    let esc = text::chars_of("\\*");
    proof {
        reveal_strlit("*");
    }
    let escaped = text::replace_chars(&tv, &star, &esc);
    let mut r = String::from_str("\u{1f4e1} *");
    let escaped_s = text::string_of(&escaped);
    r.append(escaped_s.as_str());
    r.append("*\n\n");
    let joined_s = text::string_of(&joined);
    r.append(joined_s.as_str());
    r
}

/// Parse feed bytes and render their first items; the parser's own failure
/// text is passed along when the bytes are not a feed.
pub fn feed_summary(bytes: &Vec<u8>) -> (r: Result<String, String>)
    ensures
        match feed_of(bytes@) {
            Some(f) => r matches Ok(t) && t@ == feed_text(f.0, f.1),
            None => r is Err,
        },
{
    match parse_channel(bytes) {
        Ok(p) => {
            let (title, items) = p;
            Ok(format_feed(title.as_str(), &items))
        },
        Err(e) => Err(e),
    }
}

} // verus!
