use vstd::prelude::*;
use crate::text::{self, split_char_spec, trim_spec, upper};

verus! {

/// One feed line rendered as a bullet: trimmed, kept only when longer than
/// twenty characters and not markup, truncated to eighty characters.
pub open spec fn line_render(l: Seq<char>) -> Seq<char> {
    let c = trim_spec(l);
    if c.len() > 20 && !(c.len() > 0 && c[0] == '<') {
        "\u{2022} "@ + (if c.len() > 80 {
            c.subrange(0, 80)
        } else {
            c
        }) + "\n"@
    } else {
        Seq::empty()
    }
}

/// The rendered bullets of the given lines, in order.
pub open spec fn feed_items(lines: Seq<Seq<char>>) -> Seq<char>
    decreases lines.len(),
{
    if lines.len() == 0 {
        Seq::empty()
    } else {
        feed_items(lines.drop_last()) + line_render(lines.last())
    }
}

/// The first ten lines of the content, split at newlines.
pub open spec fn first_lines(content: Seq<char>) -> Seq<Seq<char>> {
    let lines = split_char_spec(content, '\n');
    if lines.len() > 10 {
        lines.subrange(0, 10)
    } else {
        lines
    }
}

pub open spec fn crypto_feed_spec(content: Seq<char>) -> Seq<char> {
    "\u{20bf} *Crypto News*\n\n"@ + feed_items(first_lines(content))
}

pub open spec fn stock_feed_spec(content: Seq<char>, market: Seq<char>) -> Seq<char> {
    "\u{1f4c8} *Stock Market ("@ + upper(market) + ")*\n\n"@ + feed_items(first_lines(content))
}

/// Render the bullets for at most the first ten lines.
fn render_items(lines: &Vec<Vec<char>>) -> (r: String)
    ensures
        r@ == feed_items(
            if lines.deep_view().len() > 10 {
                lines.deep_view().subrange(0, 10)
            } else {
                lines.deep_view()
            },
        ),
{
    let limit: usize = if lines.len() > 10 {
        10
    } else {
        lines.len()
    };
    let ghost taken = if lines.deep_view().len() > 10 {
        lines.deep_view().subrange(0, 10)
    } else {
        lines.deep_view()
    };
    let mut out: Vec<char> = Vec::new();
    let mut k: usize = 0;
    proof {
        assert(taken.subrange(0, 0) =~~= Seq::<Seq<char>>::empty());
    }
    while k < limit
        invariant
            k <= limit,
            limit <= lines@.len(),
            lines.deep_view().len() == lines@.len(),
            taken == (if lines.deep_view().len() > 10 {
                lines.deep_view().subrange(0, 10)
            } else {
                lines.deep_view()
            }),
            limit == taken.len(),
            out@ == feed_items(taken.subrange(0, k as int)),
        decreases limit - k,
    {
        let clean = text::trim_chars(&lines[k]);
        let keep = clean.len() > 20 && !(clean.len() > 0 && clean[0] == '<');
        if keep {
            let bullet = text::chars_of("\u{2022} ");
            text::push_all(&mut out, &bullet);
            if clean.len() > 80 {
                let cut = text::subvec(&clean, 0, 80);
                text::push_all(&mut out, &cut);
            } else {
                text::push_all(&mut out, &clean);
            }
            out.push('\n');
        }
        proof {
            reveal_strlit("\n");
            let pre = taken.subrange(0, k as int);
            let cur = taken.subrange(0, k + 1);
            assert(cur.drop_last() =~~= pre);
            assert(cur.last() == taken[k as int]);
            assert(taken[k as int] == lines.deep_view()[k as int]);
            assert(lines.deep_view()[k as int] =~= lines@[k as int]@);
            assert(out@ =~= feed_items(cur));
        }
        k = k + 1;
    }
    proof {
        assert(taken.subrange(0, limit as int) =~~= taken);
    }
    text::string_of(&out)
}

/// Format raw crypto feed content: a header and the first useful lines.
pub fn format_crypto_feed(content: &str, _source: &str) -> (r: String)
    ensures
        r@ == crypto_feed_spec(content@),
{
    let cv = text::chars_of(content);
    let lines = text::split_char(&cv, '\n');
    let items = render_items(&lines);
    let mut r = String::from_str("\u{20bf} *Crypto News*\n\n");
    r.append(items.as_str());
    r
}

/// Format raw stock feed content for a market: a header naming the market
/// in upper case and the first useful lines.
pub fn format_stock_feed(content: &str, market: &str) -> (r: String)
    ensures
        r@ == stock_feed_spec(content@, market@),
{
    let cv = text::chars_of(content);
    let lines = text::split_char(&cv, '\n');
    let items = render_items(&lines);
    let mv = text::chars_of(market);
    let mu = text::ascii_upper(&mv);
    let mus = text::string_of(&mu);
    let mut r = String::from_str("\u{1f4c8} *Stock Market (");
    r.append(mus.as_str());
    r.append(")*\n\n");
    r.append(items.as_str());
    r
}

} // verus!
