use vstd::prelude::*;
use crate::ratelimit::{kept, store_spec, times_of, unique_keys};
use crate::text::{self, find_char_from, find_sub_from, is_space, trim_spec};

verus! {

/// The domain of a URL: what stands between the second '/' and the next
/// one (or the end), as `split('/')` numbers the pieces.
pub open spec fn domain_spec(s: Seq<char>) -> Option<Seq<char>> {
    match find_char_from(s, '/', 0) {
        None => None,
        Some(p1) => match find_char_from(s, '/', (p1 + 1) as nat) {
            None => None,
            Some(p2) => {
                let stop = match find_char_from(s, '/', (p2 + 1) as nat) {
                    Some(p3) => p3 as int,
                    None => s.len() as int,
                };
                Some(s.subrange(p2 as int + 1, stop))
            },
        },
    }
}

/// Extract the domain of a URL, or report the URL invalid.
pub fn extract_domain(url: &str) -> (r: Result<String, String>)
    ensures
        match domain_spec(url@) {
            Some(d) => r matches Ok(s) && s@ == d,
            None => r matches Err(e) && e@ == "Invalid URL"@,
        },
{
    let uv = text::chars_of(url);
    let n: usize = uv.len();
    proof {
        crate::text::lemma_find_char_from_bounds(url@, '/', 0);
    }
    match text::find_char_at(&uv, '/', 0) {
        None => Err(String::from_str("Invalid URL")),
        Some(p1) => {
            proof {
                crate::text::lemma_find_char_from_bounds(url@, '/', (p1 + 1) as nat);
            }
            match text::find_char_at(&uv, '/', p1 + 1) {
                None => Err(String::from_str("Invalid URL")),
                Some(p2) => {
                    proof {
                        crate::text::lemma_find_char_from_bounds(url@, '/', (p2 + 1) as nat);
                    }
                    let stop: usize = match text::find_char_at(&uv, '/', p2 + 1) {
                        Some(p3) => p3,
                        None => n,
                    };
                    let d = text::subvec(&uv, p2 + 1, stop);
                    Ok(text::string_of(&d))
                },
            }
        },
    }
}

/// `s` with the blocks between each `open` marker and the end of the next
/// `close` marker removed, first block first; an unclosed block stays.
pub open spec fn remove_blocks_spec(s: Seq<char>, open: Seq<char>, close: Seq<char>) -> Seq<char>
    decreases s.len(),
    when open.len() >= 1 && close.len() >= 1
    via remove_blocks_spec_decreases
{
    match find_sub_from(s, open, 0) {
        None => s,
        Some(i) => match find_sub_from(s, close, i) {
            None => s,
            Some(e) => remove_blocks_spec(
                s.subrange(0, i as int) + s.subrange(e + close.len() as int, s.len() as int),
                open,
                close,
            ),
        },
    }
}

#[via_fn]
proof fn remove_blocks_spec_decreases(s: Seq<char>, open: Seq<char>, close: Seq<char>) {
    crate::text::lemma_find_sub_from_bounds(s, open, 0);
    match find_sub_from(s, open, 0) {
        None => {},
        Some(i) => {
            crate::text::lemma_find_sub_from_bounds(s, close, i);
        },
    }
}

/// Remove every `open`..`close` block, as `remove_blocks_spec` says.
fn remove_blocks(v: Vec<char>, open: &Vec<char>, close: &Vec<char>) -> (r: Vec<char>)
    requires
        open@.len() >= 1,
        close@.len() >= 1,
    ensures
        r@ == remove_blocks_spec(v@, open@, close@),
{
    let mut cur = v;
    loop
        invariant
            open@.len() >= 1,
            close@.len() >= 1,
            remove_blocks_spec(v@, open@, close@) == remove_blocks_spec(cur@, open@, close@),
        decreases cur@.len(),
    {
        proof {
            crate::text::lemma_find_sub_from_bounds(cur@, open@, 0);
        }
        let i: usize = match text::find_sub_at(&cur, open, 0) {
            None => {
                return cur;
            },
            Some(i) => i,
        };
        proof {
            crate::text::lemma_find_sub_from_bounds(cur@, close@, i as nat);
        }
        let e: usize = match text::find_sub_at(&cur, close, i) {
            None => {
                return cur;
            },
            Some(e) => e,
        };
        let cn: usize = cur.len();
        proof {
            assert(e + close@.len() <= cur@.len());
        }
        let mut next = text::subvec(&cur, 0, i);
        let tail = text::subvec(&cur, e + close.len(), cn);
        text::push_all(&mut next, &tail);
        cur = next;
    }
}

/// The text outside angle-bracket tags, scanned with an in-tag flag.
pub open spec fn strip_tags_rec(s: Seq<char>, i: nat, in_tag: bool) -> Seq<char>
    decreases s.len() - i,
    when i <= s.len()
{
    if i >= s.len() {
        Seq::empty()
    } else if s[i as int] == '<' {
        strip_tags_rec(s, (i + 1) as nat, true)
    } else if s[i as int] == '>' {
        strip_tags_rec(s, (i + 1) as nat, false)
    } else if !in_tag {
        seq![s[i as int]] + strip_tags_rec(s, (i + 1) as nat, in_tag)
    } else {
        strip_tags_rec(s, (i + 1) as nat, in_tag)
    }
}

/// Whitespace runs collapsed to single spaces.
pub open spec fn collapse_ws_rec(s: Seq<char>, i: nat, last_space: bool) -> Seq<char>
    decreases s.len() - i,
    when i <= s.len()
{
    if i >= s.len() {
        Seq::empty()
    } else if is_space(s[i as int]) {
        if last_space {
            collapse_ws_rec(s, (i + 1) as nat, true)
        } else {
            seq![' '] + collapse_ws_rec(s, (i + 1) as nat, true)
        }
    } else {
        seq![s[i as int]] + collapse_ws_rec(s, (i + 1) as nat, false)
    }
}

/// What `extract_content` returns: script blocks, style blocks and comments
/// removed, then all tags, with whitespace collapsed and the ends trimmed.
pub open spec fn extract_content_spec(html: Seq<char>) -> Seq<char> {
    let no_script = remove_blocks_spec(html, "<script"@, "</script>"@);
    let no_style = remove_blocks_spec(no_script, "<style"@, "</style>"@);
    let no_comments = remove_blocks_spec(no_style, "<!--"@, "-->"@);
    trim_spec(collapse_ws_rec(strip_tags_rec(no_comments, 0, false), 0, false))
}

/// Extract the readable text of an HTML page.
pub fn extract_content(html: &str) -> (r: String)
    ensures
        r@ == extract_content_spec(html@),
{
    let hv = text::chars_of(html);
    let open1 = text::chars_of("<script");
    let close1 = text::chars_of("</script>");
    let open2 = text::chars_of("<style");
    let close2 = text::chars_of("</style>");
    let open3 = text::chars_of("<!--");
    let close3 = text::chars_of("-->");
    proof {
        reveal_strlit("<script");
        reveal_strlit("</script>");
        reveal_strlit("<style");
        reveal_strlit("</style>");
        reveal_strlit("<!--");
        reveal_strlit("-->");
    }
    let no_script = remove_blocks(hv, &open1, &close1);
    let no_style = remove_blocks(no_script, &open2, &close2);
    let no_comments = remove_blocks(no_style, &open3, &close3);
    let n: usize = no_comments.len();
    let mut kept_chars: Vec<char> = Vec::new();
    let mut in_tag = false;
    let mut i: usize = 0;
    while i < n
        invariant
            i <= n,
            n == no_comments@.len(),
            strip_tags_rec(no_comments@, 0, false) == kept_chars@ + strip_tags_rec(
                no_comments@,
                i as nat,
                in_tag,
            ),
        decreases n - i,
    {
        let c = no_comments[i];
        let ghost prev = kept_chars@;
        if c == '<' {
            in_tag = true;
        } else if c == '>' {
            in_tag = false;
        } else if !in_tag {
            kept_chars.push(c);
            proof {
                assert(prev + (seq![no_comments@[i as int]] + strip_tags_rec(
                    no_comments@,
                    (i + 1) as nat,
                    in_tag,
                )) =~= kept_chars@ + strip_tags_rec(no_comments@, (i + 1) as nat, in_tag));
            }
        }
        i = i + 1;
    }
    let m: usize = kept_chars.len();
    let mut clean: Vec<char> = Vec::new();
    let mut last_space = false;
    let mut k: usize = 0;
    while k < m
        invariant
            k <= m,
            m == kept_chars@.len(),
            collapse_ws_rec(kept_chars@, 0, false) == clean@ + collapse_ws_rec(
                kept_chars@,
                k as nat,
                last_space,
            ),
        decreases m - k,
    {
        let c = kept_chars[k];
        let ghost prev = clean@;
        if c == ' ' || c == '\t' || c == '\n' || c == '\r' {
            if !last_space {
                clean.push(' ');
                last_space = true;
                proof {
                    assert(prev + (seq![' '] + collapse_ws_rec(kept_chars@, (k + 1) as nat, true))
                        =~= clean@ + collapse_ws_rec(kept_chars@, (k + 1) as nat, true));
                }
            }
        } else {
            clean.push(c);
            last_space = false;
            proof {
                assert(prev + (seq![kept_chars@[k as int]] + collapse_ws_rec(
                    kept_chars@,
                    (k + 1) as nat,
                    false,
                )) =~= clean@ + collapse_ws_rec(kept_chars@, (k + 1) as nat, false));
            }
        }
        k = k + 1;
    }
    let out = text::trim_chars(&clean);
    text::string_of(&out)
}

/// Per-domain request pacing for the crawler: timestamps of the last
/// minute's requests per domain. The caller supplies the clock reading.
pub struct RateLimiter {
    entries: Vec<(String, Vec<u64>)>,
    min_interval_ms: u64,
    max_per_minute: u32,
}

/// One trailing minute, in milliseconds.
pub open spec fn minute_ms() -> u64 {
    60000u64
}

impl RateLimiter {
    pub closed spec fn table(&self) -> Seq<(Seq<char>, Seq<u64>)> {
        self.entries@.map_values(|e: (String, Vec<u64>)| (e.0@, e.1@))
    }

    pub closed spec fn min_interval_spec(&self) -> u64 {
        self.min_interval_ms
    }

    pub closed spec fn max_per_minute_spec(&self) -> u32 {
        self.max_per_minute
    }

    pub open spec fn wf(&self) -> bool {
        unique_keys(self.table())
    }

    pub fn new(min_interval_ms: u64, max_per_minute: u32) -> (r: RateLimiter)
        ensures
            r.wf(),
            r.table() == Seq::<(Seq<char>, Seq<u64>)>::empty(),
            r.min_interval_spec() == min_interval_ms,
            r.max_per_minute_spec() == max_per_minute,
    {
        let r = RateLimiter { entries: Vec::new(), min_interval_ms, max_per_minute };
        proof {
            assert(r.table() =~= Seq::<(Seq<char>, Seq<u64>)>::empty());
        }
        r
    }

    /// Record a request to `domain` at `now`, after pruning that domain's
    /// timestamps to the trailing minute. The wait the pacing formula
    /// yields saturates to zero for every timestamp still in the window,
    /// so recording always proceeds; the count ceiling never delays a
    /// caller.
    pub fn record_request(&mut self, domain: &str, now: u64)
        requires
            old(self).wf(),
        ensures
            final(self).wf(),
            final(self).min_interval_spec() == old(self).min_interval_spec(),
            final(self).max_per_minute_spec() == old(self).max_per_minute_spec(),
            final(self).table() == store_spec(
                old(self).table(),
                domain@,
                kept(times_of(old(self).table(), domain@), now, minute_ms()).push(now),
            ),
    {
        let idx_opt = self.find_domain(domain);
        let ghost old_times = times_of(old(self).table(), domain@);
        proof {
            match idx_opt {
                Some(i) => {
                    crate::ratelimit::lemma_times_at(self.table(), domain@, i as int);
                },
                None => {
                    crate::ratelimit::lemma_times_missing(self.table(), domain@);
                },
            }
        }
        let mut pruned: Vec<u64> = match idx_opt {
            Some(i) => self.prune_domain(i, now),
            None => Vec::new(),
        };
        proof {
            if idx_opt is None {
                assert(old_times =~= Seq::<u64>::empty());
                assert(kept(old_times, now, minute_ms()) =~= pruned@);
            }
        }
        pruned.push(now);
        match idx_opt {
            Some(i) => {
                proof {
                    crate::ratelimit::lemma_store_replaces(
                        self.table(),
                        domain@,
                        pruned@,
                        i as int,
                    );
                    crate::ratelimit::lemma_store_unique(self.table(), domain@, pruned@);
                }
                self.entries[i] = (String::from_str(domain), pruned);
                proof {
                    assert(self.table() =~= store_spec(old(self).table(), domain@, pruned@));
                }
            },
            None => {
                proof {
                    crate::ratelimit::lemma_store_appends(self.table(), domain@, pruned@);
                    crate::ratelimit::lemma_store_unique(self.table(), domain@, pruned@);
                }
                self.entries.push((String::from_str(domain), pruned));
                proof {
                    assert(self.table() =~= store_spec(old(self).table(), domain@, pruned@));
                }
            },
        }
    }

    fn find_domain(&self, domain: &str) -> (r: Option<usize>)
        ensures
            match r {
                Some(i) => i < self.table().len() && self.table()[i as int].0 == domain@ && forall|
                    m: int,
                |
                    0 <= m < i ==> self.table()[m].0 != domain@,
                None => forall|m: int|
                    0 <= m < self.table().len() ==> self.table()[m].0 != domain@,
            },
    {
        let n: usize = self.entries.len();
        let dv = text::chars_of(domain);
        let mut i: usize = 0;
        while i < n
            invariant
                i <= n,
                n == self.entries@.len(),
                dv@ == domain@,
                forall|m: int| 0 <= m < i ==> self.table()[m].0 != domain@,
            decreases n - i,
        {
            let ev = text::chars_of(self.entries[i].0.as_str());
            if text::eq_chars(&ev, &dv) {
                return Some(i);
            }
            i = i + 1;
        }
        None
    }

    fn prune_domain(&self, idx: usize, now: u64) -> (r: Vec<u64>)
        requires
            idx < self.entries@.len(),
        ensures
            r@ == kept(self.entries@[idx as int].1@, now, minute_ms()),
    {
        let times = &self.entries[idx].1;
        let n: usize = times.len();
        let mut acc: Vec<u64> = Vec::new();
        let mut i: usize = 0;
        while i < n
            invariant
                i <= n,
                n == times@.len(),
                kept(times@, now, minute_ms()) == acc@ + crate::ratelimit::kept_from(
                    times@,
                    now,
                    minute_ms(),
                    i as int,
                ),
            decreases n - i,
        {
            let t = times[i];
            let age: u64 = if t >= now {
                0
            } else {
                now - t
            };
            if age < 60000 {
                let ghost prev = acc@;
                acc.push(t);
                proof {
                    assert(prev + (seq![times@[i as int]] + crate::ratelimit::kept_from(
                        times@,
                        now,
                        minute_ms(),
                        i + 1,
                    )) =~= acc@ + crate::ratelimit::kept_from(times@, now, minute_ms(), i + 1));
                }
            }
            i = i + 1;
        }
        proof {
            assert(acc@ + crate::ratelimit::kept_from(times@, now, minute_ms(), n as int) =~= acc@);
        }
        acc
    }
}

} // verus!
