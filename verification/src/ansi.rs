use vstd::prelude::*;
use crate::text::{self, join_with, split_char_spec, trim_spec};

verus! {

pub open spec fn is_alpha(c: char) -> bool {
    ('a' <= c && c <= 'z') || ('A' <= c && c <= 'Z')
}

pub open spec fn is_digit_semi(c: char) -> bool {
    ('0' <= c && c <= '9') || c == ';'
}

/// Index of the first ASCII letter at or after `i`.
pub open spec fn first_alpha_from(s: Seq<char>, i: nat) -> Option<nat>
    decreases s.len() - i,
    when i <= s.len()
{
    if i >= s.len() {
        None
    } else if is_alpha(s[i as int]) {
        Some(i)
    } else {
        first_alpha_from(s, (i + 1) as nat)
    }
}

proof fn lemma_first_alpha_bounds(s: Seq<char>, i: nat)
    requires
        i <= s.len(),
    ensures
        match first_alpha_from(s, i) {
            Some(j) => i <= j < s.len() && is_alpha(s[j as int]),
            None => true,
        },
    decreases s.len() - i,
{
    if i >= s.len() {
    } else if is_alpha(s[i as int]) {
    } else {
        lemma_first_alpha_bounds(s, (i + 1) as nat);
    }
}

/// The text with escape sequences dropped by the cursor scanner: an escape
/// character eats the next character, and with a '[' it eats on through the
/// first ASCII letter.
pub open spec fn strip_esc_rec(s: Seq<char>, i: nat) -> Seq<char>
    decreases s.len() - i,
    when i <= s.len()
    via strip_esc_rec_decreases
{
    if i >= s.len() {
        Seq::empty()
    } else if s[i as int] == '\u{1b}' {
        if i + 1 >= s.len() {
            Seq::empty()
        } else if s[i as int + 1] == '[' {
            match first_alpha_from(s, (i + 2) as nat) {
                Some(j) => strip_esc_rec(s, (j + 1) as nat),
                None => Seq::empty(),
            }
        } else {
            strip_esc_rec(s, (i + 2) as nat)
        }
    } else {
        seq![s[i as int]] + strip_esc_rec(s, (i + 1) as nat)
    }
}

#[via_fn]
proof fn strip_esc_rec_decreases(s: Seq<char>, i: nat) {
    if i < s.len() && s[i as int] == '\u{1b}' && i + 1 < s.len() && s[i as int + 1] == '[' {
        lemma_first_alpha_bounds(s, (i + 2) as nat);
    }
}

/// What `strip_ansi_codes` returns: escape sequences dropped, the whole
/// trimmed, then every line trimmed and the lines joined with newlines.
pub open spec fn strip_ansi_codes_spec(s: Seq<char>) -> Seq<char> {
    let cleaned = trim_spec(strip_esc_rec(s, 0));
    join_with(split_char_spec(cleaned, '\n').map_values(|l: Seq<char>| trim_spec(l)), "\n"@)
}

/// Strip ANSI escape sequences and tidy the whitespace of tool output.
pub fn strip_ansi_codes(s: &str) -> (r: String)
    ensures
        r@ == strip_ansi_codes_spec(s@),
{
    let sv = text::chars_of(s);
    let n: usize = sv.len();
    let mut out: Vec<char> = Vec::new();
    let mut i: usize = 0;
    while i < n
        invariant
            i <= n,
            n == sv@.len(),
            sv@ == s@,
            strip_esc_rec(s@, 0) == out@ + strip_esc_rec(s@, i as nat),
        decreases n - i,
    {
        let c = sv[i];
        if c == '\u{1b}' {
            if i + 1 >= n {
                i = n;
            } else if sv[i + 1] == '[' {
                let mut k: usize = i + 2;
                while k < n && !(('a' <= sv[k] && sv[k] <= 'z') || ('A' <= sv[k] && sv[k] <= 'Z'))
                    invariant
                        i + 2 <= k <= n,
                        n == sv@.len(),
                        sv@ == s@,
                        first_alpha_from(s@, (i + 2) as nat) == first_alpha_from(s@, k as nat),
                    decreases n - k,
                {
                    k = k + 1;
                }
                if k < n {
                    proof {
                        assert(first_alpha_from(s@, (i + 2) as nat) == Some(k as nat));
                    }
                    i = k + 1;
                } else {
                    proof {
                        assert(first_alpha_from(s@, (i + 2) as nat) is None);
                    }
                    i = n;
                }
            } else {
                i = i + 2;
            }
        } else {
            let ghost prev = out@;
            out.push(c);
            proof {
                assert(prev + (seq![s@[i as int]] + strip_esc_rec(s@, (i + 1) as nat)) =~= out@
                    + strip_esc_rec(s@, (i + 1) as nat));
            }
            i = i + 1;
        }
    }
    let trimmed = text::trim_chars(&out);
    let lines = text::split_char(&trimmed, '\n');
    let mut tl: Vec<Vec<char>> = Vec::new();
    let m: usize = lines.len();
    let mut k: usize = 0;
    while k < m
        invariant
            k <= m,
            m == lines@.len(),
            lines.deep_view() == split_char_spec(trim_spec(strip_esc_rec(s@, 0)), '\n'),
            tl.deep_view() == lines.deep_view().subrange(0, k as int).map_values(
                |l: Seq<char>| trim_spec(l),
            ),
        decreases m - k,
    {
        let ghost prev = tl.deep_view();
        let t = text::trim_chars(&lines[k]);
        tl.push(t);
        proof {
            assert(lines.deep_view()[k as int] =~= lines@[k as int]@);
            assert(tl.deep_view() =~~= prev.push(trim_spec(lines.deep_view()[k as int])));
            assert(tl.deep_view() =~~= lines.deep_view().subrange(0, k + 1).map_values(
                |l: Seq<char>| trim_spec(l),
            ));
        }
        k = k + 1;
    }
    proof {
        assert(lines.deep_view().subrange(0, m as int) =~~= lines.deep_view());
        assert(tl.deep_view() =~~= lines.deep_view().map_values(|l: Seq<char>| trim_spec(l)));
    }
    let sep = text::chars_of("\n");
    let joined = text::join_chars(&tl, &sep);
    text::string_of(&joined)
}

/// Length of the run of digits and semicolons starting at `i`.
pub open spec fn digit_run(s: Seq<char>, i: nat) -> nat
    decreases s.len() - i,
    when i <= s.len()
{
    if i >= s.len() || !is_digit_semi(s[i as int]) {
        0
    } else {
        1 + digit_run(s, (i + 1) as nat)
    }
}

proof fn lemma_digit_run_le(s: Seq<char>, i: nat)
    requires
        i <= s.len(),
    ensures
        i + digit_run(s, i) <= s.len(),
    decreases s.len() - i,
{
    if i >= s.len() || !is_digit_semi(s[i as int]) {
    } else {
        lemma_digit_run_le(s, (i + 1) as nat);
    }
}

/// Where a colour code (escape, '[', digits or semicolons, 'm') starting at
/// `i` ends, if one starts there.
pub open spec fn color_code_end(s: Seq<char>, i: nat) -> Option<nat> {
    if i + 1 < s.len() && s[i as int] == '\u{1b}' && s[i as int + 1] == '[' {
        let j = i + 2 + digit_run(s, (i + 2) as nat);
        if j < s.len() && s[j as int] == 'm' {
            Some((j + 1) as nat)
        } else {
            None
        }
    } else {
        None
    }
}

/// The text with every colour code removed, scanning left to right.
pub open spec fn strip_colors_rec(s: Seq<char>, i: nat) -> Seq<char>
    decreases s.len() - i,
    when i <= s.len()
    via strip_colors_rec_decreases
{
    if i >= s.len() {
        Seq::empty()
    } else {
        match color_code_end(s, i) {
            Some(j) => strip_colors_rec(s, j),
            None => seq![s[i as int]] + strip_colors_rec(s, (i + 1) as nat),
        }
    }
}

#[via_fn]
proof fn strip_colors_rec_decreases(s: Seq<char>, i: nat) {
    if i + 2 <= s.len() {
        lemma_digit_run_le(s, (i + 2) as nat);
    }
}

pub open spec fn strip_colors_spec(s: Seq<char>) -> Seq<char> {
    strip_colors_rec(s, 0)
}

/// Remove ANSI colour codes (escape, '[', digits or semicolons, 'm').
pub fn strip_colors(s: &str) -> (r: String)
    ensures
        r@ == strip_colors_spec(s@),
{
    let sv = text::chars_of(s);
    let n: usize = sv.len();
    let mut out: Vec<char> = Vec::new();
    let mut i: usize = 0;
    while i < n
        invariant
            i <= n,
            n == sv@.len(),
            sv@ == s@,
            strip_colors_rec(s@, 0) == out@ + strip_colors_rec(s@, i as nat),
        decreases n - i,
    {
        let mut code_end: Option<usize> = None;
        if i + 1 < n && sv[i] == '\u{1b}' && sv[i + 1] == '[' {
            let mut k: usize = i + 2;
            while k < n && (('0' <= sv[k] && sv[k] <= '9') || sv[k] == ';')
                invariant
                    i + 2 <= k <= n,
                    n == sv@.len(),
                    sv@ == s@,
                    forall|m: int| i + 2 <= m < k ==> is_digit_semi(s@[m]),
                decreases n - k,
            {
                k = k + 1;
            }
            proof {
                lemma_digit_run_exact(s@, (i + 2) as nat, (k - i - 2) as nat);
            }
            if k < n && sv[k] == 'm' {
                code_end = Some(k + 1);
            }
        }
        match code_end {
            Some(j) => {
                proof {
                    assert(color_code_end(s@, i as nat) == Some(j as nat));
                }
                i = j;
            },
            None => {
                let ghost prev = out@;
                out.push(sv[i]);
                proof {
                    assert(color_code_end(s@, i as nat) is None);
                    assert(prev + (seq![s@[i as int]] + strip_colors_rec(s@, (i + 1) as nat))
                        =~= out@ + strip_colors_rec(s@, (i + 1) as nat));
                }
                i = i + 1;
            },
        }
    }
    text::string_of(&out)
}

/// A run of digits and semicolons bounded by something else is the run.
proof fn lemma_digit_run_exact(s: Seq<char>, i: nat, k: nat)
    requires
        i + k <= s.len(),
        forall|m: int| i <= m < i + k ==> is_digit_semi(s[m]),
        i + k == s.len() || !is_digit_semi(s[i + k as int]),
    ensures
        digit_run(s, i) == k,
    decreases k,
{
    if k == 0 {
    } else {
        lemma_digit_run_exact(s, (i + 1) as nat, (k - 1) as nat);
    }
}

/// The index after the last occurrence of `pat`, scanning from the right.
pub open spec fn rfind_from(s: Seq<char>, pat: Seq<char>, i: int) -> Option<int>
    decreases i + 1,
    when -1 <= i
{
    if i < 0 {
        None
    } else if text::occurs_at(s, pat, i) {
        Some(i)
    } else {
        rfind_from(s, pat, i - 1)
    }
}

pub open spec fn rfind_spec(s: Seq<char>, pat: Seq<char>) -> Option<int> {
    rfind_from(s, pat, s.len() as int)
}

proof fn lemma_rfind_at(s: Seq<char>, pat: Seq<char>, top: int, i: int)
    requires
        i <= top,
        text::occurs_at(s, pat, i),
        forall|j: int| i < j ==> !text::occurs_at(s, pat, j),
    ensures
        rfind_from(s, pat, top) == Some(i),
    decreases top - i,
{
    if top == i {
    } else {
        lemma_rfind_at(s, pat, top - 1, i);
    }
}

proof fn lemma_rfind_missing(s: Seq<char>, pat: Seq<char>, top: int)
    requires
        top >= -1,
        forall|j: int| !text::occurs_at(s, pat, j),
    ensures
        rfind_from(s, pat, top) is None,
    decreases top + 1,
{
    if top < 0 {
    } else {
        lemma_rfind_missing(s, pat, top - 1);
    }
}

/// What `clean_kiro_output` returns: the text cut before its last
/// "Credits:" footer and trimmed, colour codes removed, trimmed again.
pub open spec fn clean_output_spec(s: Seq<char>) -> Seq<char> {
    let base = match rfind_spec(s, "Credits:"@) {
        Some(p) => trim_spec(s.subrange(0, p)),
        None => s,
    };
    trim_spec(strip_colors_rec(base, 0))
}

/// Tidy coding-agent output: drop the credits footer and colour codes.
pub fn clean_kiro_output(s: &str) -> (r: String)
    ensures
        r@ == clean_output_spec(s@),
{
    let sv = text::chars_of(s);
    let pat = text::chars_of("Credits:");
    let base: Vec<char> = match text::rfind_sub(&sv, &pat) {
        Some(pos) => {
            proof {
                lemma_rfind_at(s@, "Credits:"@, s@.len() as int, pos as int);
            }
            let cut = text::subvec(&sv, 0, pos);
            text::trim_chars(&cut)
        },
        None => {
            proof {
                assert(forall|j: int| !text::occurs_at(s@, "Credits:"@, j));
                lemma_rfind_missing(s@, "Credits:"@, s@.len() as int);
            }
            sv
        },
    };
    let base_s = text::string_of(&base);
    let stripped = strip_colors(base_s.as_str());
    let stv = text::chars_of(stripped.as_str());
    let out = text::trim_chars(&stv);
    text::string_of(&out)
}

} // verus!
