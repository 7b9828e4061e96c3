use vstd::prelude::*;

verus! {

// ---------------------------------------------------------------------------
// Character-level models
// ---------------------------------------------------------------------------

/// ASCII lower-casing of a single character; other characters are unchanged.
pub open spec fn lower_char(c: char) -> char {
    if 'A' <= c && c <= 'Z' {
        ((c as u8) + 32) as char
    } else {
        c
    }
}

/// ASCII upper-casing of a single character; other characters are unchanged.
pub open spec fn upper_char(c: char) -> char {
    if 'a' <= c && c <= 'z' {
        ((c as u8) - 32) as char
    } else {
        c
    }
}

/// ASCII whitespace, the separators recognised by the tokenizer.
pub open spec fn is_space(c: char) -> bool {
    c == ' ' || c == '\t' || c == '\n' || c == '\r'
}

pub open spec fn lower(s: Seq<char>) -> Seq<char> {
    s.map_values(|c: char| lower_char(c))
}

pub open spec fn upper(s: Seq<char>) -> Seq<char> {
    s.map_values(|c: char| upper_char(c))
}

pub open spec fn starts_with_spec(s: Seq<char>, p: Seq<char>) -> bool {
    p.len() <= s.len() && s.subrange(0, p.len() as int) == p
}

/// `sub` occurs in `s` at position `i`.
pub open spec fn occurs_at(s: Seq<char>, sub: Seq<char>, i: int) -> bool {
    0 <= i && i + sub.len() <= s.len() && s.subrange(i, i + sub.len()) == sub
}

pub open spec fn contains_sub(s: Seq<char>, sub: Seq<char>) -> bool {
    exists|i: int| occurs_at(s, sub, i)
}

// ---------------------------------------------------------------------------
// Exec helpers over character vectors
// ---------------------------------------------------------------------------

/// The characters of a string, in order.
pub fn chars_of(s: &str) -> (r: Vec<char>)
    ensures
        r@ == s@,
{
    let n: usize = s.unicode_len();
    let mut r: Vec<char> = Vec::new();
    let mut i: usize = 0;
    while i < n
        invariant
            i <= n,
            n == s@.len(),
            r@ == s@.subrange(0, i as int),
        decreases n - i,
    {
        r.push(s.get_char(i));
        i = i + 1;
        proof {
            assert(r@ =~= s@.subrange(0, i as int));
        }
    }
    proof {
        assert(r@ =~= s@);
    }
    r
}

/// Relies on `String`'s `FromIterator<char>` implementation: collecting
/// characters yields the string with exactly those characters in order.
#[verifier::external_body]
pub fn string_of(v: &Vec<char>) -> (r: String)
    ensures
        r@ == v@,
{
    v.iter().collect()
}

/// Copy of `v[i..j]`.
pub fn subvec(v: &Vec<char>, i: usize, j: usize) -> (r: Vec<char>)
    requires
        i <= j <= v@.len(),
    ensures
        r@ == v@.subrange(i as int, j as int),
{
    let mut r: Vec<char> = Vec::new();
    let mut k: usize = i;
    while k < j
        invariant
            i <= k <= j <= v@.len(),
            r@ == v@.subrange(i as int, k as int),
        decreases j - k,
    {
        r.push(v[k]);
        k = k + 1;
        proof {
            assert(r@ =~= v@.subrange(i as int, k as int));
        }
    }
    r
}

pub fn push_all(dst: &mut Vec<char>, src: &Vec<char>)
    ensures
        final(dst)@ == old(dst)@ + src@,
{
    let mut k: usize = 0;
    while k < src.len()
        invariant
            k <= src@.len(),
            dst@ == old(dst)@ + src@.subrange(0, k as int),
        decreases src@.len() - k,
    {
        dst.push(src[k]);
        k = k + 1;
        proof {
            assert(dst@ =~= old(dst)@ + src@.subrange(0, k as int));
        }
    }
    proof {
        assert(old(dst)@ + src@.subrange(0, src@.len() as int) =~= old(dst)@ + src@);
    }
}

pub fn eq_chars(a: &Vec<char>, b: &Vec<char>) -> (r: bool)
    ensures
        r == (a@ == b@),
{
    if a.len() != b.len() {
        proof {
            assert(a@ != b@);
        }
        return false;
    }
    let mut k: usize = 0;
    while k < a.len()
        invariant
            a@.len() == b@.len(),
            k <= a@.len(),
            forall|m: int| 0 <= m < k ==> a@[m] == b@[m],
        decreases a@.len() - k,
    {
        if a[k] != b[k] {
            return false;
        }
        k = k + 1;
    }
    proof {
        assert(a@ =~= b@);
    }
    true
}

pub fn ascii_lower(v: &Vec<char>) -> (r: Vec<char>)
    ensures
        r@ == lower(v@),
{
    let mut r: Vec<char> = Vec::new();
    let mut k: usize = 0;
    while k < v.len()
        invariant
            k <= v@.len(),
            r@ == lower(v@.subrange(0, k as int)),
        decreases v@.len() - k,
    {
        let c = v[k];
        if 'A' <= c && c <= 'Z' {
            r.push((((c as u8) + 32) as char));
        } else {
            r.push(c);
        }
        k = k + 1;
        proof {
            assert(r@ =~= lower(v@.subrange(0, k as int)));
        }
    }
    proof {
        assert(v@.subrange(0, v@.len() as int) =~= v@);
    }
    r
}

pub fn ascii_upper(v: &Vec<char>) -> (r: Vec<char>)
    ensures
        r@ == upper(v@),
{
    let mut r: Vec<char> = Vec::new();
    let mut k: usize = 0;
    while k < v.len()
        invariant
            k <= v@.len(),
            r@ == upper(v@.subrange(0, k as int)),
        decreases v@.len() - k,
    {
        let c = v[k];
        if 'a' <= c && c <= 'z' {
            r.push((((c as u8) - 32) as char));
        } else {
            r.push(c);
        }
        k = k + 1;
        proof {
            assert(r@ =~= upper(v@.subrange(0, k as int)));
        }
    }
    proof {
        assert(v@.subrange(0, v@.len() as int) =~= v@);
    }
    r
}

pub fn starts_with_chars(s: &Vec<char>, p: &Vec<char>) -> (r: bool)
    ensures
        r == starts_with_spec(s@, p@),
{
    if p.len() > s.len() {
        return false;
    }
    let mut k: usize = 0;
    while k < p.len()
        invariant
            p@.len() <= s@.len(),
            k <= p@.len(),
            forall|m: int| 0 <= m < k ==> s@[m] == p@[m],
        decreases p@.len() - k,
    {
        if s[k] != p[k] {
            proof {
                assert(s@.subrange(0, p@.len() as int)[k as int] != p@[k as int]);
            }
            return false;
        }
        k = k + 1;
    }
    proof {
        assert(s@.subrange(0, p@.len() as int) =~= p@);
    }
    true
}

/// Does `sub` occur in `s` starting at `i`? (callers ensure bounds)
fn occurs_at_exec(s: &Vec<char>, sub: &Vec<char>, i: usize) -> (r: bool)
    requires
        i + sub@.len() <= s@.len(),
    ensures
        r == occurs_at(s@, sub@, i as int),
{
    let n: usize = s.len();
    let mut k: usize = 0;
    while k < sub.len()
        invariant
            i + sub@.len() <= s@.len(),
            n == s@.len(),
            k <= sub@.len(),
            forall|m: int| 0 <= m < k ==> s@[i + m] == sub@[m],
        decreases sub@.len() - k,
    {
        if s[i + k] != sub[k] {
            proof {
                assert(s@.subrange(i as int, i + sub@.len())[k as int] != sub@[k as int]);
            }
            return false;
        }
        k = k + 1;
    }
    proof {
        assert(s@.subrange(i as int, i + sub@.len()) =~= sub@);
    }
    true
}

/// First position at which `sub` occurs in `s`, if any.
pub fn find_sub(s: &Vec<char>, sub: &Vec<char>) -> (r: Option<usize>)
    ensures
        match r {
            Some(i) => occurs_at(s@, sub@, i as int) && forall|j: int|
                0 <= j < i ==> !occurs_at(s@, sub@, j),
            None => !contains_sub(s@, sub@),
        },
{
    if sub.len() > s.len() {
        return None;
    }
    let last: usize = s.len() - sub.len();
    let mut i: usize = 0;
    loop
        invariant
            sub@.len() <= s@.len(),
            last == s@.len() - sub@.len(),
            i <= last,
            forall|j: int| 0 <= j < i ==> !occurs_at(s@, sub@, j),
        decreases last - i,
    {
        if occurs_at_exec(s, sub, i) {
            return Some(i);
        }
        if i == last {
            proof {
                assert forall|j: int| !occurs_at(s@, sub@, j) by {
                    if 0 <= j <= last {
                        assert(!occurs_at(s@, sub@, j));
                    }
                }
            }
            return None;
        }
        i = i + 1;
    }
}

/// Last position at which `sub` occurs in `s`, if any.
pub fn rfind_sub(s: &Vec<char>, sub: &Vec<char>) -> (r: Option<usize>)
    ensures
        match r {
            Some(i) => occurs_at(s@, sub@, i as int) && forall|j: int|
                i < j ==> !occurs_at(s@, sub@, j),
            None => !contains_sub(s@, sub@),
        },
{
    if sub.len() > s.len() {
        return None;
    }
    let last: usize = s.len() - sub.len();
    let mut i: usize = last;
    loop
        invariant
            sub@.len() <= s@.len(),
            last == s@.len() - sub@.len(),
            i <= last,
            forall|j: int| i < j ==> !occurs_at(s@, sub@, j),
        decreases i,
    {
        if occurs_at_exec(s, sub, i) {
            return Some(i);
        }
        if i == 0 {
            proof {
                assert forall|j: int| !occurs_at(s@, sub@, j) by {
                    if 0 <= j <= last {
                        assert(!occurs_at(s@, sub@, j));
                    }
                }
            }
            return None;
        }
        i = i - 1;
    }
}

pub fn contains_chars(s: &Vec<char>, sub: &Vec<char>) -> (r: bool)
    ensures
        r == contains_sub(s@, sub@),
{
    match find_sub(s, sub) {
        Some(_) => true,
        None => false,
    }
}

// ---------------------------------------------------------------------------
// Whitespace tokenization
// ---------------------------------------------------------------------------

/// Length of the leading run of non-whitespace characters.
pub open spec fn run_len(s: Seq<char>) -> nat
    decreases s.len(),
{
    if s.len() == 0 || is_space(s[0]) {
        0
    } else {
        1 + run_len(s.subrange(1, s.len() as int))
    }
}

pub proof fn lemma_run_len_le(s: Seq<char>)
    ensures
        run_len(s) <= s.len(),
    decreases s.len(),
{
    if s.len() == 0 || is_space(s[0]) {
    } else {
        lemma_run_len_le(s.subrange(1, s.len() as int));
    }
}

/// The whitespace-separated words of `s`, in order, without empty words.
pub open spec fn tokens(s: Seq<char>) -> Seq<Seq<char>>
    decreases s.len(),
    via tokens_decreases
{
    if s.len() == 0 {
        Seq::empty()
    } else if is_space(s[0]) {
        tokens(s.subrange(1, s.len() as int))
    } else {
        seq![s.subrange(0, run_len(s) as int)] + tokens(
            s.subrange(run_len(s) as int, s.len() as int),
        )
    }
}

#[via_fn]
proof fn tokens_decreases(s: Seq<char>) {
    lemma_run_len_le(s);
}

/// A run of `k` non-whitespace characters bounded by whitespace or the end
/// is exactly the leading run.
proof fn lemma_run_len_exact(s: Seq<char>, k: int)
    requires
        0 <= k <= s.len(),
        forall|m: int| 0 <= m < k ==> !is_space(s[m]),
        k == s.len() || is_space(s[k]),
    ensures
        run_len(s) == k,
    decreases k,
{
    if k == 0 {
    } else {
        let t = s.subrange(1, s.len() as int);
        assert(forall|m: int| 0 <= m < k - 1 ==> t[m] == s[m + 1]);
        if k - 1 < t.len() {
            assert(t[k - 1] == s[k]);
        }
        lemma_run_len_exact(t, k - 1);
    }
}

pub fn split_ws(v: &Vec<char>) -> (r: Vec<Vec<char>>)
    ensures
        r.deep_view() == tokens(v@),
{
    let n: usize = v.len();
    let mut r: Vec<Vec<char>> = Vec::new();
    let mut i: usize = 0;
    proof {
        assert(v@.subrange(0, n as int) =~= v@);
        assert(r.deep_view() + tokens(v@) =~~= tokens(v@));
    }
    while i < n
        invariant
            i <= n,
            n == v@.len(),
            tokens(v@) == r.deep_view() + tokens(v@.subrange(i as int, n as int)),
        decreases n - i,
    {
        let c = v[i];
        if c == ' ' || c == '\t' || c == '\n' || c == '\r' {
            proof {
                let suf = v@.subrange(i as int, n as int);
                assert(is_space(suf[0]));
                assert(suf.subrange(1, suf.len() as int) =~= v@.subrange(i + 1, n as int));
            }
            i = i + 1;
        } else {
            let mut j: usize = i + 1;
            while j < n && !(v[j] == ' ' || v[j] == '\t' || v[j] == '\n' || v[j] == '\r')
                invariant
                    i < j <= n,
                    n == v@.len(),
                    forall|m: int| i <= m < j ==> !is_space(v@[m]),
                decreases n - j,
            {
                j = j + 1;
            }
            let word = subvec(v, i, j);
            proof {
                let suf = v@.subrange(i as int, n as int);
                assert(forall|m: int| 0 <= m < j - i ==> suf[m] == v@[i + m]);
                if (j as int) < n as int {
                    assert(suf[j - i] == v@[j as int]);
                }
                lemma_run_len_exact(suf, j - i);
                assert(suf.subrange(0, j - i) =~= v@.subrange(i as int, j as int));
                assert(suf.subrange(j - i, suf.len() as int) =~= v@.subrange(
                    j as int,
                    n as int,
                ));
                assert(tokens(suf) == seq![v@.subrange(i as int, j as int)] + tokens(
                    v@.subrange(j as int, n as int),
                ));
            }
            let ghost prev = r.deep_view();
            r.push(word);
            proof {
                assert(r.deep_view() =~~= prev.push(v@.subrange(i as int, j as int)));
                assert(prev + (seq![v@.subrange(i as int, j as int)] + tokens(
                    v@.subrange(j as int, n as int),
                )) =~~= r.deep_view() + tokens(v@.subrange(j as int, n as int)));
            }
            i = j;
        }
    }
    proof {
        assert(v@.subrange(n as int, n as int) =~= Seq::<char>::empty());
        assert(tokens(v@) =~~= r.deep_view());
    }
    r
}

// ---------------------------------------------------------------------------
// Indexed search, splitting and joining
// ---------------------------------------------------------------------------

/// Index of the first occurrence of `c` in `s` at or after `i`.
pub open spec fn find_char_from(s: Seq<char>, c: char, i: nat) -> Option<nat>
    decreases s.len() - i,
    when i <= s.len()
{
    if i >= s.len() {
        None
    } else if s[i as int] == c {
        Some(i)
    } else {
        find_char_from(s, c, (i + 1) as nat)
    }
}

pub proof fn lemma_find_char_from_bounds(s: Seq<char>, c: char, i: nat)
    requires
        i <= s.len(),
    ensures
        match find_char_from(s, c, i) {
            Some(j) => i <= j < s.len() && s[j as int] == c,
            None => true,
        },
    decreases s.len() - i,
{
    if i >= s.len() {
    } else if s[i as int] == c {
    } else {
        lemma_find_char_from_bounds(s, c, (i + 1) as nat);
    }
}

pub fn find_char_at(s: &Vec<char>, c: char, from: usize) -> (r: Option<usize>)
    requires
        from <= s@.len(),
    ensures
        match r {
            Some(j) => find_char_from(s@, c, from as nat) == Some(j as nat),
            None => find_char_from(s@, c, from as nat) is None,
        },
{
    let n: usize = s.len();
    let mut i: usize = from;
    while i < n
        invariant
            from <= i <= n,
            n == s@.len(),
            find_char_from(s@, c, from as nat) == find_char_from(s@, c, i as nat),
        decreases n - i,
    {
        if s[i] == c {
            return Some(i);
        }
        i = i + 1;
    }
    None
}

/// The pieces of `s[b..]` split at every occurrence of `c`; empty pieces kept.
pub open spec fn split_char_from(s: Seq<char>, c: char, b: nat) -> Seq<Seq<char>>
    decreases s.len() - b,
    when b <= s.len()
    via split_char_from_decreases
{
    match find_char_from(s, c, b) {
        None => seq![s.subrange(b as int, s.len() as int)],
        Some(i) => seq![s.subrange(b as int, i as int)] + split_char_from(s, c, (i + 1) as nat),
    }
}

#[via_fn]
proof fn split_char_from_decreases(s: Seq<char>, c: char, b: nat) {
    lemma_find_char_from_bounds(s, c, b);
}

pub open spec fn split_char_spec(s: Seq<char>, c: char) -> Seq<Seq<char>> {
    split_char_from(s, c, 0)
}

pub fn split_char(v: &Vec<char>, c: char) -> (r: Vec<Vec<char>>)
    ensures
        r.deep_view() == split_char_spec(v@, c),
{
    let n: usize = v.len();
    let mut r: Vec<Vec<char>> = Vec::new();
    let mut b: usize = 0;
    loop
        invariant
            b <= n,
            n == v@.len(),
            split_char_spec(v@, c) == r.deep_view() + split_char_from(v@, c, b as nat),
        decreases n - b,
    {
        proof {
            lemma_find_char_from_bounds(v@, c, b as nat);
        }
        let ghost prev = r.deep_view();
        match find_char_at(v, c, b) {
            None => {
                let piece = subvec(v, b, n);
                r.push(piece);
                proof {
                    assert(r.deep_view() =~~= prev.push(v@.subrange(b as int, n as int)));
                    assert(prev + seq![v@.subrange(b as int, n as int)] =~~= r.deep_view());
                }
                return r;
            },
            Some(i) => {
                let piece = subvec(v, b, i);
                r.push(piece);
                proof {
                    assert(r.deep_view() =~~= prev.push(v@.subrange(b as int, i as int)));
                    assert(prev + (seq![v@.subrange(b as int, i as int)] + split_char_from(
                        v@,
                        c,
                        (i + 1) as nat,
                    )) =~~= r.deep_view() + split_char_from(v@, c, (i + 1) as nat));
                }
                b = i + 1;
            },
        }
    }
}

/// The pieces joined with `sep` between them.
pub open spec fn join_with(parts: Seq<Seq<char>>, sep: Seq<char>) -> Seq<char>
    decreases parts.len(),
{
    if parts.len() == 0 {
        Seq::empty()
    } else if parts.len() == 1 {
        parts[0]
    } else {
        parts[0] + sep + join_with(parts.drop_first(), sep)
    }
}

proof fn lemma_join_push(parts: Seq<Seq<char>>, sep: Seq<char>, x: Seq<char>)
    ensures
        join_with(parts.push(x), sep) == if parts.len() == 0 {
            x
        } else {
            join_with(parts, sep) + sep + x
        },
    decreases parts.len(),
{
    if parts.len() == 0 {
        assert(parts.push(x) =~~= seq![x]);
        assert(join_with(seq![x], sep) == x);
    } else {
        assert(parts.push(x).drop_first() =~~= parts.drop_first().push(x));
        lemma_join_push(parts.drop_first(), sep, x);
        if parts.len() == 1 {
            assert(join_with(parts, sep) == parts[0]);
        }
    }
}

pub fn join_chars(parts: &Vec<Vec<char>>, sep: &Vec<char>) -> (r: Vec<char>)
    ensures
        r@ == join_with(parts.deep_view(), sep@),
{
    let mut r: Vec<char> = Vec::new();
    let mut k: usize = 0;
    let n: usize = parts.len();
    proof {
        assert(parts.deep_view().subrange(0, 0) =~~= Seq::<Seq<char>>::empty());
    }
    while k < n
        invariant
            k <= n,
            n == parts@.len(),
            parts.deep_view().len() == n,
            r@ == join_with(parts.deep_view().subrange(0, k as int), sep@),
        decreases n - k,
    {
        if k > 0 {
            push_all(&mut r, sep);
        }
        push_all(&mut r, &parts[k]);
        proof {
            let dv = parts.deep_view();
            assert(dv[k as int] == parts@[k as int].deep_view());
            assert(parts@[k as int].deep_view() =~= parts@[k as int]@);
            assert(dv.subrange(0, k + 1) =~~= dv.subrange(0, k as int).push(dv[k as int]));
            lemma_join_push(dv.subrange(0, k as int), sep@, dv[k as int]);
        }
        k = k + 1;
    }
    proof {
        assert(parts.deep_view().subrange(0, n as int) =~~= parts.deep_view());
    }
    r
}

// ---------------------------------------------------------------------------
// Trimming
// ---------------------------------------------------------------------------

pub open spec fn trim_start_spec(s: Seq<char>) -> Seq<char>
    decreases s.len(),
{
    if s.len() > 0 && is_space(s[0]) {
        trim_start_spec(s.subrange(1, s.len() as int))
    } else {
        s
    }
}

pub open spec fn trim_end_spec(s: Seq<char>) -> Seq<char>
    decreases s.len(),
{
    if s.len() > 0 && is_space(s[s.len() - 1]) {
        trim_end_spec(s.subrange(0, s.len() - 1))
    } else {
        s
    }
}

/// `s` without leading and trailing ASCII whitespace.
pub open spec fn trim_spec(s: Seq<char>) -> Seq<char> {
    trim_end_spec(trim_start_spec(s))
}

proof fn lemma_trim_start_at(s: Seq<char>, k: int)
    requires
        0 <= k <= s.len(),
        forall|m: int| 0 <= m < k ==> is_space(s[m]),
        k == s.len() || !is_space(s[k]),
    ensures
        trim_start_spec(s) == s.subrange(k, s.len() as int),
    decreases k,
{
    if k == 0 {
        assert(s.subrange(0, s.len() as int) =~= s);
    } else {
        let t = s.subrange(1, s.len() as int);
        assert(forall|m: int| 0 <= m < k - 1 ==> t[m] == s[m + 1]);
        if k - 1 < t.len() {
            assert(t[k - 1] == s[k]);
        }
        lemma_trim_start_at(t, k - 1);
        assert(t.subrange(k - 1, t.len() as int) =~= s.subrange(k, s.len() as int));
    }
}

proof fn lemma_trim_end_at(s: Seq<char>, b: int)
    requires
        0 <= b <= s.len(),
        forall|m: int| b <= m < s.len() ==> is_space(s[m]),
        b == 0 || !is_space(s[b - 1]),
    ensures
        trim_end_spec(s) == s.subrange(0, b),
    decreases s.len() - b,
{
    if b == s.len() {
        assert(s.subrange(0, s.len() as int) =~= s);
    } else {
        let t = s.subrange(0, s.len() - 1);
        assert(forall|m: int| b <= m < t.len() ==> t[m] == s[m]);
        if b > 0 {
            assert(t[b - 1] == s[b - 1]);
        }
        lemma_trim_end_at(t, b);
        assert(t.subrange(0, b) =~= s.subrange(0, b));
    }
}

pub fn trim_chars(v: &Vec<char>) -> (r: Vec<char>)
    ensures
        r@ == trim_spec(v@),
{
    let n: usize = v.len();
    let mut a: usize = 0;
    while a < n && (v[a] == ' ' || v[a] == '\t' || v[a] == '\n' || v[a] == '\r')
        invariant
            a <= n,
            n == v@.len(),
            forall|m: int| 0 <= m < a ==> is_space(v@[m]),
        decreases n - a,
    {
        a = a + 1;
    }
    let mut b: usize = n;
    while b > a && (v[b - 1] == ' ' || v[b - 1] == '\t' || v[b - 1] == '\n' || v[b - 1] == '\r')
        invariant
            a <= b <= n,
            n == v@.len(),
            forall|m: int| b <= m < n ==> is_space(v@[m]),
        decreases b,
    {
        b = b - 1;
    }
    let r = subvec(v, a, b);
    proof {
        lemma_trim_start_at(v@, a as int);
        let t = v@.subrange(a as int, n as int);
        assert(forall|m: int| b - a <= m < t.len() ==> t[m] == v@[m + a]);
        if b > a {
            assert(t[b - a - 1] == v@[b as int - 1]);
        }
        lemma_trim_end_at(t, b - a);
        assert(t.subrange(0, b - a) =~= v@.subrange(a as int, b as int));
    }
    r
}

// ---------------------------------------------------------------------------
// Substring replacement
// ---------------------------------------------------------------------------

/// Index of the first occurrence of `pat` in `s` at or after `i`.
pub open spec fn find_sub_from(s: Seq<char>, pat: Seq<char>, i: nat) -> Option<nat>
    decreases s.len() - i,
    when i <= s.len()
    via find_sub_from_decreases
{
    if i + pat.len() > s.len() {
        None
    } else if s.subrange(i as int, i + pat.len() as int) == pat {
        Some(i)
    } else {
        find_sub_from(s, pat, (i + 1) as nat)
    }
}

#[via_fn]
proof fn find_sub_from_decreases(s: Seq<char>, pat: Seq<char>, i: nat) {
    if i + pat.len() <= s.len() && s.subrange(i as int, i + pat.len() as int) != pat {
        assert(pat.len() >= 1) by {
            if pat.len() == 0 {
                assert(s.subrange(i as int, i as int) =~= pat);
            }
        }
    }
}

pub proof fn lemma_find_sub_from_bounds(s: Seq<char>, pat: Seq<char>, i: nat)
    requires
        i <= s.len(),
    ensures
        match find_sub_from(s, pat, i) {
            Some(j) => i <= j && j + pat.len() <= s.len() && occurs_at(s, pat, j as int),
            None => true,
        },
    decreases s.len() - i,
{
    if i + pat.len() > s.len() {
    } else if s.subrange(i as int, i + pat.len() as int) == pat {
    } else {
        assert(pat.len() >= 1) by {
            if pat.len() == 0 {
                assert(s.subrange(i as int, i as int) =~= pat);
            }
        }
        lemma_find_sub_from_bounds(s, pat, (i + 1) as nat);
    }
}

pub fn find_sub_at(s: &Vec<char>, pat: &Vec<char>, from: usize) -> (r: Option<usize>)
    requires
        from <= s@.len(),
    ensures
        match r {
            Some(j) => find_sub_from(s@, pat@, from as nat) == Some(j as nat) && from <= j && j
                + pat@.len() <= s@.len(),
            None => find_sub_from(s@, pat@, from as nat) is None,
        },
{
    let n: usize = s.len();
    let m: usize = pat.len();
    if m > n || from > n - m {
        return None;
    }
    let last: usize = n - m;
    let mut i: usize = from;
    loop
        invariant
            from <= i <= last,
            n == s@.len(),
            m == pat@.len(),
            m <= n,
            last == n - m,
            find_sub_from(s@, pat@, from as nat) == find_sub_from(s@, pat@, i as nat),
        decreases last - i,
    {
        if occurs_at_exec(s, pat, i) {
            return Some(i);
        }
        if i == last {
            proof {
                assert(m >= 1) by {
                    if m == 0 {
                        assert(s@.subrange(i as int, i as int) =~= pat@);
                    }
                }
                assert(find_sub_from(s@, pat@, (i + 1) as nat) is None);
            }
            return None;
        }
        i = i + 1;
    }
}

/// `s[b..]` with every occurrence of `pat` replaced by `rep`, scanning left
/// to right past each replacement.
pub open spec fn replace_from(s: Seq<char>, pat: Seq<char>, rep: Seq<char>, b: nat) -> Seq<char>
    decreases s.len() - b,
    when b <= s.len() && pat.len() >= 1
    via replace_from_decreases
{
    match find_sub_from(s, pat, b) {
        None => s.subrange(b as int, s.len() as int),
        Some(i) => s.subrange(b as int, i as int) + rep + replace_from(
            s,
            pat,
            rep,
            (i + pat.len()) as nat,
        ),
    }
}

#[via_fn]
proof fn replace_from_decreases(s: Seq<char>, pat: Seq<char>, rep: Seq<char>, b: nat) {
    lemma_find_sub_from_bounds(s, pat, b);
}

pub open spec fn replace_spec(s: Seq<char>, pat: Seq<char>, rep: Seq<char>) -> Seq<char> {
    replace_from(s, pat, rep, 0)
}

pub fn replace_chars(v: &Vec<char>, pat: &Vec<char>, rep: &Vec<char>) -> (r: Vec<char>)
    requires
        pat@.len() >= 1,
    ensures
        r@ == replace_spec(v@, pat@, rep@),
{
    let n: usize = v.len();
    let mut r: Vec<char> = Vec::new();
    let mut b: usize = 0;
    loop
        invariant
            b <= n,
            n == v@.len(),
            pat@.len() >= 1,
            replace_spec(v@, pat@, rep@) == r@ + replace_from(v@, pat@, rep@, b as nat),
        decreases n - b,
    {
        proof {
            lemma_find_sub_from_bounds(v@, pat@, b as nat);
        }
        match find_sub_at(v, pat, b) {
            None => {
                let tail = subvec(v, b, n);
                push_all(&mut r, &tail);
                return r;
            },
            Some(i) => {
                let ghost prev = r@;
                let piece = subvec(v, b, i);
                push_all(&mut r, &piece);
                push_all(&mut r, rep);
                proof {
                    let rest = replace_from(v@, pat@, rep@, (i + pat@.len()) as nat);
                    assert(prev + (v@.subrange(b as int, i as int) + rep@ + rest) =~= r@ + rest);
                }
                b = i + pat.len();
            },
        }
    }
}


// ---------------------------------------------------------------------------
// Decimal rendering and small helpers
// ---------------------------------------------------------------------------

pub open spec fn digit_char(d: int) -> char {
    if d == 0 {
        '0'
    } else if d == 1 {
        '1'
    } else if d == 2 {
        '2'
    } else if d == 3 {
        '3'
    } else if d == 4 {
        '4'
    } else if d == 5 {
        '5'
    } else if d == 6 {
        '6'
    } else if d == 7 {
        '7'
    } else if d == 8 {
        '8'
    } else {
        '9'
    }
}

/// The decimal digits of `n`, most significant first.
pub open spec fn dec_spec(n: int) -> Seq<char>
    decreases n,
{
    if n < 10 {
        seq![digit_char(n)]
    } else {
        dec_spec(n / 10) + seq![digit_char(n % 10)]
    }
}

/// Render a number in decimal.
pub fn dec_string(n: u64) -> (r: String)
    ensures
        r@ == dec_spec(n as int),
{
    let mut digits: Vec<char> = Vec::new();
    let mut cur: u64 = n;
    while cur >= 10
        invariant
            dec_spec(n as int) == dec_spec(cur as int) + digits@.reverse(),
        decreases cur,
    {
        let d: u64 = cur % 10;
        let ghost prev = digits@;
        digits.push(digit_of(d));
        cur = cur / 10;
        proof {
            assert(digits@.reverse() =~= seq![digit_char(d as int)] + prev.reverse());
            assert(dec_spec(cur as int) + (seq![digit_char(d as int)] + prev.reverse())
                =~= (dec_spec(cur as int) + seq![digit_char(d as int)]) + prev.reverse());
        }
    }
    let ghost prev = digits@;
    digits.push(digit_of(cur));
    proof {
        assert(digits@.reverse() =~= seq![digit_char(cur as int)] + prev.reverse());
        assert(dec_spec(cur as int) =~= seq![digit_char(cur as int)]);
        assert(dec_spec(n as int) =~= digits@.reverse());
    }
    let m: usize = digits.len();
    let mut out: Vec<char> = Vec::new();
    let mut k: usize = m;
    proof {
        assert(out@ =~= digits@.reverse().subrange(0, 0));
    }
    while k > 0
        invariant
            k <= m,
            m == digits@.len(),
            out@ == digits@.reverse().subrange(0, m - k),
        decreases k,
    {
        out.push(digits[k - 1]);
        k = k - 1;
        proof {
            assert(out@ =~= digits@.reverse().subrange(0, m - k));
        }
    }
    proof {
        assert(digits@.reverse().subrange(0, m as int) =~= digits@.reverse());
    }
    string_of(&out)
}

fn digit_of(d: u64) -> (r: char)
    requires
        d < 10,
    ensures
        r == digit_char(d as int),
{
    if d == 0 {
        '0'
    } else if d == 1 {
        '1'
    } else if d == 2 {
        '2'
    } else if d == 3 {
        '3'
    } else if d == 4 {
        '4'
    } else if d == 5 {
        '5'
    } else if d == 6 {
        '6'
    } else if d == 7 {
        '7'
    } else if d == 8 {
        '8'
    } else {
        '9'
    }
}

/// The text with every leading '/' removed.
pub open spec fn drop_slashes(s: Seq<char>) -> Seq<char>
    decreases s.len(),
{
    if s.len() > 0 && s[0] == '/' {
        drop_slashes(s.subrange(1, s.len() as int))
    } else {
        s
    }
}

proof fn lemma_drop_slashes_at(s: Seq<char>, k: int)
    requires
        0 <= k <= s.len(),
        forall|m: int| 0 <= m < k ==> s[m] == '/',
        k == s.len() || s[k] != '/',
    ensures
        drop_slashes(s) == s.subrange(k, s.len() as int),
    decreases k,
{
    if k == 0 {
        assert(s.subrange(0, s.len() as int) =~= s);
    } else {
        let t = s.subrange(1, s.len() as int);
        assert(forall|m: int| 0 <= m < k - 1 ==> t[m] == s[m + 1]);
        if k - 1 < t.len() {
            assert(t[k - 1] == s[k]);
        }
        lemma_drop_slashes_at(t, k - 1);
        assert(t.subrange(k - 1, t.len() as int) =~= s.subrange(k, s.len() as int));
    }
}

/// Remove every leading '/'.
pub fn trim_slashes(v: &Vec<char>) -> (r: Vec<char>)
    ensures
        r@ == drop_slashes(v@),
{
    let n: usize = v.len();
    let mut a: usize = 0;
    while a < n && v[a] == '/'
        invariant
            a <= n,
            n == v@.len(),
            forall|m: int| 0 <= m < a ==> v@[m] == '/',
        decreases n - a,
    {
        a = a + 1;
    }
    let r = subvec(v, a, n);
    proof {
        lemma_drop_slashes_at(v@, a as int);
    }
    r
}

/// `count` copies of `c`.
pub fn repeat_char(c: char, count: usize) -> (r: Vec<char>)
    ensures
        r@ == Seq::new(count as nat, |i: int| c),
{
    let mut r: Vec<char> = Vec::new();
    let mut k: usize = 0;
    while k < count
        invariant
            k <= count,
            r@ == Seq::new(k as nat, |i: int| c),
        decreases count - k,
    {
        r.push(c);
        k = k + 1;
        proof {
            assert(r@ =~= Seq::new(k as nat, |i: int| c));
        }
    }
    r
}

} // verus!
