//! Verified text utilities: character-level views of strings, line and token
//! splitting, searching, trimming, and decimal formatting and parsing.
//!
//! Executable code works over `Vec<char>`, converted once from `&str` at the
//! public boundaries; every function is specified against a spec function on
//! `Seq<char>`.

use vstd::prelude::*;

verus! {

// ---------------------------------------------------------------------------
// Conversions between strings and character vectors
// ---------------------------------------------------------------------------

/// Relies on `String::push`: appends exactly the one character.
#[verifier::external_body]
pub fn push_char(s: &mut String, c: char)
    ensures
        final(s)@ == old(s)@.push(c),
{
    s.push(c);
}

/// The characters of `s`, as a vector.
pub fn str_to_chars(s: &str) -> (v: Vec<char>)
    ensures
        v@ == s@,
{
    let n = s.unicode_len();
    let mut v: Vec<char> = Vec::new();
    let mut i: usize = 0;
    while i < n
        invariant
            i <= n,
            n == s@.len(),
            v@ == s@.take(i as int),
        decreases n - i,
    {
        v.push(s.get_char(i));
        proof {
            assert(v@ =~= s@.take(i + 1 as int));
        }
        i = i + 1;
    }
    proof {
        assert(s@.take(n as int) =~= s@);
    }
    v
}

/// The string holding exactly the characters of `v`.
pub fn chars_to_string(v: &Vec<char>) -> (s: String)
    ensures
        s@ == v@,
{
    let mut s = String::new();
    let mut i: usize = 0;
    while i < v.len()
        invariant
            i <= v.len(),
            s@ == v@.take(i as int),
        decreases v.len() - i,
    {
        push_char(&mut s, v[i]);
        proof {
            assert(s@ =~= v@.take(i + 1 as int));
        }
        i = i + 1;
    }
    proof {
        assert(v@.take(v.len() as int) =~= v@);
    }
    s
}

/// The characters of `v` from `from` (inclusive) to `to` (exclusive).
pub fn sub_chars(v: &Vec<char>, from: usize, to: usize) -> (r: Vec<char>)
    requires
        from <= to <= v.len(),
    ensures
        r@ == v@.subrange(from as int, to as int),
{
    let mut r: Vec<char> = Vec::new();
    let mut i: usize = from;
    while i < to
        invariant
            from <= i <= to <= v.len(),
            r@ == v@.subrange(from as int, i as int),
        decreases to - i,
    {
        r.push(v[i]);
        proof {
            assert(r@ =~= v@.subrange(from as int, i + 1 as int));
        }
        i = i + 1;
    }
    r
}

// ---------------------------------------------------------------------------
// Searching and prefixes
// ---------------------------------------------------------------------------

/// Whether `p` is a prefix of `s`.
pub open spec fn spec_starts_with(s: Seq<char>, p: Seq<char>) -> bool {
    p.len() <= s.len() && s.take(p.len() as int) == p
}

/// The first index of `c` in `s`, or -1 when `c` does not occur.
pub open spec fn spec_find(s: Seq<char>, c: char) -> int
    decreases s.len(),
{
    if s.len() == 0 {
        -1
    } else if s[0] == c {
        0
    } else {
        let r = spec_find(s.skip(1), c);
        if r < 0 {
            -1
        } else {
            r + 1
        }
    }
}

/// Whether `c` occurs in `s`.
pub open spec fn spec_contains_char(s: Seq<char>, c: char) -> bool {
    spec_find(s, c) >= 0
}

/// What `spec_find` returns, characterized by the occurrences of `c`.
pub proof fn lemma_find_characterize(s: Seq<char>, c: char)
    ensures
        spec_find(s, c) == -1 <==> (forall|k: int| 0 <= k < s.len() ==> s[k] != c),
        spec_find(s, c) >= 0 ==> {
            &&& spec_find(s, c) < s.len()
            &&& s[spec_find(s, c)] == c
            &&& forall|k: int| 0 <= k < spec_find(s, c) ==> s[k] != c
        },
    decreases s.len(),
{
    if s.len() > 0 && s[0] != c {
        let t = s.skip(1);
        lemma_find_characterize(t, c);
        assert forall|k: int| 0 <= k < s.len() && s[k] == c implies spec_find(s, c) >= 0 by {
            if spec_find(t, c) == -1 {
                assert(t[k - 1] != c);
            }
        }
        if spec_find(t, c) >= 0 {
            let r = spec_find(t, c);
            assert(s[r + 1] == t[r]);
            assert forall|k: int| 0 <= k < r + 1 implies s[k] != c by {
                if k > 0 {
                    assert(s[k] == t[k - 1]);
                }
            }
        }
    }
}

/// `spec_find` on a sequence known to hold `c` right after a `c`-free prefix.
pub proof fn lemma_find_concat(a: Seq<char>, c: char, b: Seq<char>)
    requires
        spec_find(a, c) == -1,
    ensures
        spec_find(a + seq![c] + b, c) == a.len(),
    decreases a.len(),
{
    let s = a + seq![c] + b;
    if a.len() == 0 {
        assert(s[0] == c);
    } else {
        assert(s[0] == a[0]);
        lemma_find_characterize(a, c);
        assert(a[0] != c);
        assert(s.skip(1) =~= a.skip(1) + seq![c] + b);
        assert(spec_find(a.skip(1), c) == -1) by {
            lemma_find_characterize(a, c);
            lemma_find_characterize(a.skip(1), c);
        }
        lemma_find_concat(a.skip(1), c, b);
    }
}

/// The first index of `c` in `v` at or after `from`, if any.
pub fn find_char_from(v: &Vec<char>, c: char, from: usize) -> (r: Option<usize>)
    requires
        from <= v.len(),
    ensures
        match r {
            Some(i) => from <= i < v.len() && spec_find(v@.skip(from as int), c) == i - from,
            None => spec_find(v@.skip(from as int), c) == -1,
        },
{
    let mut i: usize = from;
    while i < v.len()
        invariant
            from <= i <= v.len(),
            forall|k: int| from <= k < i ==> v@[k] != c,
        decreases v.len() - i,
    {
        if v[i] == c {
            proof {
                let t = v@.skip(from as int);
                lemma_find_characterize(t, c);
                assert(t[i - from] == c);
                assert forall|k: int| 0 <= k < i - from implies t[k] != c by {
                    assert(t[k] == v@[k + from]);
                }
                if spec_find(t, c) < i - from {
                    assert(t[spec_find(t, c)] != c);
                }
                if spec_find(t, c) > i - from {
                    assert(t[i - from] != c);
                }
            }
            return Some(i);
        }
        i = i + 1;
    }
    proof {
        let t = v@.skip(from as int);
        lemma_find_characterize(t, c);
        assert forall|k: int| 0 <= k < t.len() implies t[k] != c by {
            assert(t[k] == v@[k + from]);
        }
    }
    None
}

/// Whether `p` is a prefix of `v` at position `at`.
pub fn starts_with_at(v: &Vec<char>, p: &str, at: usize) -> (r: bool)
    requires
        at <= v.len(),
    ensures
        r == spec_starts_with(v@.skip(at as int), p@),
{
    let pc = str_to_chars(p);
    if v.len() - at < pc.len() {
        return false;
    }
    let mut i: usize = 0;
    while i < pc.len()
        invariant
            i <= pc.len(),
            pc.len() <= v.len() - at,
            at <= v.len(),
            pc@ == p@,
            forall|k: int| 0 <= k < i ==> v@[at + k] == pc@[k],
        decreases pc.len() - i,
    {
        if v[at + i] != pc[i] {
            proof {
                let t = v@.skip(at as int);
                assert(t[i as int] == v@[at + i]);
                assert(t.take(p@.len() as int)[i as int] == v@[at + i]);
            }
            return false;
        }
        i = i + 1;
    }
    proof {
        let t = v@.skip(at as int);
        assert(t.take(p@.len() as int) =~= p@) by {
            assert forall|k: int| 0 <= k < p@.len() implies t.take(p@.len() as int)[k] == p@[k] by {
                assert(t[k] == v@[at + k]);
            }
        }
    }
    true
}

/// Whether `p` is a prefix of `v`.
pub fn starts_with(v: &Vec<char>, p: &str) -> (r: bool)
    ensures
        r == spec_starts_with(v@, p@),
{
    let r = starts_with_at(v, p, 0);
    proof {
        assert(v@.skip(0) =~= v@);
    }
    r
}

// ---------------------------------------------------------------------------
// Line and field splitting
// ---------------------------------------------------------------------------

/// `l` with one trailing carriage return removed, as line splitting does.
pub open spec fn strip_cr(l: Seq<char>) -> Seq<char> {
    if l.len() > 0 && l.last() == '\r' {
        l.drop_last()
    } else {
        l
    }
}

/// The lines of `s`: split at newlines, each line stripped of one trailing
/// carriage return, with no empty line after a final newline.
pub open spec fn spec_lines(s: Seq<char>) -> Seq<Seq<char>>
    decreases s.len(),
{
    if s.len() == 0 {
        Seq::empty()
    } else {
        let i = spec_find(s, '\n');
        if i < 0 || i >= s.len() {
            seq![s]
        } else {
            seq![strip_cr(s.take(i))] + spec_lines(s.skip(i + 1))
        }
    }
}

/// Line splitting consumes one newline-terminated line at a time.
pub proof fn lemma_lines_step(a: Seq<char>, b: Seq<char>)
    requires
        spec_find(a, '\n') == -1,
    ensures
        spec_lines(a + seq!['\n'] + b) == seq![strip_cr(a)] + spec_lines(b),
{
    let s = a + seq!['\n'] + b;
    lemma_find_concat(a, '\n', b);
    assert(s.take(a.len() as int) =~= a);
    assert(s.skip(a.len() as int + 1) =~= b);
}

/// The fields of `s` split at every occurrence of `c` (an empty `s` is one
/// empty field, as `str::split` has it).
pub open spec fn spec_split_char(s: Seq<char>, c: char) -> Seq<Seq<char>>
    decreases s.len(),
{
    let i = spec_find(s, c);
    if i < 0 || i >= s.len() {
        seq![s]
    } else {
        seq![s.take(i)] + spec_split_char(s.skip(i + 1), c)
    }
}

/// Splitting consumes one separator-terminated field at a time.
pub proof fn lemma_split_char_step(a: Seq<char>, c: char, b: Seq<char>)
    requires
        spec_find(a, c) == -1,
    ensures
        spec_split_char(a + seq![c] + b, c) == seq![a] + spec_split_char(b, c),
{
    let s = a + seq![c] + b;
    lemma_find_concat(a, c, b);
    assert(s.take(a.len() as int) =~= a);
    assert(s.skip(a.len() as int + 1) =~= b);
}

/// The lines of `v`.
pub fn split_lines(v: &Vec<char>) -> (out: Vec<Vec<char>>)
    ensures
        out.deep_view() == spec_lines(v@),
{
    let mut out: Vec<Vec<char>> = Vec::new();
    let mut cur: Vec<char> = Vec::new();
    let mut i: usize = 0;
    proof {
        assert(cur@ + v@.skip(0) =~= v@);
        assert(out.deep_view() =~~= Seq::<Seq<char>>::empty());
    }
    while i < v.len()
        invariant
            i <= v.len(),
            spec_find(cur@, '\n') == -1,
            spec_lines(v@) == out.deep_view() + spec_lines(cur@ + v@.skip(i as int)),
        decreases v.len() - i,
    {
        let ghost pre_out = out.deep_view();
        let ghost pre_cur = cur@;
        let c = v[i];
        if c == '\n' {
            proof {
                assert(cur@ + v@.skip(i as int) =~= cur@ + seq!['\n'] + v@.skip(i + 1));
                lemma_lines_step(cur@, v@.skip(i + 1));
            }
            let mut line = cur;
            if line.len() > 0 && line[line.len() - 1] == '\r' {
                line.pop();
            }
            proof {
                assert(line@ == strip_cr(pre_cur));
            }
            out.push(line);
            cur = Vec::new();
            proof {
                assert(out.deep_view() =~~= pre_out.push(line@));
                assert(cur@ + v@.skip(i + 1) =~= v@.skip(i + 1));
                assert(pre_out + (seq![strip_cr(pre_cur)] + spec_lines(v@.skip(i + 1)))
                    =~= out.deep_view() + spec_lines(v@.skip(i + 1)));
            }
        } else {
            cur.push(c);
            proof {
                lemma_find_characterize(pre_cur, '\n');
                lemma_find_characterize(cur@, '\n');
                assert forall|k: int| 0 <= k < cur@.len() implies cur@[k] != '\n' by {
                    if k < cur@.len() - 1 {
                        assert(cur@[k] == pre_cur[k]);
                    }
                }
                assert(pre_cur + v@.skip(i as int) =~= cur@ + v@.skip(i + 1));
            }
        }
        i = i + 1;
    }
    proof {
        assert(cur@ + v@.skip(v.len() as int) =~= cur@);
    }
    let ghost pre_out = out.deep_view();
    if cur.len() > 0 {
        proof {
            lemma_find_characterize(cur@, '\n');
        }
        out.push(cur);
        proof {
            assert(out.deep_view() =~~= pre_out.push(cur@));
            assert(spec_lines(v@) =~= out.deep_view());
        }
    } else {
        proof {
            assert(cur@ =~= Seq::<char>::empty());
            assert(spec_lines(v@) =~= out.deep_view());
        }
    }
    out
}

/// The fields of `v` split at every occurrence of `c`.
pub fn split_char(v: &Vec<char>, c: char) -> (out: Vec<Vec<char>>)
    ensures
        out.deep_view() == spec_split_char(v@, c),
{
    let mut out: Vec<Vec<char>> = Vec::new();
    let mut cur: Vec<char> = Vec::new();
    let mut i: usize = 0;
    proof {
        assert(cur@ + v@.skip(0) =~= v@);
        assert(out.deep_view() =~~= Seq::<Seq<char>>::empty());
    }
    while i < v.len()
        invariant
            i <= v.len(),
            spec_find(cur@, c) == -1,
            spec_split_char(v@, c) == out.deep_view() + spec_split_char(cur@ + v@.skip(i as int), c),
        decreases v.len() - i,
    {
        let ghost pre_out = out.deep_view();
        let ghost pre_cur = cur@;
        let x = v[i];
        if x == c {
            proof {
                assert(cur@ + v@.skip(i as int) =~= cur@ + seq![c] + v@.skip(i + 1));
                lemma_split_char_step(cur@, c, v@.skip(i + 1));
            }
            out.push(cur);
            cur = Vec::new();
            proof {
                assert(out.deep_view() =~~= pre_out.push(pre_cur));
                assert(cur@ + v@.skip(i + 1) =~= v@.skip(i + 1));
                assert(pre_out + (seq![pre_cur] + spec_split_char(v@.skip(i + 1), c))
                    =~= out.deep_view() + spec_split_char(v@.skip(i + 1), c));
            }
        } else {
            cur.push(x);
            proof {
                lemma_find_characterize(pre_cur, c);
                lemma_find_characterize(cur@, c);
                assert forall|k: int| 0 <= k < cur@.len() implies cur@[k] != c by {
                    if k < cur@.len() - 1 {
                        assert(cur@[k] == pre_cur[k]);
                    }
                }
                assert(pre_cur + v@.skip(i as int) =~= cur@ + v@.skip(i + 1));
            }
        }
        i = i + 1;
    }
    proof {
        assert(cur@ + v@.skip(v.len() as int) =~= cur@);
        lemma_find_characterize(cur@, c);
    }
    let ghost pre_out = out.deep_view();
    out.push(cur);
    proof {
        assert(out.deep_view() =~~= pre_out.push(out@.last()@));
        assert(spec_split_char(v@, c) =~= out.deep_view());
    }
    out
}

/// The pieces of `v` before and after the first occurrence of `c`, if any.
pub fn split_once(v: &Vec<char>, c: char) -> (r: Option<(Vec<char>, Vec<char>)>)
    ensures
        match r {
            Some(p) => {
                &&& spec_find(v@, c) >= 0
                &&& p.0@ == v@.take(spec_find(v@, c))
                &&& p.1@ == v@.skip(spec_find(v@, c) + 1)
            },
            None => spec_find(v@, c) == -1,
        },
{
    proof {
        assert(v@.skip(0) =~= v@);
    }
    match find_char_from(v, c, 0) {
        Some(i) => {
            let before = sub_chars(v, 0, i);
            let after = sub_chars(v, i + 1, v.len());
            proof {
                assert(v@.subrange(0, i as int) =~= v@.take(i as int));
                assert(v@.subrange(i + 1, v@.len() as int) =~= v@.skip(i + 1));
            }
            Some((before, after))
        },
        None => None,
    }
}

// ---------------------------------------------------------------------------
// Whitespace: tokens and trimming
// ---------------------------------------------------------------------------

/// ASCII whitespace, as the splitting and trimming here understand it.
pub open spec fn is_ws(c: char) -> bool {
    c == ' ' || c == '\t' || c == '\n' || c == '\r' || c == '\x0b' || c == '\x0c'
}

/// Executable test for ASCII whitespace.
pub fn is_ws_char(c: char) -> (r: bool)
    ensures
        r == is_ws(c),
{
    c == ' ' || c == '\t' || c == '\n' || c == '\r' || c == '\x0b' || c == '\x0c'
}

/// The length of the whitespace-free token at the head of `s`.
pub open spec fn token_len(s: Seq<char>) -> int
    decreases s.len(),
{
    if s.len() == 0 || is_ws(s[0]) {
        0
    } else {
        1 + token_len(s.skip(1))
    }
}

/// `token_len` is the index of the first whitespace character.
pub proof fn lemma_token_len(s: Seq<char>, m: int)
    requires
        0 <= m <= s.len(),
        forall|k: int| 0 <= k < m ==> !is_ws(s[k]),
        m == s.len() || is_ws(s[m]),
    ensures
        token_len(s) == m,
    decreases m,
{
    if m > 0 {
        let t = s.skip(1);
        assert forall|k: int| 0 <= k < m - 1 implies !is_ws(t[k]) by {
            assert(t[k] == s[k + 1]);
        }
        if m - 1 < t.len() {
            assert(t[m - 1] == s[m]);
        }
        lemma_token_len(t, m - 1);
    }
}

/// The whitespace-separated tokens of `s`, with no empty tokens.
pub open spec fn spec_split_ws(s: Seq<char>) -> Seq<Seq<char>>
    decreases s.len(),
{
    if s.len() == 0 {
        Seq::empty()
    } else if is_ws(s[0]) {
        spec_split_ws(s.skip(1))
    } else {
        let j = token_len(s);
        if 1 <= j <= s.len() {
            seq![s.take(j)] + spec_split_ws(s.skip(j))
        } else {
            seq![s]
        }
    }
}

/// The whitespace-separated tokens of `v`.
pub fn split_ws(v: &Vec<char>) -> (out: Vec<Vec<char>>)
    ensures
        out.deep_view() == spec_split_ws(v@),
{
    let mut out: Vec<Vec<char>> = Vec::new();
    let mut i: usize = 0;
    proof {
        assert(v@.skip(0) =~= v@);
        assert(out.deep_view() =~~= Seq::<Seq<char>>::empty());
    }
    while i < v.len()
        invariant
            i <= v.len(),
            spec_split_ws(v@) == out.deep_view() + spec_split_ws(v@.skip(i as int)),
        decreases v.len() - i,
    {
        let ghost pre_out = out.deep_view();
        if is_ws_char(v[i]) {
            proof {
                assert(v@.skip(i as int)[0] == v@[i as int]);
                assert(v@.skip(i as int).skip(1) =~= v@.skip(i + 1));
            }
            i = i + 1;
        } else {
            let mut j: usize = i + 1;
            while j < v.len() && !is_ws_char(v[j])
                invariant
                    i < j <= v.len(),
                    forall|k: int| i <= k < j ==> !is_ws(v@[k]),
                decreases v.len() - j,
            {
                j = j + 1;
            }
            let tok = sub_chars(v, i, j);
            proof {
                let t = v@.skip(i as int);
                assert forall|k: int| 0 <= k < j - i implies !is_ws(t[k]) by {
                    assert(t[k] == v@[k + i]);
                }
                if j < v.len() {
                    assert(t[j - i] == v@[j as int]);
                }
                lemma_token_len(t, j - i);
                assert(t.take(j - i) =~= v@.subrange(i as int, j as int));
                assert(t.skip(j - i) =~= v@.skip(j as int));
            }
            out.push(tok);
            proof {
                assert(out.deep_view() =~~= pre_out.push(tok@));
                assert(pre_out + (seq![tok@] + spec_split_ws(v@.skip(j as int)))
                    =~= out.deep_view() + spec_split_ws(v@.skip(j as int)));
            }
            i = j;
        }
    }
    proof {
        assert(v@.skip(v.len() as int) =~= Seq::<char>::empty());
    }
    out
}

/// `s` without leading whitespace.
pub open spec fn spec_trim_start(s: Seq<char>) -> Seq<char>
    decreases s.len(),
{
    if s.len() > 0 && is_ws(s[0]) {
        spec_trim_start(s.skip(1))
    } else {
        s
    }
}

/// `s` without trailing whitespace.
pub open spec fn spec_trim_end(s: Seq<char>) -> Seq<char>
    decreases s.len(),
{
    if s.len() > 0 && is_ws(s.last()) {
        spec_trim_end(s.drop_last())
    } else {
        s
    }
}

/// `s` without leading or trailing whitespace.
pub open spec fn spec_trim(s: Seq<char>) -> Seq<char> {
    spec_trim_end(spec_trim_start(s))
}

/// Dropping trimmed whitespace one character at a time.
proof fn lemma_trim_start_is_skip(s: Seq<char>, i: int)
    requires
        0 <= i <= s.len(),
        forall|k: int| 0 <= k < i ==> is_ws(s[k]),
        i == s.len() || !is_ws(s[i]),
    ensures
        spec_trim_start(s) == s.skip(i),
    decreases i,
{
    if i == 0 {
        assert(s.skip(0) =~= s);
    } else {
        let t = s.skip(1);
        assert forall|k: int| 0 <= k < i - 1 implies is_ws(t[k]) by {
            assert(t[k] == s[k + 1]);
        }
        if i - 1 < t.len() {
            assert(t[i - 1] == s[i as int]);
        }
        lemma_trim_start_is_skip(t, i - 1);
        assert(t.skip(i - 1) =~= s.skip(i));
    }
}

/// Dropping trailing whitespace one character at a time.
proof fn lemma_trim_end_is_take(s: Seq<char>, j: int)
    requires
        0 <= j <= s.len(),
        forall|k: int| j <= k < s.len() ==> is_ws(s[k]),
        j == 0 || !is_ws(s[j - 1]),
    ensures
        spec_trim_end(s) == s.take(j),
    decreases s.len(),
{
    if j == s.len() {
        assert(s.take(j) =~= s);
        if s.len() > 0 {
            assert(!is_ws(s.last()));
        }
    } else {
        assert(is_ws(s.last()));
        lemma_trim_end_is_take(s.drop_last(), j);
        assert(s.drop_last().take(j) =~= s.take(j));
    }
}

/// `v` without leading or trailing whitespace.
pub fn trim(v: &Vec<char>) -> (r: Vec<char>)
    ensures
        r@ == spec_trim(v@),
{
    let mut i: usize = 0;
    while i < v.len() && is_ws_char(v[i])
        invariant
            i <= v.len(),
            forall|k: int| 0 <= k < i ==> is_ws(v@[k]),
        decreases v.len() - i,
    {
        i = i + 1;
    }
    proof {
        lemma_trim_start_is_skip(v@, i as int);
    }
    let mut j: usize = v.len();
    while j > i && is_ws_char(v[j - 1])
        invariant
            i <= j <= v.len(),
            forall|k: int| j <= k < v.len() ==> is_ws(v@[k]),
        decreases j,
    {
        j = j - 1;
    }
    let r = sub_chars(v, i, j);
    proof {
        let t = v@.skip(i as int);
        assert forall|k: int| j - i <= k < t.len() implies is_ws(t[k]) by {
            assert(t[k] == v@[k + i]);
        }
        if j > i {
            assert(t[j - i - 1] == v@[j - 1]);
        }
        lemma_trim_end_is_take(t, j - i);
        assert(t.take(j - i) =~= v@.subrange(i as int, j as int));
    }
    r
}

// ---------------------------------------------------------------------------
// Decimal numbers
// ---------------------------------------------------------------------------

/// Whether `c` is a decimal digit.
pub open spec fn is_digit(c: char) -> bool {
    48 <= c as int <= 57
}

/// The value of the digit `c`.
pub open spec fn digit_val(c: char) -> int {
    c as int - 48
}

/// Whether every character of `s` is a decimal digit.
pub open spec fn all_digits(s: Seq<char>) -> bool {
    forall|k: int| 0 <= k < s.len() ==> is_digit(s[k])
}

/// The value of `s` read as a decimal numeral.
pub open spec fn digits_val(s: Seq<char>) -> int
    decreases s.len(),
{
    if s.len() == 0 {
        0
    } else {
        digits_val(s.drop_last()) * 10 + digit_val(s.last())
    }
}

/// A numeral's value is not negative, and grows as digits are appended.
pub proof fn lemma_digits_val_monotone(s: Seq<char>, i: int)
    requires
        all_digits(s),
        0 <= i <= s.len(),
    ensures
        0 <= digits_val(s.take(i)) <= digits_val(s),
    decreases s.len() - i,
{
    if i == s.len() {
        assert(s.take(i) =~= s);
        lemma_digits_val_nonneg(s);
    } else {
        lemma_digits_val_monotone(s, i + 1);
        let t = s.take(i + 1);
        assert(t.drop_last() =~= s.take(i));
        assert(is_digit(s[i as int]));
        lemma_digits_val_nonneg(s.take(i));
        assert(digits_val(s.take(i)) <= digits_val(s.take(i)) * 10 + digit_val(t.last()))
            by (nonlinear_arith)
            requires
                digits_val(s.take(i)) >= 0,
                0 <= digit_val(t.last()),
        ;
    }
}

/// A numeral's value is not negative.
pub proof fn lemma_digits_val_nonneg(s: Seq<char>)
    requires
        all_digits(s),
    ensures
        digits_val(s) >= 0,
    decreases s.len(),
{
    if s.len() > 0 {
        assert(all_digits(s.drop_last()));
        lemma_digits_val_nonneg(s.drop_last());
        assert(digits_val(s.drop_last()) * 10 >= 0) by (nonlinear_arith)
            requires
                digits_val(s.drop_last()) >= 0,
        ;
    }
}

/// The value of `s` read as a plain decimal numeral: defined when `s` is a
/// nonempty string of digits whose value fits, and nothing otherwise (no
/// sign is accepted).
pub open spec fn spec_parse_usize(s: Seq<char>) -> Option<usize> {
    if s.len() > 0 && all_digits(s) && digits_val(s) <= usize::MAX {
        Some(digits_val(s) as usize)
    } else {
        None
    }
}

/// The value of the decimal digit `c`.
pub fn digit_value(c: char) -> (d: u8)
    requires
        is_digit(c),
    ensures
        d as int == digit_val(c),
{
    if c == '0' {
        0
    } else if c == '1' {
        1
    } else if c == '2' {
        2
    } else if c == '3' {
        3
    } else if c == '4' {
        4
    } else if c == '5' {
        5
    } else if c == '6' {
        6
    } else if c == '7' {
        7
    } else if c == '8' {
        8
    } else {
        9
    }
}

/// Parse `v` as a decimal numeral.
pub fn parse_usize(v: &Vec<char>) -> (r: Option<usize>)
    ensures
        r == spec_parse_usize(v@),
{
    if v.len() == 0 {
        return None;
    }
    let mut acc: u128 = 0;
    let mut i: usize = 0;
    while i < v.len()
        invariant
            i <= v.len(),
            all_digits(v@.take(i as int)),
            acc == digits_val(v@.take(i as int)),
            acc <= usize::MAX,
        decreases v.len() - i,
    {
        let c = v[i];
        if c < '0' || c > '9' {
            assert(!is_digit(v@[i as int]));
            return None;
        }
        let d: u128 = digit_value(c) as u128;
        assert(acc * 10 + d <= u128::MAX) by (nonlinear_arith)
            requires
                acc <= usize::MAX,
                usize::MAX <= u64::MAX,
                d <= 9,
        ;
        let next: u128 = acc * 10 + d;
        proof {
            let t = v@.take(i + 1);
            assert(t.drop_last() =~= v@.take(i as int));
            assert(t.last() == v@[i as int]);
            assert(digit_val(v@[i as int]) == d as int);
        }
        if next > (usize::MAX as u128) {
            proof {
                assert(all_digits(v@.take(i + 1)));
                if all_digits(v@) {
                    lemma_digits_val_monotone(v@, i + 1);
                    assert(v@.take(v@.len() as int) =~= v@);
                }
            }
            return None;
        }
        acc = next;
        i = i + 1;
    }
    proof {
        assert(v@.take(v.len() as int) =~= v@);
    }
    Some(acc as usize)
}

/// The decimal numeral of `n` (`n` below 10 is one digit, and so on).
pub open spec fn spec_nat_string(n: int) -> Seq<char>
    decreases n,
{
    if n < 10 {
        seq![((48 + if n >= 0 { n } else { 0 }) as u8) as char]
    } else {
        spec_nat_string(n / 10).push(((48 + n % 10) as u8) as char)
    }
}

/// The decimal numeral of `n`, as a string.
pub fn format_u64(n: u64) -> (s: String)
    ensures
        s@ == spec_nat_string(n as int),
    decreases n,
{
    if n < 10 {
        let mut s = String::new();
        push_char(&mut s, ((48 + n) as u8) as char);
        s
    } else {
        let mut s = format_u64(n / 10);
        push_char(&mut s, ((48 + n % 10) as u8) as char);
        s
    }
}

/// Whether `p` is a suffix of `s`.
pub open spec fn spec_ends_with(s: Seq<char>, p: Seq<char>) -> bool {
    p.len() <= s.len() && s.skip(s.len() - p.len()) == p
}

/// Whether `p` is a suffix of `v`.
pub fn ends_with(v: &Vec<char>, p: &str) -> (r: bool)
    ensures
        r == spec_ends_with(v@, p@),
{
    let pc = str_to_chars(p);
    if pc.len() > v.len() {
        return false;
    }
    let off = v.len() - pc.len();
    let mut i: usize = 0;
    while i < pc.len()
        invariant
            i <= pc.len(),
            pc.len() <= v.len(),
            off == v.len() - pc.len(),
            pc@ == p@,
            forall|k: int| 0 <= k < i ==> v@[off + k] == pc@[k],
        decreases pc.len() - i,
    {
        if v[off + i] != pc[i] {
            proof {
                let t = v@.skip(off as int);
                assert(t[i as int] == v@[off + i]);
            }
            return false;
        }
        i = i + 1;
    }
    proof {
        assert(v@.skip(off as int) =~= p@);
    }
    true
}

/// The first index where `p` occurs as a subsequence of `s`, or -1.
pub open spec fn spec_find_sub(s: Seq<char>, p: Seq<char>) -> int
    decreases s.len(),
{
    if spec_starts_with(s, p) {
        0
    } else if s.len() == 0 {
        -1
    } else {
        let r = spec_find_sub(s.skip(1), p);
        if r < 0 {
            -1
        } else {
            r + 1
        }
    }
}

/// What `spec_find_sub` returns, characterized by where `p` matches.
pub proof fn lemma_find_sub_characterize(s: Seq<char>, p: Seq<char>)
    ensures
        spec_find_sub(s, p) == -1 <==> (forall|k: int|
            0 <= k <= s.len() ==> !spec_starts_with(s.skip(k), p)),
        spec_find_sub(s, p) >= 0 ==> {
            &&& spec_find_sub(s, p) <= s.len()
            &&& spec_starts_with(s.skip(spec_find_sub(s, p)), p)
            &&& forall|k: int| 0 <= k < spec_find_sub(s, p) ==> !spec_starts_with(s.skip(k), p)
        },
    decreases s.len(),
{
    if spec_starts_with(s, p) {
        assert(s.skip(0) =~= s);
    } else if s.len() == 0 {
        assert forall|k: int| 0 <= k <= s.len() implies !spec_starts_with(s.skip(k), p) by {
            assert(s.skip(k) =~= s);
        }
    } else {
        let t = s.skip(1);
        lemma_find_sub_characterize(t, p);
        assert forall|k: int| 1 <= k <= s.len() implies s.skip(k) =~= t.skip(k - 1) by {}
        assert(s.skip(0) =~= s);
        let r = spec_find_sub(t, p);
        if r >= 0 {
            assert(s.skip(r + 1) =~= t.skip(r));
            assert forall|k: int| 0 <= k < r + 1 implies !spec_starts_with(s.skip(k), p) by {
                if k > 0 {
                    assert(s.skip(k) =~= t.skip(k - 1));
                }
            }
        } else {
            assert forall|k: int| 0 <= k <= s.len() implies !spec_starts_with(s.skip(k), p) by {
                if k > 0 {
                    assert(s.skip(k) =~= t.skip(k - 1));
                }
            }
        }
    }
}

/// The first index at or after `from` where `p` occurs in `v`, if any.
pub fn find_sub_from(v: &Vec<char>, p: &str, from: usize) -> (r: Option<usize>)
    requires
        from <= v.len(),
    ensures
        match r {
            Some(i) => {
                &&& from <= i <= v.len()
                &&& spec_find_sub(v@.skip(from as int), p@) == i - from
            },
            None => spec_find_sub(v@.skip(from as int), p@) == -1,
        },
{
    let mut i: usize = from;
    loop
        invariant
            from <= i <= v.len(),
            forall|k: int| from <= k < i ==> !spec_starts_with(v@.skip(k), p@),
        decreases v.len() - i,
    {
        if starts_with_at(v, p, i) {
            proof {
                let t = v@.skip(from as int);
                lemma_find_sub_characterize(t, p@);
                assert(t.skip(i - from) =~= v@.skip(i as int));
                assert forall|k: int| 0 <= k < i - from implies !spec_starts_with(t.skip(k), p@) by {
                    assert(t.skip(k) =~= v@.skip(k + from));
                }
                let f = spec_find_sub(t, p@);
                if f < i - from {
                    assert(!spec_starts_with(t.skip(f), p@));
                }
                if f > i - from || f == -1 {
                    assert(!spec_starts_with(t.skip(i - from), p@));
                }
            }
            return Some(i);
        }
        if i == v.len() {
            proof {
                let t = v@.skip(from as int);
                lemma_find_sub_characterize(t, p@);
                assert forall|k: int| 0 <= k <= t.len() implies !spec_starts_with(t.skip(k), p@) by {
                    assert(t.skip(k) =~= v@.skip(k + from));
                }
            }
            return None;
        }
        i = i + 1;
    }
}

/// Whether `p` occurs in `s`.
pub open spec fn spec_contains_sub(s: Seq<char>, p: Seq<char>) -> bool {
    spec_find_sub(s, p) >= 0
}

/// Whether `p` occurs in `v`.
pub fn contains_sub(v: &Vec<char>, p: &str) -> (r: bool)
    ensures
        r == spec_contains_sub(v@, p@),
{
    proof {
        assert(v@.skip(0) =~= v@);
    }
    match find_sub_from(v, p, 0) {
        Some(_) => true,
        None => false,
    }
}

/// The pieces before and after the first `c`, when `c` occurs.
pub open spec fn spec_split_once_char(s: Seq<char>, c: char) -> Option<(Seq<char>, Seq<char>)> {
    let i = spec_find(s, c);
    if i < 0 {
        None
    } else {
        Some((s.take(i), s.skip(i + 1)))
    }
}

/// The field of `s` before the first `c`, or all of `s` when `c` is absent.
pub open spec fn spec_first_field(s: Seq<char>, c: char) -> Seq<char> {
    let i = spec_find(s, c);
    if 0 <= i <= s.len() {
        s.take(i)
    } else {
        s
    }
}

/// The characters of `v` before the first `c`.
pub fn first_field(v: &Vec<char>, c: char) -> (r: Vec<char>)
    ensures
        r@ == spec_first_field(v@, c),
{
    proof {
        assert(v@.skip(0) =~= v@);
        lemma_find_characterize(v@, c);
    }
    match find_char_from(v, c, 0) {
        Some(i) => {
            let r = sub_chars(v, 0, i);
            proof {
                assert(v@.subrange(0, i as int) =~= v@.take(i as int));
            }
            r
        },
        None => {
            let r = sub_chars(v, 0, v.len());
            proof {
                assert(v@.subrange(0, v@.len() as int) =~= v@);
            }
            r
        },
    }
}

/// The decimal numeral of `n`, as a string.
pub fn format_u128(n: u128) -> (s: String)
    ensures
        s@ == spec_nat_string(n as int),
    decreases n,
{
    if n < 10 {
        let mut s = String::new();
        push_char(&mut s, ((48 + n) as u8) as char);
        s
    } else {
        let mut s = format_u128(n / 10);
        push_char(&mut s, ((48 + n % 10) as u8) as char);
        s
    }
}

/// The Unicode code point of `c`.
pub fn char_code(c: char) -> (r: u32)
    ensures
        r as int == c as int,
{
    c as u32
}


/// A string with every single quote escaped the POSIX way (`'\''`), so it
/// can stand inside single quotes.
pub open spec fn spec_escape_squotes(s: Seq<char>) -> Seq<char>
    decreases s.len(),
{
    if s.len() == 0 {
        Seq::empty()
    } else {
        let head: Seq<char> = if s[0] == '\'' {
            seq!['\'', '\\', '\'', '\'']
        } else {
            seq![s[0]]
        };
        head + spec_escape_squotes(s.skip(1))
    }
}

/// Escaping distributes over concatenation.
pub proof fn lemma_escape_squotes_concat(a: Seq<char>, b: Seq<char>)
    ensures
        spec_escape_squotes(a + b) == spec_escape_squotes(a) + spec_escape_squotes(b),
    decreases a.len(),
{
    if a.len() == 0 {
        assert(a + b =~= b);
        assert(spec_escape_squotes(a) + spec_escape_squotes(b) =~= spec_escape_squotes(b));
    } else {
        assert((a + b).skip(1) =~= a.skip(1) + b);
        lemma_escape_squotes_concat(a.skip(1), b);
        assert(spec_escape_squotes(a + b) =~= spec_escape_squotes(a) + spec_escape_squotes(b));
    }
}

/// Escape every single quote of `s` the POSIX way.
pub fn escape_single_quotes(s: &str) -> (r: String)
    ensures
        r@ == spec_escape_squotes(s@),
{
    let cv = str_to_chars(s);
    let mut escaped: Vec<char> = Vec::new();
    let mut i: usize = 0;
    proof {
        assert(cv@.take(0) =~= Seq::<char>::empty());
        assert(escaped@ =~= spec_escape_squotes(cv@.take(0)));
    }
    while i < cv.len()
        invariant
            i <= cv.len(),
            cv@ == s@,
            escaped@ == spec_escape_squotes(cv@.take(i as int)),
        decreases cv.len() - i,
    {
        proof {
            assert(cv@.take(i + 1) =~= cv@.take(i as int) + seq![cv@[i as int]]);
            lemma_escape_squotes_concat(cv@.take(i as int), seq![cv@[i as int]]);
            let single = seq![cv@[i as int]];
            assert(spec_escape_squotes(Seq::<char>::empty()) =~= Seq::<char>::empty());
            assert(single.skip(1) =~= Seq::<char>::empty());
            assert(spec_escape_squotes(single) =~= if cv@[i as int] == '\'' {
                seq!['\'', '\\', '\'', '\'']
            } else {
                seq![cv@[i as int]]
            });
        }
        let ch = cv[i];
        if ch == '\'' {
            escaped.push('\'');
            escaped.push('\\');
            escaped.push('\'');
            escaped.push('\'');
            proof {
                assert(escaped@ =~= spec_escape_squotes(cv@.take(i as int)) + seq![
                    '\'',
                    '\\',
                    '\'',
                    '\'',
                ]);
            }
        } else {
            escaped.push(ch);
            proof {
                assert(escaped@ =~= spec_escape_squotes(cv@.take(i as int)) + seq![cv@[i as int]]);
            }
        }
        i = i + 1;
    }
    proof {
        assert(cv@.take(cv.len() as int) =~= cv@);
    }
    chars_to_string(&escaped)
}


/// Whether the characters of `p` are a prefix of `v` at position `at`.
pub fn starts_with_chars_at(v: &Vec<char>, p: &Vec<char>, at: usize) -> (r: bool)
    requires
        at <= v.len(),
    ensures
        r == spec_starts_with(v@.skip(at as int), p@),
{
    if v.len() - at < p.len() {
        return false;
    }
    let mut i: usize = 0;
    while i < p.len()
        invariant
            i <= p.len(),
            p.len() <= v.len() - at,
            at <= v.len(),
            forall|k: int| 0 <= k < i ==> v@[at + k] == p@[k],
        decreases p.len() - i,
    {
        if v[at + i] != p[i] {
            proof {
                let t = v@.skip(at as int);
                assert(t[i as int] == v@[at + i]);
                assert(t.take(p@.len() as int)[i as int] == v@[at + i]);
            }
            return false;
        }
        i = i + 1;
    }
    proof {
        let t = v@.skip(at as int);
        assert(t.take(p@.len() as int) =~= p@) by {
            assert forall|k: int| 0 <= k < p@.len() implies t.take(p@.len() as int)[k] == p@[k] by {
                assert(t[k] == v@[at + k]);
            }
        }
    }
    true
}

/// Whether the characters of `p` occur in `v`.
pub fn contains_chars(v: &Vec<char>, p: &Vec<char>) -> (r: bool)
    ensures
        r == spec_contains_sub(v@, p@),
{
    proof {
        assert(v@.skip(0) =~= v@);
    }
    let mut i: usize = 0;
    loop
        invariant
            i <= v.len(),
            forall|k: int| 0 <= k < i ==> !spec_starts_with(v@.skip(k), p@),
        decreases v.len() - i,
    {
        if starts_with_chars_at(v, p, i) {
            proof {
                lemma_find_sub_characterize(v@, p@);
                if spec_find_sub(v@, p@) == -1 {
                    assert(!spec_starts_with(v@.skip(i as int), p@));
                }
            }
            return true;
        }
        if i == v.len() {
            proof {
                lemma_find_sub_characterize(v@, p@);
            }
            return false;
        }
        i = i + 1;
    }
}

/// Whether the characters of `p` are a suffix of `v`.
pub fn ends_with_chars(v: &Vec<char>, p: &Vec<char>) -> (r: bool)
    ensures
        r == spec_ends_with(v@, p@),
{
    if p.len() > v.len() {
        return false;
    }
    let off = v.len() - p.len();
    let r = starts_with_chars_at(v, p, off);
    proof {
        if spec_starts_with(v@.skip(off as int), p@) {
            assert(v@.skip(off as int) =~= p@);
        }
        if spec_ends_with(v@, p@) {
            assert(v@.skip(off as int).take(p@.len() as int) =~= v@.skip(off as int));
        }
    }
    r
}

/// The characters of `a` followed by those of `b`.
pub fn concat_chars(a: &Vec<char>, b: &Vec<char>) -> (r: Vec<char>)
    ensures
        r@ == a@ + b@,
{
    let mut r: Vec<char> = Vec::new();
    let mut i: usize = 0;
    while i < a.len()
        invariant
            i <= a.len(),
            r@ == a@.take(i as int),
        decreases a.len() - i,
    {
        r.push(a[i]);
        proof {
            assert(r@ =~= a@.take(i + 1 as int));
        }
        i = i + 1;
    }
    proof {
        assert(a@.take(a.len() as int) =~= a@);
    }
    let mut j: usize = 0;
    while j < b.len()
        invariant
            j <= b.len(),
            r@ == a@ + b@.take(j as int),
        decreases b.len() - j,
    {
        r.push(b[j]);
        proof {
            assert(r@ =~= a@ + b@.take(j + 1 as int));
        }
        j = j + 1;
    }
    proof {
        assert(b@.take(b.len() as int) =~= b@);
        assert(r@ =~= a@ + b@);
    }
    r
}

/// Whether the characters of `v` are exactly those of `p`.
pub fn eq_str(v: &Vec<char>, p: &str) -> (r: bool)
    ensures
        r == (v@ == p@),
{
    let pc = str_to_chars(p);
    if v.len() != pc.len() {
        return false;
    }
    let mut i: usize = 0;
    while i < v.len()
        invariant
            i <= v.len(),
            v.len() == pc.len(),
            pc@ == p@,
            forall|k: int| 0 <= k < i ==> v@[k] == pc@[k],
        decreases v.len() - i,
    {
        if v[i] != pc[i] {
            return false;
        }
        i = i + 1;
    }
    proof {
        assert(v@ =~= p@);
    }
    true
}

} // verus!
