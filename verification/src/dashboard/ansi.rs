//! ANSI escape sequence handling.

use vstd::prelude::*;

use crate::text::{chars_to_string, str_to_chars};

verus! {

/// The escape character that introduces ANSI control sequences.
pub open spec fn esc_char() -> char {
    '\x1b'
}

/// Whether `c` is an ASCII letter, which terminates a CSI control sequence.
pub open spec fn is_ascii_alpha(c: char) -> bool {
    (65 <= c as int <= 90) || (97 <= c as int <= 122)
}

/// One step of the stripping state machine. State 0 is ordinary text, state 1
/// follows an escape character, state 2 is inside a CSI sequence.
pub open spec fn ansi_fold(s: Seq<char>) -> (int, Seq<char>)
    decreases s.len(),
{
    if s.len() == 0 {
        (0int, Seq::empty())
    } else {
        let (st, out) = ansi_fold(s.drop_last());
        let c = s.last();
        if st == 0 {
            if c == esc_char() {
                (1int, out)
            } else {
                (0int, out.push(c))
            }
        } else if st == 1 {
            if c == '[' {
                (2int, out)
            } else if c == esc_char() {
                (1int, out)
            } else {
                (0int, out.push(c))
            }
        } else {
            if is_ascii_alpha(c) {
                (0int, out)
            } else {
                (2int, out)
            }
        }
    }
}

/// `s` with ANSI escape sequences removed: an escape followed by `[` swallows
/// everything up to and including the next ASCII letter; a lone escape is
/// dropped.
pub open spec fn spec_strip_ansi(s: Seq<char>) -> Seq<char> {
    ansi_fold(s).1
}

/// Strip ANSI escape sequences from a character vector.
pub fn strip_ansi_chars(v: &Vec<char>) -> (out: Vec<char>)
    ensures
        out@ == spec_strip_ansi(v@),
{
    let mut out: Vec<char> = Vec::new();
    let mut st: u8 = 0;
    let mut i: usize = 0;
    proof {
        assert(v@.take(0) =~= Seq::<char>::empty());
        assert(out@ =~= Seq::<char>::empty());
    }
    while i < v.len()
        invariant
            i <= v.len(),
            st as int == ansi_fold(v@.take(i as int)).0,
            out@ == ansi_fold(v@.take(i as int)).1,
            st <= 2,
        decreases v.len() - i,
    {
        proof {
            let t = v@.take(i + 1);
            assert(t.drop_last() =~= v@.take(i as int));
            assert(t.last() == v@[i as int]);
        }
        let c = v[i];
        if st == 0 {
            if c == '\x1b' {
                st = 1;
            } else {
                out.push(c);
            }
        } else if st == 1 {
            if c == '[' {
                st = 2;
            } else if c == '\x1b' {
                st = 1;
            } else {
                out.push(c);
                st = 0;
            }
        } else {
            if (c >= 'A' && c <= 'Z') || (c >= 'a' && c <= 'z') {
                st = 0;
            }
        }
        i = i + 1;
    }
    proof {
        assert(v@.take(v.len() as int) =~= v@);
    }
    out
}

/// Strip ANSI escape sequences from a string.
pub fn strip_ansi_escapes(s: &str) -> (r: String)
    ensures
        r@ == spec_strip_ansi(s@),
{
    let v = str_to_chars(s);
    let stripped = strip_ansi_chars(&v);
    chars_to_string(&stripped)
}

/// The same fold, continued from an arbitrary state.
pub open spec fn ansi_fold_from(st0: int, s: Seq<char>) -> (int, Seq<char>)
    decreases s.len(),
{
    if s.len() == 0 {
        (st0, Seq::empty())
    } else {
        let (st, out) = ansi_fold_from(st0, s.drop_last());
        let c = s.last();
        if st == 0 {
            if c == esc_char() {
                (1int, out)
            } else {
                (0int, out.push(c))
            }
        } else if st == 1 {
            if c == '[' {
                (2int, out)
            } else if c == esc_char() {
                (1int, out)
            } else {
                (0int, out.push(c))
            }
        } else {
            if is_ascii_alpha(c) {
                (0int, out)
            } else {
                (2int, out)
            }
        }
    }
}

/// The plain fold is the general fold started in the ordinary state.
pub proof fn lemma_fold_from_zero(s: Seq<char>)
    ensures
        ansi_fold(s) == ansi_fold_from(0, s),
    decreases s.len(),
{
    if s.len() > 0 {
        lemma_fold_from_zero(s.drop_last());
    }
}

/// The fold's state stays among its three values.
pub proof fn lemma_fold_state_range(st0: int, s: Seq<char>)
    requires
        0 <= st0 <= 2,
    ensures
        0 <= ansi_fold_from(st0, s).0 <= 2,
    decreases s.len(),
{
    if s.len() > 0 {
        lemma_fold_state_range(st0, s.drop_last());
    }
}

/// The fold splits over concatenation: the second part continues in the
/// state the first part reached, and the outputs concatenate.
pub proof fn lemma_fold_from_concat(st0: int, a: Seq<char>, b: Seq<char>)
    ensures
        ansi_fold_from(st0, a + b).0 == ansi_fold_from(ansi_fold_from(st0, a).0, b).0,
        ansi_fold_from(st0, a + b).1 == ansi_fold_from(st0, a).1 + ansi_fold_from(
            ansi_fold_from(st0, a).0,
            b,
        ).1,
    decreases b.len(),
{
    if b.len() == 0 {
        assert(a + b =~= a);
        assert(ansi_fold_from(st0, a).1 + ansi_fold_from(ansi_fold_from(st0, a).0, b).1
            =~= ansi_fold_from(st0, a).1);
    } else {
        assert((a + b).drop_last() =~= a + b.drop_last());
        assert((a + b).last() == b.last());
        lemma_fold_from_concat(st0, a, b.drop_last());
        assert(ansi_fold_from(st0, a + b).1 =~= ansi_fold_from(st0, a).1 + ansi_fold_from(
            ansi_fold_from(st0, a).0,
            b,
        ).1);
    }
}

/// A color-introducer (escape, bracket, two digits, `m`) folded from the
/// ordinary state consumes itself entirely.
proof fn lemma_fold_color_prefix(p: Seq<char>, d1: char, d2: char)
    requires
        p =~= seq![esc_char(), '[', d1, d2, 'm'],
        !is_ascii_alpha(d1),
        !is_ascii_alpha(d2),
        d1 != esc_char(),
        d2 != esc_char(),
    ensures
        ansi_fold_from(0, p) == (0int, Seq::<char>::empty()),
{
    let p1 = p.take(1);
    let p2 = p.take(2);
    let p3 = p.take(3);
    let p4 = p.take(4);
    assert(ansi_fold_from(0, Seq::<char>::empty()) == (0int, Seq::<char>::empty()));
    assert(p1.drop_last() =~= Seq::<char>::empty());
    assert(p1.last() == esc_char());
    assert(ansi_fold_from(0, p1) == (1int, Seq::<char>::empty()));
    assert(p2.drop_last() =~= p1);
    assert(p2.last() == '[');
    assert(ansi_fold_from(0, p2) == (2int, Seq::<char>::empty()));
    assert(p3.drop_last() =~= p2);
    assert(p3.last() == d1);
    assert(ansi_fold_from(0, p3) == (2int, Seq::<char>::empty()));
    assert(p4.drop_last() =~= p3);
    assert(p4.last() == d2);
    assert(ansi_fold_from(0, p4) == (2int, Seq::<char>::empty()));
    assert(p.drop_last() =~= p4);
    assert(p.last() == 'm');
    assert(is_ascii_alpha('m'));
    assert(ansi_fold_from(0, p) == (0int, Seq::<char>::empty()));
}

/// The color reset (escape, bracket, zero, `m`) folded from any state
/// consumes itself entirely and ends in the ordinary state.
proof fn lemma_fold_color_reset(st0: int, s: Seq<char>)
    requires
        0 <= st0 <= 2,
        s =~= seq![esc_char(), '[', '0', 'm'],
    ensures
        ansi_fold_from(st0, s) == (0int, Seq::<char>::empty()),
{
    let p1 = s.take(1);
    let p2 = s.take(2);
    let p3 = s.take(3);
    assert(ansi_fold_from(st0, Seq::<char>::empty()) == (st0, Seq::<char>::empty()));
    assert(p1.drop_last() =~= Seq::<char>::empty());
    assert(p1.last() == esc_char());
    assert(!is_ascii_alpha(esc_char()));
    let st1 = ansi_fold_from(st0, p1).0;
    assert(ansi_fold_from(st0, p1).1 =~= Seq::<char>::empty());
    assert(st1 == 1 || st1 == 2);
    assert(p2.drop_last() =~= p1);
    assert(p2.last() == '[');
    assert(!is_ascii_alpha('['));
    assert(ansi_fold_from(st0, p2) == (2int, Seq::<char>::empty()));
    assert(p3.drop_last() =~= p2);
    assert(p3.last() == '0');
    assert(!is_ascii_alpha('0'));
    assert(ansi_fold_from(st0, p3) == (2int, Seq::<char>::empty()));
    assert(s.drop_last() =~= p3);
    assert(s.last() == 'm');
    assert(is_ascii_alpha('m'));
    assert(ansi_fold_from(st0, s) == (0int, Seq::<char>::empty()));
}

/// The rendering law's heart: the fallback coloring is invisible once ANSI
/// escapes are stripped — a colored line strips to the same text as the line
/// itself.
pub proof fn lemma_color_strips_away(l: Seq<char>)
    ensures
        spec_strip_ansi(crate::dashboard::diff::color_line(l)) == spec_strip_ansi(l),
{
    let colored = crate::dashboard::diff::color_line(l);
    if colored == l {
    } else {
        reveal_strlit("\x1b[32m");
        reveal_strlit("\x1b[31m");
        reveal_strlit("\x1b[36m");
        reveal_strlit("\x1b[0m");
        let p: Seq<char> = if crate::dashboard::diff::is_add_line(l) {
            "\x1b[32m"@
        } else if crate::dashboard::diff::is_del_line(l) {
            "\x1b[31m"@
        } else {
            "\x1b[36m"@
        };
        let s: Seq<char> = "\x1b[0m"@;
        assert(colored =~= p + l + s);
        if crate::dashboard::diff::is_add_line(l) {
            assert(p =~= seq![esc_char(), '[', '3', '2', 'm']);
            lemma_fold_color_prefix(p, '3', '2');
        } else if crate::dashboard::diff::is_del_line(l) {
            assert(p =~= seq![esc_char(), '[', '3', '1', 'm']);
            lemma_fold_color_prefix(p, '3', '1');
        } else {
            assert(p =~= seq![esc_char(), '[', '3', '6', 'm']);
            lemma_fold_color_prefix(p, '3', '6');
        }
        assert(ansi_fold_from(0, p) == (0int, Seq::<char>::empty()));
        lemma_fold_from_concat(0, p, l);
        assert((p + l) + s =~= p + l + s);
        lemma_fold_from_concat(0, p + l, s);
        lemma_fold_from_zero(l);
        lemma_fold_state_range(0, l);
        assert(s =~= seq![esc_char(), '[', '0', 'm']);
        lemma_fold_color_reset(ansi_fold_from(0, p + l).0, s);
        lemma_fold_from_zero(colored);
        assert(ansi_fold_from(0, p + l).1 =~= ansi_fold_from(0, l).1);
        assert(ansi_fold_from(0, colored).1 =~= ansi_fold_from(0, l).1);
    }
}

} // verus!
