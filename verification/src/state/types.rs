//! Core data structures for the filesystem-backed state: pane identity,
//! per-agent records, global settings, and the percent-encoded filenames
//! that agent records are stored under.

use vstd::prelude::*;

use crate::multiplexer::{AgentPane, AgentStatus};
use crate::text::{
    chars_to_string, ends_with, find_sub_from, lemma_find_sub_characterize, spec_ends_with,
    spec_find_sub, spec_starts_with, str_to_chars, sub_chars,
};

verus! {

// ---------------------------------------------------------------------------
// Percent-encoding for filesystem-safe filenames
// ---------------------------------------------------------------------------

/// Whether a character must be percent-encoded in a state filename: ASCII
/// control characters, path separators, `:`, and the escape character `%`
/// itself.
pub open spec fn needs_escape(c: char) -> bool {
    ((0 <= c as int) && ((c as int) < 32)) || (c as int) == 127 || c == '/' || c == '\\' || (c == ':') || (c == '%')
}

/// The uppercase hexadecimal digit of value `d`.
pub open spec fn hex_digit(d: int) -> char {
    if d < 10 {
        ((48 + d) as u8) as char
    } else {
        ((55 + d) as u8) as char
    }
}

/// A character as it appears in an encoded filename: itself, or `%` and two
/// hexadecimal digits.
pub open spec fn escape_char(c: char) -> Seq<char> {
    if needs_escape(c) {
        seq!['%', hex_digit(c as int / 16), hex_digit(c as int % 16)]
    } else {
        seq![c]
    }
}

/// The percent-encoding of `s`.
pub open spec fn spec_percent_encode(s: Seq<char>) -> Seq<char>
    decreases s.len(),
{
    if s.len() == 0 {
        Seq::empty()
    } else {
        escape_char(s[0]) + spec_percent_encode(s.skip(1))
    }
}

/// Whether `c` is a hexadecimal digit.
pub open spec fn is_hex(c: char) -> bool {
    (48 <= c as int <= 57) || (97 <= c as int <= 102) || (65 <= c as int <= 70)
}

/// The value of the hexadecimal digit `c`.
pub open spec fn hex_val(c: char) -> int {
    if 48 <= c as int <= 57 {
        c as int - 48
    } else if 97 <= c as int <= 102 {
        c as int - 87
    } else {
        c as int - 55
    }
}

/// The percent-decoding of `s`: a `%` followed by two hexadecimal digits
/// becomes the character of that value; anything else passes through.
pub open spec fn spec_percent_decode(s: Seq<char>) -> Seq<char>
    decreases s.len(),
{
    if s.len() == 0 {
        Seq::empty()
    } else if s[0] == '%' && s.len() >= 3 && is_hex(s[1]) && is_hex(s[2]) {
        seq![((16 * hex_val(s[1]) + hex_val(s[2])) as u8) as char] + spec_percent_decode(s.skip(3))
    } else {
        seq![s[0]] + spec_percent_decode(s.skip(1))
    }
}

/// Encoding distributes over concatenation.
pub proof fn lemma_encode_concat(a: Seq<char>, b: Seq<char>)
    ensures
        spec_percent_encode(a + b) == spec_percent_encode(a) + spec_percent_encode(b),
    decreases a.len(),
{
    if a.len() == 0 {
        assert(a + b =~= b);
        assert(spec_percent_encode(a) + spec_percent_encode(b) =~= spec_percent_encode(b));
    } else {
        assert((a + b).skip(1) =~= a.skip(1) + b);
        lemma_encode_concat(a.skip(1), b);
        assert(spec_percent_encode(a + b) =~= spec_percent_encode(a) + spec_percent_encode(b));
    }
}

/// The executable uppercase hexadecimal digit.
fn hex_digit_char(d: u8) -> (c: char)
    requires
        d < 16,
    ensures
        c == hex_digit(d as int),
{
    if d < 10 {
        ((48 + d) as u8) as char
    } else {
        ((55 + d) as u8) as char
    }
}

/// Executable test for characters a filename must escape.
fn needs_escape_char(c: char) -> (r: bool)
    ensures
        r == needs_escape(c),
{
    c < ' ' || c == '\x7f' || c == '/' || c == '\\' || c == ':' || c == '%'
}

/// Percent-encode the characters of `v`.
fn percent_encode_chars(v: &Vec<char>) -> (r: Vec<char>)
    ensures
        r@ == spec_percent_encode(v@),
{
    let mut r: Vec<char> = Vec::new();
    let mut i: usize = 0;
    proof {
        assert(v@.take(0) =~= Seq::<char>::empty());
        assert(r@ =~= spec_percent_encode(v@.take(0)));
    }
    while i < v.len()
        invariant
            i <= v.len(),
            r@ == spec_percent_encode(v@.take(i as int)),
        decreases v.len() - i,
    {
        let c = v[i];
        proof {
            let t = v@.take(i + 1);
            assert(t =~= v@.take(i as int) + seq![v@[i as int]]);
            lemma_encode_concat(v@.take(i as int), seq![v@[i as int]]);
            let single = seq![v@[i as int]];
            assert(spec_percent_encode(Seq::<char>::empty()) =~= Seq::<char>::empty());
            assert(single.skip(1) =~= Seq::<char>::empty());
            assert(spec_percent_encode(single) =~= escape_char(v@[i as int]));
        }
        if needs_escape_char(c) {
            // every escaped character is ASCII, so its value fits one byte
            let code = crate::text::char_code(c);
            proof {
                assert(code < 128);
            }
            let b = code as u8;
            r.push('%');
            r.push(hex_digit_char(b / 16));
            r.push(hex_digit_char(b % 16));
            proof {
                assert(r@ =~= spec_percent_encode(v@.take(i as int)) + escape_char(v@[i as int]));
            }
        } else {
            r.push(c);
            proof {
                assert(r@ =~= spec_percent_encode(v@.take(i as int)) + escape_char(v@[i as int]));
            }
        }
        i = i + 1;
    }
    proof {
        assert(v@.take(v.len() as int) =~= v@);
    }
    r
}

/// Executable hexadecimal digit test and value.
fn hex_val_char(c: char) -> (r: Option<u8>)
    ensures
        match r {
            Some(d) => is_hex(c) && d as int == hex_val(c),
            None => !is_hex(c),
        },
{
    if c >= '0' && c <= '9' {
        Some(crate::text::digit_value(c))
    } else if c >= 'a' && c <= 'f' {
        if c == 'a' {
            Some(10)
        } else if c == 'b' {
            Some(11)
        } else if c == 'c' {
            Some(12)
        } else if c == 'd' {
            Some(13)
        } else if c == 'e' {
            Some(14)
        } else {
            Some(15)
        }
    } else if c >= 'A' && c <= 'F' {
        if c == 'A' {
            Some(10)
        } else if c == 'B' {
            Some(11)
        } else if c == 'C' {
            Some(12)
        } else if c == 'D' {
            Some(13)
        } else if c == 'E' {
            Some(14)
        } else {
            Some(15)
        }
    } else {
        None
    }
}

/// Percent-decode the characters of `v`.
fn percent_decode_chars(v: &Vec<char>) -> (r: Vec<char>)
    ensures
        r@ == spec_percent_decode(v@),
{
    let mut r: Vec<char> = Vec::new();
    let mut i: usize = 0;
    proof {
        assert(v@.skip(0) =~= v@);
        assert(r@ + spec_percent_decode(v@.skip(0)) =~= spec_percent_decode(v@));
    }
    while i < v.len()
        invariant
            i <= v.len(),
            spec_percent_decode(v@) == r@ + spec_percent_decode(v@.skip(i as int)),
        decreases v.len() - i,
    {
        let ghost t = v@.skip(i as int);
        proof {
            assert(t[0] == v@[i as int]);
        }
        let c = v[i];
        let mut plain = true;
        if c == '%' && v.len() - i > 2 {
            proof {
                assert(t[1] == v@[i + 1]);
                assert(t[2] == v@[i + 2]);
            }
            let h1 = hex_val_char(v[i + 1]);
            let h2 = hex_val_char(v[i + 2]);
            if let (Some(d1), Some(d2)) = (h1, h2) {
                let b: u8 = 16 * d1 + d2;
                r.push((b as u8) as char);
                proof {
                    assert(t.skip(3) =~= v@.skip(i + 3));
                    assert(spec_percent_decode(t) =~= seq![(b as u8) as char]
                        + spec_percent_decode(v@.skip(i + 3)));
                    assert(spec_percent_decode(v@) =~= r@ + spec_percent_decode(v@.skip(i + 3)));
                }
                i = i + 3;
                plain = false;
            }
        }
        if plain {
            r.push(c);
            proof {
                assert(t.skip(1) =~= v@.skip(i + 1));
                assert(spec_percent_decode(t) =~= seq![v@[i as int]] + spec_percent_decode(
                    v@.skip(i + 1),
                ));
                assert(spec_percent_decode(v@) =~= r@ + spec_percent_decode(v@.skip(i + 1)));
            }
            i = i + 1;
        }
    }
    proof {
        assert(v@.skip(v.len() as int) =~= Seq::<char>::empty());
        assert(spec_percent_decode(v@) =~= r@);
    }
    r
}

/// Decoding undoes encoding.
pub proof fn lemma_percent_roundtrip(s: Seq<char>)
    ensures
        spec_percent_decode(spec_percent_encode(s)) == s,
    decreases s.len(),
{
    if s.len() == 0 {
        assert(spec_percent_decode(spec_percent_encode(s)) =~= s);
    } else {
        let c = s[0];
        let e = spec_percent_encode(s);
        let rest = spec_percent_encode(s.skip(1));
        lemma_percent_roundtrip(s.skip(1));
        if needs_escape(c) {
            let h1 = hex_digit(c as int / 16);
            let h2 = hex_digit(c as int % 16);
            assert(e =~= seq!['%', h1, h2] + rest);
            assert(e[0] == '%' && e[1] == h1 && e[2] == h2);
            assert(is_hex(h1) && hex_val(h1) == c as int / 16);
            assert(is_hex(h2) && hex_val(h2) == c as int % 16);
            assert(16 * hex_val(e[1]) + hex_val(e[2]) == c as int);
            assert(((16 * hex_val(e[1]) + hex_val(e[2])) as u8) as char == c);
            assert(e.skip(3) =~= rest);
            assert(spec_percent_decode(e) =~= seq![c] + s.skip(1));
            assert(spec_percent_decode(e) =~= s);
        } else {
            assert(e =~= seq![c] + rest);
            assert(e[0] == c && c != '%');
            assert(e.skip(1) =~= rest);
            assert(spec_percent_decode(e) =~= seq![c] + s.skip(1));
            assert(spec_percent_decode(e) =~= s);
        }
    }
}

// ---------------------------------------------------------------------------
// Pane identity and its on-disk filename
// ---------------------------------------------------------------------------

/// Composite pane identifier for unique state file naming: backend type,
/// backend instance (such as a tmux socket path), and pane id.
#[derive(Debug)]
pub struct PaneKey {
    /// Backend type, such as `tmux`.
    pub backend: String,
    /// Backend instance identifier.
    pub instance: String,
    /// Pane identifier within the backend.
    pub pane_id: String,
}

/// The mathematical content of a `PaneKey`.
#[verifier::ext_equal]
pub struct PaneKeyView {
    pub backend: Seq<char>,
    pub instance: Seq<char>,
    pub pane_id: Seq<char>,
}

impl View for PaneKey {
    type V = PaneKeyView;

    open spec fn view(&self) -> PaneKeyView {
        PaneKeyView { backend: self.backend@, instance: self.instance@, pane_id: self.pane_id@ }
    }
}

impl Clone for PaneKey {
    fn clone(&self) -> (r: Self)
        ensures
            r@ == self@,
    {
        PaneKey {
            backend: self.backend.clone(),
            instance: self.instance.clone(),
            pane_id: self.pane_id.clone(),
        }
    }
}

impl PartialEq for PaneKey {
    fn eq(&self, other: &Self) -> (r: bool)
    {
        self.backend == other.backend && self.instance == other.instance && self.pane_id
            == other.pane_id
    }
}

impl Eq for PaneKey {

}

impl vstd::std_specs::cmp::PartialEqSpecImpl for PaneKey {
    open spec fn obeys_eq_spec() -> bool {
        true
    }

    open spec fn eq_spec(&self, other: &Self) -> bool {
        self@ == other@
    }
}

/// The filename an agent record is stored under:
/// `backend__instance__pane_id.json`, the instance and pane id
/// percent-encoded.
pub open spec fn spec_to_filename(k: PaneKeyView) -> Seq<char> {
    k.backend + "__"@ + spec_percent_encode(k.instance) + "__"@ + spec_percent_encode(k.pane_id)
        + ".json"@
}

/// What `from_filename` returns: the key read back from a filename of the
/// expected shape, or nothing.
pub open spec fn spec_from_filename(f: Seq<char>) -> Option<PaneKeyView> {
    if !spec_ends_with(f, ".json"@) {
        None
    } else {
        let stem = f.take(f.len() - ".json"@.len());
        let i1 = spec_find_sub(stem, "__"@);
        if !(0 <= i1 && i1 + 2 <= stem.len()) {
            None
        } else {
            let rest = stem.skip(i1 + 2);
            let i2 = spec_find_sub(rest, "__"@);
            if !(0 <= i2 && i2 + 2 <= rest.len()) {
                None
            } else {
                Some(
                    PaneKeyView {
                        backend: stem.take(i1),
                        instance: spec_percent_decode(rest.take(i2)),
                        pane_id: spec_percent_decode(rest.skip(i2 + 2)),
                    },
                )
            }
        }
    }
}

impl PaneKey {
    /// Generate the filename for this pane's state file. Double underscores
    /// separate the parts, since pane ids may contain single underscores;
    /// filesystem-unsafe characters of instance and pane id are
    /// percent-encoded.
    pub fn to_filename(&self) -> (r: String)
        ensures
            r@ == spec_to_filename(self@),
    {
        let iv = str_to_chars(self.instance.as_str());
        let pv = str_to_chars(self.pane_id.as_str());
        let ie = percent_encode_chars(&iv);
        let pe = percent_encode_chars(&pv);
        let mut s = String::new();
        s.append(self.backend.as_str());
        s.append("__");
        let ies = chars_to_string(&ie);
        s.append(ies.as_str());
        s.append("__");
        let pes = chars_to_string(&pe);
        s.append(pes.as_str());
        s.append(".json");
        proof {
            assert(s@ =~= spec_to_filename(self@));
        }
        s
    }

    /// Parse a `PaneKey` back from a filename, when it has the expected
    /// shape.
    pub fn from_filename(filename: &str) -> (r: Option<PaneKey>)
        ensures
            match r {
                Some(k) => spec_from_filename(filename@) == Some(k@),
                None => spec_from_filename(filename@) is None,
            },
    {
        let fv = str_to_chars(filename);
        if !ends_with(&fv, ".json") {
            return None;
        }
        let suffix_len = ".json".unicode_len();
        let stem = sub_chars(&fv, 0, fv.len() - suffix_len);
        proof {
            assert(stem@ =~= fv@.take(fv@.len() - ".json"@.len()));
            assert(stem@.skip(0) =~= stem@);
        }
        let i1 = match find_sub_from(&stem, "__", 0) {
            Some(i) => i,
            None => {
                return None;
            },
        };
        if stem.len() - i1 < 2 {
            return None;
        }
        let rest = sub_chars(&stem, i1 + 2, stem.len());
        proof {
            assert(rest@ =~= stem@.skip(i1 + 2));
            assert(rest@.skip(0) =~= rest@);
        }
        let i2 = match find_sub_from(&rest, "__", 0) {
            Some(i) => i,
            None => {
                return None;
            },
        };
        if rest.len() - i2 < 2 {
            return None;
        }
        let backend = sub_chars(&stem, 0, i1);
        let inst_enc = sub_chars(&rest, 0, i2);
        let pane_enc = sub_chars(&rest, i2 + 2, rest.len());
        proof {
            assert(backend@ =~= stem@.take(i1 as int));
            assert(inst_enc@ =~= rest@.take(i2 as int));
            assert(pane_enc@ =~= rest@.skip(i2 + 2));
        }
        let inst_dec = percent_decode_chars(&inst_enc);
        let pane_dec = percent_decode_chars(&pane_enc);
        let k = PaneKey {
            backend: chars_to_string(&backend),
            instance: chars_to_string(&inst_dec),
            pane_id: chars_to_string(&pane_dec),
        };
        proof {
            assert(spec_from_filename(filename@) matches Some(v) && v =~= k@);
        }
        Some(k)
    }
}

// ---------------------------------------------------------------------------
// Filename laws
// ---------------------------------------------------------------------------

/// Whether `s` holds no two adjacent underscores.
pub open spec fn dunder_free(s: Seq<char>) -> bool {
    forall|k: int| 0 <= k < s.len() - 1 ==> !(#[trigger] s[k] == '_' && s[k + 1] == '_')
}

/// A match of `__` is two adjacent underscores.
proof fn lemma_starts_dunder(s: Seq<char>, k: int)
    requires
        0 <= k <= s.len(),
    ensures
        spec_starts_with(s.skip(k), "__"@) <==> (k + 2 <= s.len() && s[k] == '_' && s[k + 1]
            == '_'),
{
    reveal_strlit("__");
    let t = s.skip(k);
    if k + 2 <= s.len() {
        assert(t[0] == s[k] && t[1] == s[k + 1]);
        if s[k] == '_' && s[k + 1] == '_' {
            assert(t.take(2) =~= "__"@);
        }
        if spec_starts_with(t, "__"@) {
            assert(t.take(2)[0] == '_' && t.take(2)[1] == '_');
        }
    }
}

/// The first `__` of `a ++ __ ++ b` stands right after `a`, when `a` holds no
/// `__` and does not end in an underscore.
proof fn lemma_find_dunder(a: Seq<char>, b: Seq<char>)
    requires
        dunder_free(a),
        a.len() == 0 || a.last() != '_',
    ensures
        spec_find_sub(a + "__"@ + b, "__"@) == a.len(),
{
    reveal_strlit("__");
    let s = a + "__"@ + b;
    lemma_find_sub_characterize(s, "__"@);
    assert(s[a.len() as int] == '_' && s[a.len() as int + 1] == '_');
    lemma_starts_dunder(s, a.len() as int);
    assert forall|k: int| 0 <= k < a.len() implies !spec_starts_with(s.skip(k), "__"@) by {
        lemma_starts_dunder(s, k);
        if k + 1 < a.len() {
            assert(s[k] == a[k] && s[k + 1] == a[k + 1]);
        } else {
            assert(s[k] == a[a.len() - 1]);
        }
    }
    let f = spec_find_sub(s, "__"@);
    if f > a.len() {
        assert(!spec_starts_with(s.skip(a.len() as int), "__"@));
    }
    if f < 0 {
        assert(!spec_starts_with(s.skip(a.len() as int), "__"@));
    }
}

/// Percent-encoding preserves freedom from `__` and from a trailing
/// underscore, keeps nonemptiness, and keeps whether the text starts with an
/// underscore.
proof fn lemma_encode_dunder_free(s: Seq<char>)
    requires
        dunder_free(s),
        s.len() == 0 || s.last() != '_',
    ensures
        dunder_free(spec_percent_encode(s)),
        spec_percent_encode(s).len() == 0 || spec_percent_encode(s).last() != '_',
        s.len() > 0 ==> spec_percent_encode(s).len() > 0,
        spec_percent_encode(s).len() > 0 ==> (spec_percent_encode(s)[0] == '_' <==> s[0] == '_'),
    decreases s.len(),
{
    if s.len() > 0 {
        let c = s[0];
        let rest = s.skip(1);
        let er = spec_percent_encode(rest);
        let e = spec_percent_encode(s);
        assert(dunder_free(rest)) by {
            assert forall|k: int| 0 <= k < rest.len() - 1 implies !(#[trigger] rest[k] == '_'
                && rest[k + 1] == '_') by {
                assert(rest[k] == s[k + 1] && rest[k + 1] == s[k + 2]);
            }
        }
        if rest.len() > 0 {
            assert(rest.last() == s.last());
        }
        lemma_encode_dunder_free(rest);
        if needs_escape(c) {
            let h1 = hex_digit(c as int / 16);
            let h2 = hex_digit(c as int % 16);
            assert(e =~= seq!['%', h1, h2] + er);
            assert(h1 != '_' && h2 != '_' && '%' != '_');
            assert forall|k: int| 0 <= k < e.len() - 1 implies !(#[trigger] e[k] == '_' && e[k + 1] == '_') by {
                if k >= 3 {
                    assert(e[k] == er[k - 3] && e[k + 1] == er[k - 2]);
                } else if k == 2 {
                    assert(e[k] == h2);
                }
            }
            if er.len() == 0 {
                assert(e.last() == h2);
            } else {
                assert(e.last() == er.last());
            }
            assert(c != '_');
        } else {
            assert(e =~= seq![c] + er);
            assert forall|k: int| 0 <= k < e.len() - 1 implies !(#[trigger] e[k] == '_' && e[k + 1] == '_') by {
                if k == 0 {
                    if c == '_' && er.len() > 0 && er[0] == '_' {
                        assert(rest[0] == '_');
                        assert(s[0] == '_' && s[1] == '_');
                    }
                } else {
                    assert(e[k] == er[k - 1] && e[k + 1] == er[k]);
                }
            }
            if er.len() == 0 {
                assert(e.last() == c && c == s.last());
            } else {
                assert(e.last() == er.last());
            }
        }
    }
}

/// Reading back the filename written for a key yields the key, for every key
/// whose backend and instance hold no double underscore and do not end in an
/// underscore.
pub proof fn lemma_pane_key_filename_roundtrip(k: PaneKeyView)
    requires
        dunder_free(k.backend),
        k.backend.len() == 0 || k.backend.last() != '_',
        dunder_free(k.instance),
        k.instance.len() == 0 || k.instance.last() != '_',
    ensures
        spec_from_filename(spec_to_filename(k)) == Some(k),
{
    reveal_strlit(".json");
    reveal_strlit("__");
    let e1 = spec_percent_encode(k.instance);
    let e2 = spec_percent_encode(k.pane_id);
    let f = spec_to_filename(k);
    assert(f =~= k.backend + "__"@ + e1 + "__"@ + e2 + ".json"@);
    assert(f.skip(f.len() - ".json"@.len()) =~= ".json"@);
    assert(spec_ends_with(f, ".json"@));
    let stem = f.take(f.len() - ".json"@.len());
    assert(stem =~= k.backend + "__"@ + (e1 + "__"@ + e2));
    lemma_find_dunder(k.backend, e1 + "__"@ + e2);
    let i1 = spec_find_sub(stem, "__"@);
    assert(i1 == k.backend.len());
    assert(stem.take(i1) =~= k.backend);
    let rest = stem.skip(i1 + 2);
    assert(rest =~= e1 + "__"@ + e2);
    lemma_encode_dunder_free(k.instance);
    lemma_find_dunder(e1, e2);
    let i2 = spec_find_sub(rest, "__"@);
    assert(i2 == e1.len());
    assert(rest.take(i2) =~= e1);
    assert(rest.skip(i2 + 2) =~= e2);
    lemma_percent_roundtrip(k.instance);
    lemma_percent_roundtrip(k.pane_id);
    assert(spec_from_filename(f) matches Some(v) && v =~= k);
}

/// Whether a character may stand in a state filename: not a control
/// character, not a path separator, not a colon.
pub open spec fn filename_safe_char(c: char) -> bool {
    &&& !((0 <= c as int) && ((c as int) < 32))
    &&& (c as int) != 127
    &&& c != '/'
    &&& c != '\\'
    &&& c != ':'
}

/// Every character of a percent-encoding is safe for a filename.
proof fn lemma_encode_safe(s: Seq<char>)
    ensures
        forall|i: int|
            0 <= i < spec_percent_encode(s).len() ==> filename_safe_char(
                #[trigger] spec_percent_encode(s)[i],
            ),
    decreases s.len(),
{
    if s.len() > 0 {
        let c = s[0];
        let rest = s.skip(1);
        let er = spec_percent_encode(rest);
        let e = spec_percent_encode(s);
        lemma_encode_safe(rest);
        if needs_escape(c) {
            assert(e =~= seq!['%', hex_digit(c as int / 16), hex_digit(c as int % 16)] + er);
            assert forall|i: int| 0 <= i < e.len() implies filename_safe_char(e[i]) by {
                if i >= 3 {
                    assert(e[i] == er[i - 3]);
                }
            }
        } else {
            assert(e =~= seq![c] + er);
            assert forall|i: int| 0 <= i < e.len() implies filename_safe_char(e[i]) by {
                if i > 0 {
                    assert(e[i] == er[i - 1]);
                }
            }
        }
    }
}

/// The filename written for a key holds no path separator, no control
/// character, and no colon, as long as the backend label itself is clean:
/// the instance and pane id are encoded, and the separators and extension
/// are plain text.
pub proof fn lemma_filename_safe(k: PaneKeyView)
    requires
        forall|i: int| 0 <= i < k.backend.len() ==> filename_safe_char(#[trigger] k.backend[i]),
    ensures
        forall|i: int|
            0 <= i < spec_to_filename(k).len() ==> filename_safe_char(
                #[trigger] spec_to_filename(k)[i],
            ),
{
    reveal_strlit("__");
    reveal_strlit(".json");
    let e1 = spec_percent_encode(k.instance);
    let e2 = spec_percent_encode(k.pane_id);
    let f = spec_to_filename(k);
    lemma_encode_safe(k.instance);
    lemma_encode_safe(k.pane_id);
    assert(f =~= k.backend + "__"@ + e1 + "__"@ + e2 + ".json"@);
    let b = k.backend.len() as int;
    assert forall|i: int| 0 <= i < f.len() implies filename_safe_char(f[i]) by {
        if i < b {
            assert(f[i] == k.backend[i]);
        } else if i < b + 2 {
            assert(f[i] == "__"@[i - b]);
        } else if i < b + 2 + e1.len() {
            assert(f[i] == e1[i - b - 2]);
        } else if i < b + 4 + e1.len() {
            assert(f[i] == "__"@[i - b - 2 - e1.len()]);
        } else if i < b + 4 + e1.len() + e2.len() {
            assert(f[i] == e2[i - b - 4 - e1.len()]);
        } else {
            assert(f[i] == ".json"@[i - b - 4 - e1.len() - e2.len()]);
        }
    }
}

// ---------------------------------------------------------------------------
// Agent records and global settings
// ---------------------------------------------------------------------------

/// Per-agent state, stored as one JSON file per agent.
pub struct AgentState {
    /// Composite identifier for the pane.
    pub pane_key: PaneKey,
    /// Working directory of the agent.
    pub workdir: String,
    /// Current agent status, when one is set.
    pub status: Option<AgentStatus>,
    /// Unix timestamp when the status was last set.
    pub status_ts: Option<u64>,
    /// Pane title, when one is set.
    pub pane_title: Option<String>,
    /// The pane's shell process id at the last update, for detecting a
    /// recycled pane id.
    pub pane_pid: u32,
    /// The foreground command at the last update, for detecting that the
    /// agent exited.
    pub command: String,
    /// Unix timestamp of the last update.
    pub updated_ts: u64,
}

impl AgentState {
    /// Convert to an `AgentPane` for dashboard display, enriched with the
    /// live session and window names the store does not keep.
    pub fn to_agent_pane(&self, session: String, window_name: String) -> (r: AgentPane)
        ensures
            r.session@ == session@,
            r.window_name@ == window_name@,
            r.pane_id@ == self.pane_key.pane_id@,
            r.path@ == self.workdir@,
            crate::cmd::opt_view(r.pane_title) == crate::cmd::opt_view(self.pane_title),
            r.status == self.status,
            r.status_ts == self.status_ts,
    {
        AgentPane {
            session,
            window_name,
            pane_id: self.pane_key.pane_id.clone(),
            path: self.workdir.clone(),
            pane_title: match &self.pane_title {
                Some(t) => Some(t.clone()),
                None => None,
            },
            status: self.status,
            status_ts: self.status_ts,
        }
    }
}

/// Dashboard preferences stored globally.
pub struct GlobalSettings {
    /// Sort mode label: `priority`, `project`, `recency` or `natural`.
    pub sort_mode: String,
    /// Whether stale agents are hidden in the dashboard.
    pub hide_stale: bool,
    /// Preview pane size as a percentage, when one was chosen.
    pub preview_size: Option<u8>,
    /// The pane id of the last visited agent, for two-agent toggling.
    pub last_pane_id: Option<String>,
}

impl Default for GlobalSettings {
    /// Settings before anything was saved: no sort mode, stale agents shown,
    /// no preview size, no last agent.
    fn default() -> (r: Self)
        ensures
            r.sort_mode@ == Seq::<char>::empty(),
            r.hide_stale == false,
            r.preview_size is None,
            r.last_pane_id is None,
    {
        GlobalSettings {
            sort_mode: String::new(),
            hide_stale: false,
            preview_size: None,
            last_pane_id: None,
        }
    }
}

} // verus!
