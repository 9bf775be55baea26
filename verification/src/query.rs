//! Percent-encoding and query strings.
//!
//! Dynamic path segments and query keys/values are percent-encoded with the
//! WHATWG URL query percent-encode set: the control characters, space, `"`,
//! `<`, `>` and `#`. A [`QueryParameterSet`] is an unordered mapping from
//! parameter name to value; it is kept sorted by key internally, so the
//! encoded string depends only on the mapping, never on insertion order.

use crate::text::{hex_digit_upper, hex_upper, string_push};
use vstd::prelude::*;

verus! {

/// The WHATWG URL query percent-encode set.
pub open spec fn in_query_set(c: char) -> bool {
    (c as u32) < 32 || (c as u32) == 127 || c == ' ' || c == '"' || c == '<' || c == '>' || c
        == '#'
}

/// How one character is written in an encoded key, value or path segment.
pub open spec fn enc_char(c: char) -> Seq<char> {
    if in_query_set(c) {
        seq!['%', hex_digit_upper(c as u32 as int / 16), hex_digit_upper(c as u32 as int % 16)]
    } else {
        seq![c]
    }
}

/// The encoding of the characters of `s` from position `i` on.
pub open spec fn enc_from(s: Seq<char>, i: int) -> Seq<char>
    decreases s.len() - i,
{
    if !(0 <= i < s.len()) {
        Seq::empty()
    } else {
        enc_char(s[i]) + enc_from(s, i + 1)
    }
}

/// The percent-encoding of a whole string.
pub open spec fn encoded(s: Seq<char>) -> Seq<char> {
    enc_from(s, 0)
}

/// Appends the encoding of every character of `s`.
fn push_encoded(out: &mut String, s: &str)
    ensures
        final(out)@ == old(out)@ + enc_from(s@, 0),
{
    let len = s.unicode_len();
    let mut i: usize = 0;
    while i < len
        invariant
            0 <= i <= len,
            len == s@.len(),
            old(out)@ + enc_from(s@, 0) == out@ + enc_from(s@, i as int),
        decreases len - i,
    {
        let c = s.get_char(i);
        let ghost before = out@;
        if (c as u32) < 32 || (c as u32) == 127 || c == ' ' || c == '"' || c == '<' || c == '>'
            || c == '#' {
            let v = c as u32 as u8;
            string_push(out, '%');
            string_push(out, hex_upper(v / 16));
            string_push(out, hex_upper(v % 16));
        } else {
            string_push(out, c);
        }
        proof {
            assert(out@ =~= before + enc_char(c));
            assert((before + enc_char(c)) + enc_from(s@, i + 1) =~= before + (enc_char(c)
                + enc_from(s@, i + 1)));
        }
        i += 1;
    }
    proof {
        assert(out@ + enc_from(s@, len as int) =~= out@);
    }
}

/// Percent-encodes one string, for a dynamic path segment or one side of a
/// query parameter.
pub fn percent_encode(s: &str) -> (r: String)
    ensures
        r@ == encoded(s@),
{
    let mut out = String::new();
    push_encoded(&mut out, s);
    proof {
        assert(out@ =~= encoded(s@));
    }
    out
}

/// No percent sign occurs in `s`, so its encoding can be read back
/// unambiguously.
pub open spec fn percent_free(s: Seq<char>) -> bool {
    forall|i: int| 0 <= i < s.len() ==> #[trigger] s[i] != '%'
}

/// Encoded characters decode unambiguously: a hex digit pins its value.
proof fn lemma_hex_digit_upper_inj(x: int, y: int)
    requires
        0 <= x < 16,
        0 <= y < 16,
        hex_digit_upper(x) == hex_digit_upper(y),
    ensures
        x == y,
{
    assert(hex_digit_upper(x) as u32 == hex_digit_upper(y) as u32) by {
        vstd::utf8::char_u32_cast(hex_digit_upper(x), hex_digit_upper(x) as u32);
        vstd::utf8::char_u32_cast(hex_digit_upper(y), hex_digit_upper(y) as u32);
    }
}

/// Each encoded character is non-empty, and starts with `%` exactly when
/// the source character is in the encode set.
proof fn lemma_enc_char_head(c: char)
    ensures
        enc_char(c).len() >= 1,
        in_query_set(c) ==> enc_char(c).len() == 3 && enc_char(c)[0] == '%',
        !in_query_set(c) ==> enc_char(c) == seq![c],
{
}

/// Percent-encoding is injective on inputs free of `%`: two such strings
/// with the same encoding are the same string. This is the codec's
/// round-trip safety, stated per encoded component.
pub proof fn lemma_percent_encoding_injective(a: Seq<char>, b: Seq<char>)
    requires
        percent_free(a),
        percent_free(b),
        encoded(a) == encoded(b),
    ensures
        a == b,
{
    lemma_enc_inj_from(a, b, 0, 0);
    assert(a =~= a.subrange(0, a.len() as int));
    assert(b =~= b.subrange(0, b.len() as int));
}

/// The inductive core of encoding injectivity, over suffixes.
proof fn lemma_enc_inj_from(a: Seq<char>, b: Seq<char>, i: int, k: int)
    requires
        0 <= i <= a.len(),
        0 <= k <= b.len(),
        percent_free(a),
        percent_free(b),
        enc_from(a, i) == enc_from(b, k),
    ensures
        a.subrange(i, a.len() as int) == b.subrange(k, b.len() as int),
    decreases a.len() - i,
{
    if i == a.len() {
        if k < b.len() {
            lemma_enc_char_head(b[k]);
            assert(enc_from(b, k).len() >= 1);
            assert(false);
        }
        assert(a.subrange(i, a.len() as int) =~= b.subrange(k, b.len() as int));
    } else if k == b.len() {
        lemma_enc_char_head(a[i]);
        assert(enc_from(a, i).len() >= 1);
        assert(false);
    } else {
        let ca = a[i];
        let cb = b[k];
        lemma_enc_char_head(ca);
        lemma_enc_char_head(cb);
        let ta = enc_from(a, i + 1);
        let tb = enc_from(b, k + 1);
        assert(enc_from(a, i) == enc_char(ca) + ta);
        assert(enc_from(b, k) == enc_char(cb) + tb);
        if in_query_set(ca) && in_query_set(cb) {
            assert((enc_char(ca) + ta)[1] == (enc_char(cb) + tb)[1]);
            assert((enc_char(ca) + ta)[2] == (enc_char(cb) + tb)[2]);
            lemma_hex_digit_upper_inj(ca as u32 as int / 16, cb as u32 as int / 16);
            lemma_hex_digit_upper_inj(ca as u32 as int % 16, cb as u32 as int % 16);
            assert(ca as u32 == cb as u32);
            vstd::utf8::char_u32_cast(ca, ca as u32);
            vstd::utf8::char_u32_cast(cb, cb as u32);
            assert(ca == cb);
            assert(ta =~= tb) by {
                assert forall|m: int| 0 <= m < ta.len() implies ta[m] == tb[m] by {
                    assert((enc_char(ca) + ta)[3 + m] == ta[m]);
                    assert((enc_char(cb) + tb)[3 + m] == tb[m]);
                }
            }
        } else if !in_query_set(ca) && !in_query_set(cb) {
            assert((enc_char(ca) + ta)[0] == (enc_char(cb) + tb)[0]);
            assert(ca == cb);
            assert(ta =~= tb) by {
                assert forall|m: int| 0 <= m < ta.len() implies ta[m] == tb[m] by {
                    assert((enc_char(ca) + ta)[1 + m] == ta[m]);
                    assert((enc_char(cb) + tb)[1 + m] == tb[m]);
                }
            }
        } else if in_query_set(ca) {
            assert((enc_char(ca) + ta)[0] == '%');
            assert((enc_char(cb) + tb)[0] == cb);
            assert(false);
        } else {
            assert((enc_char(ca) + ta)[0] == ca);
            assert((enc_char(cb) + tb)[0] == '%');
            assert(false);
        }
        lemma_enc_inj_from(a, b, i + 1, k + 1);
        assert(a.subrange(i, a.len() as int) =~= seq![ca] + a.subrange(i + 1, a.len() as int));
        assert(b.subrange(k, b.len() as int) =~= seq![cb] + b.subrange(k + 1, b.len() as int));
    }
}

/// The string holds none of the characters that structure a query: no
/// percent sign, no pair separator, no key/value separator.
pub open spec fn delimiter_free(s: Seq<char>) -> bool {
    forall|i: int|
        0 <= i < s.len() ==> #[trigger] s[i] != '%' && s[i] != '&' && s[i] != '='
}

/// The encoding of a delimiter-free string holds no `&` and no `=`:
/// literals pass through unchanged and escapes are made of `%` and hex
/// digits only.
proof fn lemma_enc_no_delims(s: Seq<char>, i: int)
    requires
        0 <= i,
        delimiter_free(s),
    ensures
        forall|m: int|
            0 <= m < enc_from(s, i).len() ==> #[trigger] enc_from(s, i)[m] != '&' && enc_from(
                s,
                i,
            )[m] != '=',
    decreases s.len() - i,
{
    if 0 <= i < s.len() {
        lemma_enc_no_delims(s, i + 1);
        assert(enc_from(s, i) == enc_char(s[i]) + enc_from(s, i + 1));
        assert forall|m: int|
            0 <= m < enc_from(s, i).len() implies #[trigger] enc_from(s, i)[m] != '&' && enc_from(
            s,
            i,
        )[m] != '=' by {
            if m < enc_char(s[i]).len() {
                assert(enc_from(s, i)[m] == enc_char(s[i])[m]);
            } else {
                assert(enc_from(s, i)[m] == enc_from(s, i + 1)[m - enc_char(s[i]).len()]);
            }
        }
    }
}

/// Every pair of a sequence is delimiter-free in key and value.
pub open spec fn delimiter_free_pairs(ps: Seq<(Seq<char>, Seq<char>)>) -> bool {
    forall|i: int|
        0 <= i < ps.len() ==> delimiter_free((#[trigger] ps[i]).0) && percent_free(ps[i].0)
            && delimiter_free(ps[i].1) && percent_free(ps[i].1)
}

/// The inductive core of query-string injectivity: equal encoded texts of
/// two delimiter-free pair sequences force the remaining pairs to agree.
proof fn lemma_pairs_text_inj(
    ps1: Seq<(Seq<char>, Seq<char>)>,
    ps2: Seq<(Seq<char>, Seq<char>)>,
    i: int,
    k: int,
)
    requires
        0 <= i <= ps1.len(),
        0 <= k <= ps2.len(),
        delimiter_free_pairs(ps1),
        delimiter_free_pairs(ps2),
        pairs_text(ps1, i) == pairs_text(ps2, k),
    ensures
        ps1.subrange(i, ps1.len() as int) == ps2.subrange(k, ps2.len() as int),
    decreases ps1.len() - i,
{
    if i == ps1.len() {
        if k < ps2.len() {
            assert(pairs_text(ps2, k).len() >= 1);
            assert(false);
        }
        assert(ps1.subrange(i, ps1.len() as int) =~= ps2.subrange(k, ps2.len() as int));
    } else if k == ps2.len() {
        assert(pairs_text(ps1, i).len() >= 1);
        assert(false);
    } else {
        let t = pairs_text(ps1, i);
        let ka = encoded(ps1[i].0);
        let kb = encoded(ps2[k].0);
        let la = ka.len() as int;
        let lb = kb.len() as int;
        lemma_enc_no_delims(ps1[i].0, 0);
        lemma_enc_no_delims(ps2[k].0, 0);
        assert(t[la] == '=');
        assert(t[lb] == '=');
        if la < lb {
            assert(t[la] == kb[la]);
            assert(false);
        }
        if lb < la {
            assert(t[lb] == ka[lb]);
            assert(false);
        }
        assert(ka =~= kb) by {
            assert forall|m: int| 0 <= m < ka.len() implies ka[m] == kb[m] by {
                assert(t[m] == ka[m]);
                assert(t[m] == kb[m]);
            }
        }
        lemma_enc_inj_from(ps1[i].0, ps2[k].0, 0, 0);
        assert(ps1[i].0 =~= ps1[i].0.subrange(0, ps1[i].0.len() as int));
        assert(ps2[k].0 =~= ps2[k].0.subrange(0, ps2[k].0.len() as int));
        assert(ps1[i].0 == ps2[k].0);
        let ea = encoded(ps1[i].1);
        let eb = encoded(ps2[k].1);
        let lea = ea.len() as int;
        let leb = eb.len() as int;
        lemma_enc_no_delims(ps1[i].1, 0);
        lemma_enc_no_delims(ps2[k].1, 0);
        let ra = t.subrange(la + 1, t.len() as int);
        if i == ps1.len() - 1 && k == ps2.len() - 1 {
            assert(ra =~= ea);
            assert(ra =~= eb);
            assert(ea =~= eb);
            lemma_enc_inj_from(ps1[i].1, ps2[k].1, 0, 0);
            assert(ps1[i].1 =~= ps1[i].1.subrange(0, ps1[i].1.len() as int));
            assert(ps2[k].1 =~= ps2[k].1.subrange(0, ps2[k].1.len() as int));
            assert(ps1[i] == ps2[k]);
            assert(ps1.subrange(i, ps1.len() as int) =~= seq![ps1[i]]);
            assert(ps2.subrange(k, ps2.len() as int) =~= seq![ps2[k]]);
            assert(ps1.subrange(i, ps1.len() as int) =~= ps2.subrange(k, ps2.len() as int));
        } else if i == ps1.len() - 1 {
            assert(ra =~= ea);
            assert(ra == eb + seq!['&'] + pairs_text(ps2, k + 1));
            assert(ra[leb] == '&');
            if leb < lea {
                assert(ra[leb] == ea[leb]);
                assert(false);
            }
            assert(ra.len() == lea);
            assert(ra.len() >= leb + 1);
            assert(false);
        } else if k == ps2.len() - 1 {
            assert(ra =~= eb);
            assert(ra == ea + seq!['&'] + pairs_text(ps1, i + 1));
            assert(ra[lea] == '&');
            if lea < leb {
                assert(ra[lea] == eb[lea]);
                assert(false);
            }
            assert(ra.len() == leb);
            assert(ra.len() >= lea + 1);
            assert(false);
        } else {
            assert(ra == ea + seq!['&'] + pairs_text(ps1, i + 1));
            assert(ra == eb + seq!['&'] + pairs_text(ps2, k + 1));
            assert(ra[lea] == '&');
            assert(ra[leb] == '&');
            if lea < leb {
                assert(ra[lea] == eb[lea]);
                assert(false);
            }
            if leb < lea {
                assert(ra[leb] == ea[leb]);
                assert(false);
            }
            assert(ea =~= eb) by {
                assert forall|m: int| 0 <= m < ea.len() implies ea[m] == eb[m] by {
                    assert(ra[m] == ea[m]);
                    assert(ra[m] == eb[m]);
                }
            }
            lemma_enc_inj_from(ps1[i].1, ps2[k].1, 0, 0);
            assert(ps1[i].1 =~= ps1[i].1.subrange(0, ps1[i].1.len() as int));
            assert(ps2[k].1 =~= ps2[k].1.subrange(0, ps2[k].1.len() as int));
            assert(ps1[i] == ps2[k]);
            assert(pairs_text(ps1, i + 1) =~= pairs_text(ps2, k + 1)) by {
                assert forall|m: int|
                    0 <= m < pairs_text(ps1, i + 1).len() implies #[trigger] pairs_text(
                    ps1,
                    i + 1,
                )[m] == pairs_text(ps2, k + 1)[m] by {
                    assert(ra[lea + 1 + m] == pairs_text(ps1, i + 1)[m]);
                    assert(ra[lea + 1 + m] == pairs_text(ps2, k + 1)[m]);
                }
            }
            lemma_pairs_text_inj(ps1, ps2, i + 1, k + 1);
            assert(ps1.subrange(i, ps1.len() as int) =~= seq![ps1[i]] + ps1.subrange(
                i + 1,
                ps1.len() as int,
            ));
            assert(ps2.subrange(k, ps2.len() as int) =~= seq![ps2[k]] + ps2.subrange(
                k + 1,
                ps2.len() as int,
            ));
        }
    }
}

/// Strict lexicographic order on character sequences by code point, read
/// from position `i` on.
pub open spec fn lex_lt_from(a: Seq<char>, b: Seq<char>, i: int) -> bool
    decreases a.len() - i,
{
    if i >= b.len() {
        false
    } else if i >= a.len() {
        true
    } else if (a[i] as u32) < (b[i] as u32) {
        true
    } else if a[i] == b[i] {
        lex_lt_from(a, b, i + 1)
    } else {
        false
    }
}

/// Strict lexicographic order on character sequences by code point.
pub open spec fn lex_lt(a: Seq<char>, b: Seq<char>) -> bool {
    lex_lt_from(a, b, 0)
}

/// The order is asymmetric.
proof fn lemma_lex_asym(a: Seq<char>, b: Seq<char>, i: int)
    requires
        0 <= i,
        lex_lt_from(a, b, i),
    ensures
        !lex_lt_from(b, a, i),
    decreases a.len() - i,
{
    if i < a.len() && i < b.len() && a[i] == b[i] {
        lemma_lex_asym(a, b, i + 1);
    }
}

/// The order is total: unordered sequences have equal suffixes.
proof fn lemma_lex_total(a: Seq<char>, b: Seq<char>, i: int)
    requires
        0 <= i <= a.len(),
        i <= b.len(),
        !lex_lt_from(a, b, i),
        !lex_lt_from(b, a, i),
    ensures
        a.subrange(i, a.len() as int) == b.subrange(i, b.len() as int),
    decreases a.len() - i,
{
    if i < a.len() && i < b.len() && a[i] == b[i] {
        lemma_lex_total(a, b, i + 1);
        assert(a.subrange(i, a.len() as int) =~= seq![a[i]] + a.subrange(i + 1, a.len() as int));
        assert(b.subrange(i, b.len() as int) =~= seq![b[i]] + b.subrange(i + 1, b.len() as int));
    } else {
        if i < a.len() && i < b.len() {
            vstd::utf8::char_u32_cast(a[i], a[i] as u32);
            vstd::utf8::char_u32_cast(b[i], b[i] as u32);
        }
        assert(i == a.len() && i == b.len());
        assert(a.subrange(i, a.len() as int) =~= b.subrange(i, b.len() as int));
    }
}

/// The order is connex: distinct sequences are ordered one way.
proof fn lemma_lex_connex(a: Seq<char>, b: Seq<char>)
    ensures
        lex_lt(a, b) || lex_lt(b, a) || a == b,
{
    if !lex_lt(a, b) && !lex_lt(b, a) {
        lemma_lex_total(a, b, 0);
        assert(a =~= a.subrange(0, a.len() as int));
        assert(b =~= b.subrange(0, b.len() as int));
    }
}

/// The order is transitive.
proof fn lemma_lex_trans(a: Seq<char>, b: Seq<char>, c: Seq<char>, i: int)
    requires
        0 <= i,
        lex_lt_from(a, b, i),
        lex_lt_from(b, c, i),
    ensures
        lex_lt_from(a, c, i),
    decreases b.len() - i,
{
    if i < a.len() && i < b.len() && i < c.len() && a[i] == b[i] && b[i] == c[i] {
        lemma_lex_trans(a, b, c, i + 1);
    }
}

/// Compares two strings in the lexicographic order.
pub fn str_lt(a: &str, b: &str) -> (r: bool)
    ensures
        r == lex_lt(a@, b@),
{
    let la = a.unicode_len();
    let lb = b.unicode_len();
    let mut i: usize = 0;
    loop
        invariant
            0 <= i <= la,
            i <= lb,
            la == a@.len(),
            lb == b@.len(),
            lex_lt(a@, b@) == lex_lt_from(a@, b@, i as int),
        decreases la - i,
    {
        if i >= lb {
            return false;
        }
        if i >= la {
            return true;
        }
        let ca = a.get_char(i);
        let cb = b.get_char(i);
        if (ca as u32) < (cb as u32) {
            return true;
        }
        if ca != cb {
            return false;
        }
        i += 1;
    }
}

/// Tests two strings for equal content.
pub fn str_eq(a: &str, b: &str) -> (r: bool)
    ensures
        r == (a@ == b@),
{
    let la = a.unicode_len();
    let lb = b.unicode_len();
    if la != lb {
        return false;
    }
    let mut i: usize = 0;
    while i < la
        invariant
            0 <= i <= la,
            la == a@.len(),
            la == b@.len(),
            forall|m: int| 0 <= m < i ==> a@[m] == b@[m],
        decreases la - i,
    {
        if a.get_char(i) != b.get_char(i) {
            return false;
        }
        i += 1;
    }
    proof {
        assert(a@ =~= b@);
    }
    true
}

/// An unordered mapping from query parameter name to value, kept sorted by
/// key so that encoding is a function of the mapping alone.
#[derive(Debug)]
pub struct QueryParameterSet {
    pairs: Vec<(String, String)>,
}

impl QueryParameterSet {
    /// The stored pairs, as character sequences.
    pub closed spec fn pairs_seq(&self) -> Seq<(Seq<char>, Seq<char>)> {
        Seq::new(self.pairs@.len(), |i: int| (self.pairs@[i].0@, self.pairs@[i].1@))
    }

    /// Keys strictly ascend.
    pub open spec fn wf(&self) -> bool {
        sorted_strict(self.pairs_seq())
    }

    pub fn new() -> (r: QueryParameterSet)
        ensures
            r.wf(),
            r@ == Map::<Seq<char>, Seq<char>>::empty(),
            r.pairs_seq().len() == 0,
    {
        let r = QueryParameterSet { pairs: Vec::new() };
        proof {
            assert(r.pairs_seq() =~= Seq::<(Seq<char>, Seq<char>)>::empty());
            assert(r@ =~= Map::<Seq<char>, Seq<char>>::empty());
        }
        r
    }

    pub fn is_empty(&self) -> (r: bool)
        ensures
            r == (self.pairs_seq().len() == 0),
            r == (self@ == Map::<Seq<char>, Seq<char>>::empty()),
    {
        let e = self.pairs.len() == 0;
        proof {
            if e {
                assert(self@ =~= Map::<Seq<char>, Seq<char>>::empty());
            } else {
                assert(has_key(self.pairs_seq(), self.pairs_seq()[0].0));
                assert(self@.dom().contains(self.pairs_seq()[0].0));
            }
        }
        e
    }

    /// Binds `key` to `value`, replacing any earlier binding of the key.
    pub fn insert(&mut self, key: String, value: String)
        requires
            old(self).wf(),
        ensures
            final(self).wf(),
            final(self)@ == old(self)@.insert(key@, value@),
            final(self).pairs_seq().len() >= 1,
    {
        let ghost ps0 = self.pairs_seq();
        let mut idx: usize = 0;
        loop
            invariant
                0 <= idx <= self.pairs@.len(),
                self.pairs_seq() == ps0,
                sorted_strict(ps0),
                forall|m: int| 0 <= m < idx ==> lex_lt(#[trigger] ps0[m].0, key@),
            ensures
                0 <= idx <= self.pairs@.len(),
                self.pairs_seq() == ps0,
                forall|m: int| 0 <= m < idx ==> lex_lt(#[trigger] ps0[m].0, key@),
                idx == ps0.len() || !lex_lt(ps0[idx as int].0, key@),
            decreases self.pairs@.len() - idx,
        {
            if idx >= self.pairs.len() {
                break ;
            }
            if !str_lt(self.pairs[idx].0.as_str(), key.as_str()) {
                break ;
            }
            idx += 1;
        }
        let at_existing: bool = if idx < self.pairs.len() {
            str_eq(self.pairs[idx].0.as_str(), key.as_str())
        } else {
            false
        };
        if at_existing {
            self.pairs.remove(idx);
            self.pairs.insert(idx, (key, value));
            proof {
                assert forall|m: int, n: int|
                    0 <= m < n < self.pairs_seq().len() implies lex_lt(
                    #[trigger] self.pairs_seq()[m].0,
                    #[trigger] self.pairs_seq()[n].0,
                ) by {
                    assert(self.pairs_seq()[m].0 == ps0[m].0);
                    assert(self.pairs_seq()[n].0 == ps0[n].0);
                }
                lemma_map_of_replace(ps0, self.pairs_seq(), idx as int, key@, value@);
            }
        } else {
            proof {
                if idx < ps0.len() {
                    lemma_lex_connex(ps0[idx as int].0, key@);
                    assert(lex_lt(key@, ps0[idx as int].0));
                }
                lemma_sorted_key_unique(ps0);
                if has_key(ps0, key@) {
                    let w = key_index(ps0, key@);
                    if w < idx {
                        lemma_lex_asym(ps0[w].0, key@, 0);
                    } else if idx < ps0.len() && w > idx {
                        assert(lex_lt(ps0[idx as int].0, ps0[w].0));
                        lemma_lex_trans(key@, ps0[idx as int].0, ps0[w].0, 0);
                        lemma_lex_asym(key@, ps0[w].0, 0);
                        assert(false);
                    }
                    assert(false);
                }
            }
            self.pairs.insert(idx, (key, value));
            proof {
                let ps1 = self.pairs_seq();
                assert forall|m: int, n: int|
                    0 <= m < n < ps1.len() implies lex_lt(
                    #[trigger] ps1[m].0,
                    #[trigger] ps1[n].0,
                ) by {
                    if n < idx {
                        assert(ps1[m].0 == ps0[m].0 && ps1[n].0 == ps0[n].0);
                    } else if m < idx && n == idx {
                        assert(ps1[m].0 == ps0[m].0);
                    } else if m < idx && n > idx {
                        assert(ps1[m].0 == ps0[m].0 && ps1[n].0 == ps0[n - 1].0);
                    } else if m == idx {
                        assert(ps1[n].0 == ps0[n - 1].0);
                        assert(lex_lt(key@, ps0[idx as int].0));
                        if n - 1 > idx {
                            assert(lex_lt(ps0[idx as int].0, ps0[n - 1].0));
                            lemma_lex_trans(key@, ps0[idx as int].0, ps0[n - 1].0, 0);
                        }
                    } else {
                        assert(ps1[m].0 == ps0[m - 1].0 && ps1[n].0 == ps0[n - 1].0);
                    }
                }
                lemma_map_of_insert(ps0, self.pairs_seq(), idx as int, key@, value@);
            }
        }
    }

    /// The encoded query string, `key=value` pairs joined by `&`, keys in
    /// their stored order.
    pub closed spec fn encoded_spec(&self) -> Seq<char> {
        pairs_text(self.pairs_seq(), 0)
    }

    /// Encodes the set. The result depends only on the mapping `self@`.
    pub fn encode(&self) -> (r: String)
        ensures
            r@ == self.encoded_spec(),
    {
        let mut out = String::new();
        let mut i: usize = 0;
        while i < self.pairs.len()
            invariant
                0 <= i <= self.pairs@.len(),
                pairs_text(self.pairs_seq(), 0) == out@ + pairs_text(
                    self.pairs_seq(),
                    i as int,
                ),
            decreases self.pairs@.len() - i,
        {
            let ghost before = out@;
            push_encoded(&mut out, self.pairs[i].0.as_str());
            string_push(&mut out, '=');
            push_encoded(&mut out, self.pairs[i].1.as_str());
            if i + 1 < self.pairs.len() {
                string_push(&mut out, '&');
            }
            proof {
                let ps = self.pairs_seq();
                if i + 1 < ps.len() {
                    assert(out@ =~= before + (encoded(ps[i as int].0) + seq!['='] + encoded(
                        ps[i as int].1,
                    ) + seq!['&']));
                    assert(before + (encoded(ps[i as int].0) + seq!['='] + encoded(ps[i as int].1)
                        + seq!['&']) + pairs_text(ps, i + 1) =~= before + pairs_text(ps, i as int));
                } else {
                    assert(out@ + pairs_text(ps, i + 1) =~= before + pairs_text(ps, i as int));
                }
            }
            i += 1;
        }
        proof {
            assert(out@ + pairs_text(self.pairs_seq(), self.pairs@.len() as int) =~= out@);
        }
        out
    }
}

impl View for QueryParameterSet {
    type V = Map<Seq<char>, Seq<char>>;

    closed spec fn view(&self) -> Map<Seq<char>, Seq<char>> {
        map_of_pairs(self.pairs_seq())
    }
}

/// Keys strictly ascend in the lexicographic order, so each key occurs once.
pub open spec fn sorted_strict(ps: Seq<(Seq<char>, Seq<char>)>) -> bool {
    forall|m: int, n: int| 0 <= m < n < ps.len() ==> lex_lt(#[trigger] ps[m].0, #[trigger] ps[n].0)
}

/// Some pair of `ps` carries key `k`.
pub open spec fn has_key(ps: Seq<(Seq<char>, Seq<char>)>, k: Seq<char>) -> bool {
    exists|i: int| 0 <= i < ps.len() && (#[trigger] ps[i]).0 == k
}

/// The position of key `k` in `ps`.
pub open spec fn key_index(ps: Seq<(Seq<char>, Seq<char>)>, k: Seq<char>) -> int {
    choose|i: int| 0 <= i < ps.len() && (#[trigger] ps[i]).0 == k
}

/// The mapping spelled by a pair sequence.
pub open spec fn map_of_pairs(ps: Seq<(Seq<char>, Seq<char>)>) -> Map<Seq<char>, Seq<char>> {
    Map::new(|k: Seq<char>| has_key(ps, k), |k: Seq<char>| ps[key_index(ps, k)].1)
}

/// The encoded text of the pairs from position `i` on.
pub open spec fn pairs_text(ps: Seq<(Seq<char>, Seq<char>)>, i: int) -> Seq<char>
    decreases ps.len() - i,
{
    if !(0 <= i < ps.len()) {
        Seq::empty()
    } else if i == ps.len() - 1 {
        encoded(ps[i].0) + seq!['='] + encoded(ps[i].1)
    } else {
        encoded(ps[i].0) + seq!['='] + encoded(ps[i].1) + seq!['&'] + pairs_text(ps, i + 1)
    }
}

/// Replacing the pair at the position of `k` updates the mapping at `k`.
proof fn lemma_map_of_replace(
    ps0: Seq<(Seq<char>, Seq<char>)>,
    ps1: Seq<(Seq<char>, Seq<char>)>,
    idx: int,
    k: Seq<char>,
    v: Seq<char>,
)
    requires
        sorted_strict(ps0),
        sorted_strict(ps1),
        0 <= idx < ps0.len(),
        ps1.len() == ps0.len(),
        ps0[idx].0 == k,
        ps1[idx] == (k, v),
        forall|m: int| 0 <= m < ps0.len() && m != idx ==> #[trigger] ps1[m] == ps0[m],
    ensures
        map_of_pairs(ps1) == map_of_pairs(ps0).insert(k, v),
{
    lemma_sorted_key_unique(ps0);
    lemma_sorted_key_unique(ps1);
    assert forall|q: Seq<char>| true implies #[trigger] map_of_pairs(ps1).dom().contains(q)
        == map_of_pairs(ps0).insert(k, v).dom().contains(q) by {
        if has_key(ps1, q) {
            let i = key_index(ps1, q);
            if i == idx {
            } else {
                assert(ps0[i].0 == q);
            }
        }
        if q != k && has_key(ps0, q) {
            let i = key_index(ps0, q);
            assert(i != idx);
            assert(ps1[i].0 == q);
        }
        if q == k {
            assert(ps1[idx].0 == q);
        }
    }
    assert forall|q: Seq<char>| map_of_pairs(ps1).dom().contains(q) implies map_of_pairs(ps1)[q]
        == map_of_pairs(ps0).insert(k, v)[q] by {
        let i = key_index(ps1, q);
        assert(0 <= i < ps1.len() && ps1[i].0 == q);
        if q == k {
            assert(i == idx);
        } else {
            assert(i != idx);
            assert(ps0[i].0 == q);
            let i0 = key_index(ps0, q);
            assert(i0 == i);
        }
    }
    assert(map_of_pairs(ps1) =~= map_of_pairs(ps0).insert(k, v));
}

/// Inserting a fresh key at its position adds one binding to the mapping.
proof fn lemma_map_of_insert(
    ps0: Seq<(Seq<char>, Seq<char>)>,
    ps1: Seq<(Seq<char>, Seq<char>)>,
    idx: int,
    k: Seq<char>,
    v: Seq<char>,
)
    requires
        sorted_strict(ps0),
        sorted_strict(ps1),
        0 <= idx <= ps0.len(),
        ps1.len() == ps0.len() + 1,
        ps1[idx] == (k, v),
        forall|m: int| 0 <= m < idx ==> #[trigger] ps1[m] == ps0[m],
        forall|m: int| idx < m < ps1.len() ==> #[trigger] ps1[m] == ps0[m - 1],
        !has_key(ps0, k),
    ensures
        map_of_pairs(ps1) == map_of_pairs(ps0).insert(k, v),
{
    lemma_sorted_key_unique(ps0);
    lemma_sorted_key_unique(ps1);
    assert forall|q: Seq<char>| true implies #[trigger] map_of_pairs(ps1).dom().contains(q)
        == map_of_pairs(ps0).insert(k, v).dom().contains(q) by {
        if has_key(ps1, q) {
            let i = key_index(ps1, q);
            if i == idx {
            } else if i < idx {
                assert(ps0[i].0 == q);
            } else {
                assert(ps0[i - 1].0 == q);
            }
        }
        if q != k && has_key(ps0, q) {
            let i = key_index(ps0, q);
            if i < idx {
                assert(ps1[i].0 == q);
            } else {
                assert(ps1[i + 1].0 == q);
            }
        }
        if q == k {
            assert(ps1[idx].0 == q);
        }
    }
    assert forall|q: Seq<char>| map_of_pairs(ps1).dom().contains(q) implies map_of_pairs(ps1)[q]
        == map_of_pairs(ps0).insert(k, v)[q] by {
        let i = key_index(ps1, q);
        assert(0 <= i < ps1.len() && ps1[i].0 == q);
        if q == k {
            assert(i == idx);
        } else {
            assert(i != idx);
            if i < idx {
                assert(ps0[i].0 == q);
                assert(key_index(ps0, q) == i);
            } else {
                assert(ps0[i - 1].0 == q);
                assert(key_index(ps0, q) == i - 1);
            }
        }
    }
    assert(map_of_pairs(ps1) =~= map_of_pairs(ps0).insert(k, v));
}

/// In a strictly sorted sequence each key determines its position.
proof fn lemma_sorted_key_unique(ps: Seq<(Seq<char>, Seq<char>)>)
    requires
        sorted_strict(ps),
    ensures
        forall|i: int, j: int|
            0 <= i < ps.len() && 0 <= j < ps.len() && (#[trigger] ps[i]).0 == (#[trigger] ps[j]).0
                ==> i == j,
        forall|q: Seq<char>|
            has_key(ps, q) ==> 0 <= #[trigger] key_index(ps, q) < ps.len() && ps[key_index(
                ps,
                q,
            )].0 == q,
{
    assert forall|i: int, j: int|
        0 <= i < ps.len() && 0 <= j < ps.len() && (#[trigger] ps[i]).0 == (#[trigger] ps[j]).0
            implies i == j by {
        if i < j {
            assert(lex_lt(ps[i].0, ps[j].0));
            lemma_lex_asym(ps[i].0, ps[j].0, 0);
        }
        if j < i {
            assert(lex_lt(ps[j].0, ps[i].0));
            lemma_lex_asym(ps[j].0, ps[i].0, 0);
        }
    }
}

/// Two strictly sorted pair sequences spelling the same mapping are equal.
proof fn lemma_sorted_canonical(ps1: Seq<(Seq<char>, Seq<char>)>, ps2: Seq<(Seq<char>, Seq<char>)>)
    requires
        sorted_strict(ps1),
        sorted_strict(ps2),
        map_of_pairs(ps1) == map_of_pairs(ps2),
    ensures
        ps1 == ps2,
    decreases ps1.len(),
{
    lemma_sorted_key_unique(ps1);
    lemma_sorted_key_unique(ps2);
    if ps1.len() == 0 {
        if ps2.len() > 0 {
            assert(has_key(ps2, ps2[0].0));
            assert(map_of_pairs(ps2).dom().contains(ps2[0].0));
            assert(map_of_pairs(ps1).dom().contains(ps2[0].0));
            assert(false);
        }
        assert(ps1 =~= ps2);
    } else if ps2.len() == 0 {
        assert(has_key(ps1, ps1[0].0));
        assert(map_of_pairs(ps1).dom().contains(ps1[0].0));
        assert(map_of_pairs(ps2).dom().contains(ps1[0].0));
        assert(false);
    } else {
        let k1 = ps1[0].0;
        let k2 = ps2[0].0;
        assert(has_key(ps1, k1));
        assert(map_of_pairs(ps2).dom().contains(k1));
        let j1 = key_index(ps2, k1);
        assert(has_key(ps2, k2));
        assert(map_of_pairs(ps1).dom().contains(k2));
        let i2 = key_index(ps1, k2);
        if j1 > 0 && i2 > 0 {
            assert(lex_lt(k2, ps2[j1].0));
            assert(lex_lt(k1, ps1[i2].0));
            lemma_lex_asym(k1, k2, 0);
            assert(false);
        }
        assert(k1 == k2);
        assert(map_of_pairs(ps1)[k1] == ps1[0].1);
        assert(map_of_pairs(ps2)[k1] == ps2[0].1);
        assert(ps1[0] == ps2[0]);
        let t1 = ps1.drop_first();
        let t2 = ps2.drop_first();
        assert forall|m: int, n: int|
            0 <= m < n < t1.len() implies lex_lt(#[trigger] t1[m].0, #[trigger] t1[n].0) by {
            assert(t1[m] == ps1[m + 1] && t1[n] == ps1[n + 1]);
        }
        assert forall|m: int, n: int|
            0 <= m < n < t2.len() implies lex_lt(#[trigger] t2[m].0, #[trigger] t2[n].0) by {
            assert(t2[m] == ps2[m + 1] && t2[n] == ps2[n + 1]);
        }
        lemma_sorted_key_unique(t1);
        lemma_sorted_key_unique(t2);
        assert forall|q: Seq<char>| true implies #[trigger] map_of_pairs(t1).dom().contains(q)
            == map_of_pairs(t2).dom().contains(q) by {
            if has_key(t1, q) {
                let i = key_index(t1, q);
                assert(ps1[i + 1].0 == q);
                assert(has_key(ps1, q));
                assert(q != k1);
                assert(map_of_pairs(ps2).dom().contains(q));
                let j = key_index(ps2, q);
                assert(j > 0);
                assert(t2[j - 1].0 == q);
                assert(has_key(t2, q));
            }
            if has_key(t2, q) {
                let i = key_index(t2, q);
                assert(ps2[i + 1].0 == q);
                assert(has_key(ps2, q));
                assert(q != k1);
                assert(map_of_pairs(ps1).dom().contains(q));
                let j = key_index(ps1, q);
                assert(j > 0);
                assert(t1[j - 1].0 == q);
                assert(has_key(t1, q));
            }
        }
        assert forall|q: Seq<char>| map_of_pairs(t1).dom().contains(q) implies map_of_pairs(t1)[q]
            == map_of_pairs(t2)[q] by {
            let i = key_index(t1, q);
            assert(ps1[i + 1].0 == q);
            assert(key_index(ps1, q) == i + 1);
            let j = key_index(t2, q);
            assert(ps2[j + 1].0 == q);
            assert(key_index(ps2, q) == j + 1);
            assert(map_of_pairs(ps1)[q] == map_of_pairs(ps2)[q]);
        }
        assert(map_of_pairs(t1) =~= map_of_pairs(t2));
        lemma_sorted_canonical(t1, t2);
        assert(ps1 =~= seq![ps1[0]] + t1);
        assert(ps2 =~= seq![ps2[0]] + t2);
        assert(ps1 =~= ps2);
    }
}

/// Encoding a query parameter set depends only on the mapping it holds:
/// two well-formed sets with the same key/value pairs, in whatever order
/// they were inserted, encode to the same query string.
pub proof fn lemma_query_encoding_order_independent(q1: &QueryParameterSet, q2: &QueryParameterSet)
    requires
        q1.wf(),
        q2.wf(),
        q1@ == q2@,
    ensures
        q1.encoded_spec() == q2.encoded_spec(),
{
    lemma_sorted_canonical(q1.pairs_seq(), q2.pairs_seq());
}

impl QueryParameterSet {
    /// Keys and values hold none of `%`, `&` and `=`.
    pub open spec fn delimiter_free(&self) -> bool {
        delimiter_free_pairs(self.pairs_seq())
    }
}

/// Round-trip safety of the encoding: no two different well-formed,
/// delimiter-free parameter sets encode to the same query string.
pub proof fn lemma_query_encoding_injective(q1: &QueryParameterSet, q2: &QueryParameterSet)
    requires
        q1.wf(),
        q2.wf(),
        q1.delimiter_free(),
        q2.delimiter_free(),
        q1.encoded_spec() == q2.encoded_spec(),
    ensures
        q1@ == q2@,
{
    lemma_pairs_text_inj(q1.pairs_seq(), q2.pairs_seq(), 0, 0);
    assert(q1.pairs_seq() =~= q1.pairs_seq().subrange(0, q1.pairs_seq().len() as int));
    assert(q2.pairs_seq() =~= q2.pairs_seq().subrange(0, q2.pairs_seq().len() as int));
}

} // verus!
