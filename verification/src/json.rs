//! JSON codec for the wire bodies.
//!
//! The executable tree [`Json`] keeps numbers as their exact wire text, so
//! no value is rounded or reformatted in transit. Its mathematical model is
//! [`JsonVal`], over character and byte sequences. The writer produces the
//! canonical text of a tree; the parser maps a byte sequence to the tree it
//! spells, or to nothing when it spells none.

use crate::text::{hex_digit_lower, hex_lower, string_push};
use vstd::prelude::*;

verus! {

broadcast use vstd::std_specs::vec::axiom_vec_index_decreases, vstd::std_specs::vec::axiom_vec_decreases_to_view, vstd::seq::axiom_seq_index_decreases;

/// An executable JSON document. `Num` holds the exact number text from or
/// for the wire (for example `-12.50` or `42`).
#[derive(Debug)]
pub enum Json {
    Null,
    Bool(bool),
    Num(String),
    Str(String),
    Arr(Vec<Json>),
    Obj(Vec<(String, Json)>),
}

/// The mathematical model of a JSON document.
pub enum JsonVal {
    Null,
    Bool(bool),
    Num(Seq<char>),
    Str(Seq<char>),
    Arr(Seq<JsonVal>),
    Obj(Seq<(Seq<char>, JsonVal)>),
}

/// The model of an executable document.
pub open spec fn json_view(j: Json) -> JsonVal
    decreases j, 0int,
{
    match j {
        Json::Null => JsonVal::Null,
        Json::Bool(b) => JsonVal::Bool(b),
        Json::Num(s) => JsonVal::Num(s@),
        Json::Str(s) => JsonVal::Str(s@),
        Json::Arr(items) => JsonVal::Arr(jarr_view(items, 0)),
        Json::Obj(ms) => JsonVal::Obj(jobj_view(ms, 0)),
    }
}

/// The models of the items from position `i` on.
pub open spec fn jarr_view(items: Vec<Json>, i: int) -> Seq<JsonVal>
    decreases items, items@.len() - i,
{
    if !(0 <= i < items@.len()) {
        Seq::empty()
    } else {
        seq![json_view(items[i as int])] + jarr_view(items, i + 1)
    }
}

/// The models of the members from position `i` on.
pub open spec fn jobj_view(ms: Vec<(String, Json)>, i: int) -> Seq<(Seq<char>, JsonVal)>
    decreases ms, ms@.len() - i,
{
    if !(0 <= i < ms@.len()) {
        Seq::empty()
    } else {
        seq![(ms[i as int].0@, json_view(ms[i as int].1))] + jobj_view(ms, i + 1)
    }
}

/// Element-wise reading of [`jarr_view`].
pub proof fn lemma_jarr_view(items: Vec<Json>, i: int)
    requires
        0 <= i <= items@.len(),
    ensures
        jarr_view(items, i).len() == items@.len() - i,
        forall|k: int|
            0 <= k < items@.len() - i ==> #[trigger] jarr_view(items, i)[k] == json_view(
                items@[i + k],
            ),
    decreases items@.len() - i,
{
    if i < items@.len() {
        lemma_jarr_view(items, i + 1);
        assert forall|k: int|
            0 <= k < items@.len() - i implies #[trigger] jarr_view(items, i)[k] == json_view(
            items@[i + k],
        ) by {
            if k > 0 {
                assert(jarr_view(items, i)[k] == jarr_view(items, i + 1)[k - 1]);
            }
        }
    }
}

/// Element-wise reading of [`jobj_view`].
pub proof fn lemma_jobj_view(ms: Vec<(String, Json)>, i: int)
    requires
        0 <= i <= ms@.len(),
    ensures
        jobj_view(ms, i).len() == ms@.len() - i,
        forall|k: int|
            0 <= k < ms@.len() - i ==> #[trigger] jobj_view(ms, i)[k] == (ms@[i + k].0@, json_view(
                ms@[i + k].1,
            )),
    decreases ms@.len() - i,
{
    if i < ms@.len() {
        lemma_jobj_view(ms, i + 1);
        assert forall|k: int|
            0 <= k < ms@.len() - i implies #[trigger] jobj_view(ms, i)[k] == (ms@[i + k].0@,
        json_view(ms@[i + k].1)) by {
            if k > 0 {
                assert(jobj_view(ms, i)[k] == jobj_view(ms, i + 1)[k - 1]);
            }
        }
    }
}

impl View for Json {
    type V = JsonVal;

    open spec fn view(&self) -> JsonVal {
        json_view(*self)
    }
}

/// The first value bound to key `k`, if any.
pub open spec fn obj_get(ms: Seq<(Seq<char>, JsonVal)>, k: Seq<char>) -> Option<JsonVal>
    decreases ms.len(),
{
    if ms.len() == 0 {
        None
    } else if ms[0].0 == k {
        Some(ms[0].1)
    } else {
        obj_get(ms.drop_first(), k)
    }
}

/// How one character is written inside a JSON string literal.
pub open spec fn esc_char(c: char) -> Seq<char> {
    if c == '"' {
        seq!['\\', '"']
    } else if c == '\\' {
        seq!['\\', '\\']
    } else if c == '\u{8}' {
        seq!['\\', 'b']
    } else if c == '\t' {
        seq!['\\', 't']
    } else if c == '\n' {
        seq!['\\', 'n']
    } else if c == '\u{c}' {
        seq!['\\', 'f']
    } else if c == '\r' {
        seq!['\\', 'r']
    } else if (c as u32) < 32 {
        seq!['\\', 'u', '0', '0', hex_digit_lower(c as u32 as int / 16), hex_digit_lower(
            c as u32 as int % 16,
        )]
    } else {
        seq![c]
    }
}

/// The escaped writing of the characters of `s` from position `i` on.
pub open spec fn esc_from(s: Seq<char>, i: int) -> Seq<char>
    decreases s.len() - i,
{
    if !(0 <= i < s.len()) {
        Seq::empty()
    } else {
        esc_char(s[i]) + esc_from(s, i + 1)
    }
}

/// A whole string literal: quote, escaped content, quote.
pub open spec fn quoted(s: Seq<char>) -> Seq<char> {
    seq!['"'] + esc_from(s, 0) + seq!['"']
}

/// The canonical text of a document: no whitespace, members and items in
/// their stored order, numbers verbatim.
pub open spec fn json_text(v: JsonVal) -> Seq<char>
    decreases v,
{
    match v {
        JsonVal::Null => "null"@,
        JsonVal::Bool(b) => if b {
            "true"@
        } else {
            "false"@
        },
        JsonVal::Num(s) => s,
        JsonVal::Str(s) => quoted(s),
        JsonVal::Arr(items) => seq!['['] + items_text(items, 0) + seq![']'],
        JsonVal::Obj(ms) => seq!['{'] + members_text(ms, 0) + seq!['}'],
    }
}

/// The comma-separated texts of the items from position `i` on.
pub open spec fn items_text(items: Seq<JsonVal>, i: int) -> Seq<char>
    decreases items, items.len() - i,
{
    if !(0 <= i < items.len()) {
        Seq::empty()
    } else if i == items.len() - 1 {
        json_text(items[i])
    } else {
        json_text(items[i]) + seq![','] + items_text(items, i + 1)
    }
}

/// The comma-separated `"key":value` texts of the members from `i` on.
pub open spec fn members_text(ms: Seq<(Seq<char>, JsonVal)>, i: int) -> Seq<char>
    decreases ms, ms.len() - i,
{
    if !(0 <= i < ms.len()) {
        Seq::empty()
    } else if i == ms.len() - 1 {
        quoted(ms[i].0) + seq![':'] + json_text(ms[i].1)
    } else {
        quoted(ms[i].0) + seq![':'] + json_text(ms[i].1) + seq![','] + members_text(ms, i + 1)
    }
}

/// Appends the escaped writing of `c`.
fn push_escaped(out: &mut String, c: char)
    ensures
        final(out)@ == old(out)@ + esc_char(c),
{
    if c == '"' {
        string_push(out, '\\');
        string_push(out, '"');
    } else if c == '\\' {
        string_push(out, '\\');
        string_push(out, '\\');
    } else if c == '\u{8}' {
        string_push(out, '\\');
        string_push(out, 'b');
    } else if c == '\t' {
        string_push(out, '\\');
        string_push(out, 't');
    } else if c == '\n' {
        string_push(out, '\\');
        string_push(out, 'n');
    } else if c == '\u{c}' {
        string_push(out, '\\');
        string_push(out, 'f');
    } else if c == '\r' {
        string_push(out, '\\');
        string_push(out, 'r');
    } else if (c as u32) < 32 {
        let v = c as u32 as u8;
        string_push(out, '\\');
        string_push(out, 'u');
        string_push(out, '0');
        string_push(out, '0');
        string_push(out, hex_lower(v / 16));
        string_push(out, hex_lower(v % 16));
    } else {
        string_push(out, c);
    }
    proof {
        assert(final(out)@ =~= old(out)@ + esc_char(c));
    }
}

/// Appends the escaped writing of every character of `s`.
fn push_escaped_str(out: &mut String, s: &str)
    ensures
        final(out)@ == old(out)@ + esc_from(s@, 0),
{
    let len = s.unicode_len();
    let mut i: usize = 0;
    while i < len
        invariant
            0 <= i <= len,
            len == s@.len(),
            old(out)@ + esc_from(s@, 0) == out@ + esc_from(s@, i as int),
        decreases len - i,
    {
        let c = s.get_char(i);
        let ghost before = out@;
        push_escaped(out, c);
        proof {
            assert((before + esc_char(c)) + esc_from(s@, i + 1) =~= before + (esc_char(c)
                + esc_from(s@, i + 1)));
        }
        i += 1;
    }
    proof {
        assert(out@ + esc_from(s@, len as int) =~= out@);
    }
}

/// Appends a whole string literal.
fn push_quoted(out: &mut String, s: &str)
    ensures
        final(out)@ == old(out)@ + quoted(s@),
{
    string_push(out, '"');
    push_escaped_str(out, s);
    string_push(out, '"');
    proof {
        assert(final(out)@ =~= old(out)@ + quoted(s@));
    }
}

/// Appends the canonical text of `j`.
fn push_json(out: &mut String, j: &Json)
    ensures
        final(out)@ == old(out)@ + json_text(j@),
    decreases *j,
{
    match j {
        Json::Null => {
            out.append("null");
        },
        Json::Bool(b) => {
            if *b {
                out.append("true");
            } else {
                out.append("false");
            }
        },
        Json::Num(s) => {
            out.append(s.as_str());
        },
        Json::Str(s) => {
            push_quoted(out, s.as_str());
        },
        Json::Arr(items) => {
            string_push(out, '[');
            push_items(out, items, 0);
            string_push(out, ']');
            proof {
                assert(final(out)@ =~= old(out)@ + json_text(j@));
            }
        },
        Json::Obj(ms) => {
            string_push(out, '{');
            push_members(out, ms, 0);
            string_push(out, '}');
            proof {
                assert(final(out)@ =~= old(out)@ + json_text(j@));
            }
        },
    }
}

/// Appends the texts of the items from position `i` on.
fn push_items(out: &mut String, items: &Vec<Json>, i: usize)
    requires
        i <= items@.len(),
    ensures
        final(out)@ == old(out)@ + items_text(jarr_view(*items, 0), i as int),
    decreases *items, items@.len() - i,
{
    let ghost model = jarr_view(*items, 0);
    proof {
        lemma_jarr_view(*items, 0);
    }
    if i < items.len() {
        push_json(out, &items[i]);
        if i + 1 < items.len() {
            string_push(out, ',');
            push_items(out, items, i + 1);
            proof {
                assert(final(out)@ =~= old(out)@ + items_text(model, i as int));
            }
        } else {
            proof {
                assert(final(out)@ =~= old(out)@ + items_text(model, i as int));
            }
        }
    } else {
        proof {
            assert(final(out)@ =~= old(out)@ + items_text(model, i as int));
        }
    }
}

/// Appends the `"key":value` texts of the members from position `i` on.
fn push_members(out: &mut String, ms: &Vec<(String, Json)>, i: usize)
    requires
        i <= ms@.len(),
    ensures
        final(out)@ == old(out)@ + members_text(jobj_view(*ms, 0), i as int),
    decreases *ms, ms@.len() - i,
{
    let ghost model = jobj_view(*ms, 0);
    proof {
        lemma_jobj_view(*ms, 0);
    }
    if i < ms.len() {
        push_quoted(out, ms[i].0.as_str());
        string_push(out, ':');
        push_json(out, &ms[i].1);
        if i + 1 < ms.len() {
            string_push(out, ',');
            push_members(out, ms, i + 1);
            proof {
                assert(final(out)@ =~= old(out)@ + members_text(model, i as int));
            }
        } else {
            proof {
                assert(final(out)@ =~= old(out)@ + members_text(model, i as int));
            }
        }
    } else {
        proof {
            assert(final(out)@ =~= old(out)@ + members_text(model, i as int));
        }
    }
}

/// Writes the canonical text of a document.
pub fn json_write(j: &Json) -> (r: String)
    ensures
        r@ == json_text(j@),
{
    let mut out = String::new();
    push_json(&mut out, j);
    proof {
        assert(out@ =~= json_text(j@));
    }
    out
}

/// Builds a `String` from UTF-8 bytes.
///
/// Relies on `String::from_utf8`, which succeeds exactly when the input is
/// valid UTF-8 and then returns a string of those bytes.
#[verifier::external_body]
fn string_from_utf8(bytes: Vec<u8>) -> (r: Option<String>)
    ensures
        match r {
            Some(st) => vstd::utf8::encode_utf8(st@) == bytes@ && vstd::utf8::valid_utf8(bytes@),
            None => !vstd::utf8::valid_utf8(bytes@),
        },
{
    match String::from_utf8(bytes) {
        Ok(st) => Some(st),
        Err(_) => None,
    }
}

pub open spec fn is_ws_byte(b: u8) -> bool {
    b == 32 || b == 9 || b == 10 || b == 13
}

pub open spec fn is_digit_byte(b: u8) -> bool {
    48 <= b <= 57
}

/// How many whitespace bytes run from position `i`.
pub open spec fn ws_count(s: Seq<u8>, i: int) -> nat
    decreases s.len() - i,
{
    if 0 <= i < s.len() && is_ws_byte(s[i]) {
        (1 + ws_count(s, i + 1)) as nat
    } else {
        0
    }
}

/// How many decimal digit bytes run from position `i`.
pub open spec fn digits_count(s: Seq<u8>, i: int) -> nat
    decreases s.len() - i,
{
    if 0 <= i < s.len() && is_digit_byte(s[i]) {
        (1 + digits_count(s, i + 1)) as nat
    } else {
        0
    }
}

/// How many bytes are left from position `i`.
pub open spec fn rem(s: Seq<u8>, i: int) -> nat {
    if i <= s.len() {
        (s.len() - i) as nat
    } else {
        0
    }
}

/// The byte denoted by a single-character string escape.
pub open spec fn esc_byte(e: u8) -> Option<u8> {
    if e == 0x22 {
        Some(0x22u8)
    } else if e == 0x5c {
        Some(0x5cu8)
    } else if e == 0x2f {
        Some(0x2fu8)
    } else if e == 0x62 {
        Some(8u8)
    } else if e == 0x66 {
        Some(12u8)
    } else if e == 0x6e {
        Some(10u8)
    } else if e == 0x72 {
        Some(13u8)
    } else if e == 0x74 {
        Some(9u8)
    } else {
        None
    }
}

/// The content bytes of a string literal from position `i` (just after the
/// opening quote), and how many input bytes they span including the closing
/// quote. A `\uXXXX` escape denotes its scalar value's UTF-8 bytes; a high
/// surrogate must be followed by a low surrogate escape (the pair denotes
/// one supplementary scalar), and a lone surrogate is rejected.
pub open spec fn str_bytes(s: Seq<u8>, i: int) -> Option<(Seq<u8>, nat)>
    decreases s.len() - i,
{
    if !(0 <= i < s.len()) {
        None
    } else {
        let b = s[i];
        if b == 0x22 {
            Some((Seq::empty(), 1))
        } else if b == 0x5c {
            if !(i + 1 < s.len()) {
                None
            } else {
                let e = s[i + 1];
                if e == 0x75 {
                    if !(i + 5 < s.len()) {
                        None
                    } else {
                        let h1 = crate::text::hex_byte_val(s[i + 2]);
                        let h2 = crate::text::hex_byte_val(s[i + 3]);
                        let h3 = crate::text::hex_byte_val(s[i + 4]);
                        let h4 = crate::text::hex_byte_val(s[i + 5]);
                        if h1 is Some && h2 is Some && h3 is Some && h4 is Some {
                            let v = h1->0 as int * 4096 + h2->0 as int * 256 + h3->0 as int * 16
                                + h4->0 as int;
                            if 0xD800 <= v < 0xDC00 {
                                if !(i + 11 < s.len() && s[i + 6] == 0x5c && s[i + 7] == 0x75) {
                                    None
                                } else {
                                    let g1 = crate::text::hex_byte_val(s[i + 8]);
                                    let g2 = crate::text::hex_byte_val(s[i + 9]);
                                    let g3 = crate::text::hex_byte_val(s[i + 10]);
                                    let g4 = crate::text::hex_byte_val(s[i + 11]);
                                    if g1 is Some && g2 is Some && g3 is Some && g4 is Some {
                                        let w = g1->0 as int * 4096 + g2->0 as int * 256 + g3->0
                                            as int * 16 + g4->0 as int;
                                        if 0xDC00 <= w < 0xE000 {
                                            let scalar = 0x10000 + (v - 0xD800) * 0x400 + (w
                                                - 0xDC00);
                                            match str_bytes(s, i + 12) {
                                                Some((rest, c)) => Some(
                                                    (
                                                        vstd::utf8::encode_scalar(scalar as u32)
                                                            + rest,
                                                        (12 + c) as nat,
                                                    ),
                                                ),
                                                None => None,
                                            }
                                        } else {
                                            None
                                        }
                                    } else {
                                        None
                                    }
                                }
                            } else if 0xDC00 <= v < 0xE000 {
                                None
                            } else {
                                match str_bytes(s, i + 6) {
                                    Some((rest, c)) => Some(
                                        (vstd::utf8::encode_scalar(v as u32) + rest, (6 + c) as nat),
                                    ),
                                    None => None,
                                }
                            }
                        } else {
                            None
                        }
                    }
                } else {
                    match esc_byte(e) {
                        Some(x) => match str_bytes(s, i + 2) {
                            Some((rest, c)) => Some((seq![x] + rest, (2 + c) as nat)),
                            None => None,
                        },
                        None => None,
                    }
                }
            }
        } else if b < 0x20 {
            None
        } else {
            match str_bytes(s, i + 1) {
                Some((rest, c)) => Some((seq![b] + rest, (1 + c) as nat)),
                None => None,
            }
        }
    }
}

/// A whole string literal at position `i`: its character content, and the
/// bytes it spans including both quotes.
pub open spec fn spec_string(s: Seq<u8>, i: int) -> Option<(Seq<char>, nat)> {
    if 0 <= i < s.len() && s[i] == 0x22 {
        match str_bytes(s, i + 1) {
            Some((bs, c)) => if vstd::utf8::valid_utf8(bs) {
                Some((vstd::utf8::decode_utf8(bs), (1 + c) as nat))
            } else {
                None
            },
            None => None,
        }
    } else {
        None
    }
}

/// The characters spelled by the bytes of `s` in `[i, end)`.
pub open spec fn num_chars(s: Seq<u8>, i: int, end: int) -> Seq<char> {
    Seq::new((end - i) as nat, |k: int| s[i + k] as char)
}

/// The optional exponent part at position `p` of a number that started at
/// `i`, and the resulting number text.
pub open spec fn spec_number_exp(s: Seq<u8>, i: int, p: int) -> Option<(Seq<char>, nat)> {
    if p < s.len() && (s[p] == 0x65 || s[p] == 0x45) {
        let q = if p + 1 < s.len() && (s[p + 1] == 0x2b || s[p + 1] == 0x2d) {
            p + 2
        } else {
            p + 1
        };
        let ne = digits_count(s, q);
        if ne == 0 {
            None
        } else {
            Some((num_chars(s, i, q + ne), (q + ne - i) as nat))
        }
    } else {
        Some((num_chars(s, i, p), (p - i) as nat))
    }
}

/// A number token at position `i`: sign, integer part without a superfluous
/// leading zero, optional fraction, optional exponent.
pub open spec fn spec_number(s: Seq<u8>, i: int) -> Option<(Seq<char>, nat)> {
    if !(0 <= i < s.len()) {
        None
    } else {
        let j = if s[i] == 0x2d {
            i + 1
        } else {
            i
        };
        let nd = digits_count(s, j);
        if nd == 0 {
            None
        } else if s[j] == 0x30 && nd > 1 {
            None
        } else {
            let p = j + nd;
            if p < s.len() && s[p] == 0x2e {
                let nf = digits_count(s, p + 1);
                if nf == 0 {
                    None
                } else {
                    spec_number_exp(s, i, p + 1 + nf)
                }
            } else {
                spec_number_exp(s, i, p)
            }
        }
    }
}

/// A value at position `i` (no leading whitespace): its model and the bytes
/// it spans.
pub open spec fn spec_value(s: Seq<u8>, i: int) -> Option<(JsonVal, nat)>
    decreases rem(s, i), 0int,
{
    if !(0 <= i < s.len()) {
        None
    } else {
        let b = s[i];
        if b == 0x7b {
            let w = ws_count(s, i + 1);
            let p = i + 1 + w;
            if p < s.len() && s[p] == 0x7d {
                Some((JsonVal::Obj(Seq::empty()), (w + 2) as nat))
            } else {
                match spec_members(s, p) {
                    Some((ms, c)) => Some((JsonVal::Obj(ms), (1 + w + c) as nat)),
                    None => None,
                }
            }
        } else if b == 0x5b {
            let w = ws_count(s, i + 1);
            let p = i + 1 + w;
            if p < s.len() && s[p] == 0x5d {
                Some((JsonVal::Arr(Seq::empty()), (w + 2) as nat))
            } else {
                match spec_elements(s, p) {
                    Some((vs, c)) => Some((JsonVal::Arr(vs), (1 + w + c) as nat)),
                    None => None,
                }
            }
        } else if b == 0x22 {
            match spec_string(s, i) {
                Some((cs, c)) => Some((JsonVal::Str(cs), c)),
                None => None,
            }
        } else if b == 0x74 {
            if i + 3 < s.len() && s[i + 1] == 0x72 && s[i + 2] == 0x75 && s[i + 3] == 0x65 {
                Some((JsonVal::Bool(true), 4))
            } else {
                None
            }
        } else if b == 0x66 {
            if i + 4 < s.len() && s[i + 1] == 0x61 && s[i + 2] == 0x6c && s[i + 3] == 0x73 && s[i
                + 4] == 0x65 {
                Some((JsonVal::Bool(false), 5))
            } else {
                None
            }
        } else if b == 0x6e {
            if i + 3 < s.len() && s[i + 1] == 0x75 && s[i + 2] == 0x6c && s[i + 3] == 0x6c {
                Some((JsonVal::Null, 4))
            } else {
                None
            }
        } else if b == 0x2d || is_digit_byte(b) {
            match spec_number(s, i) {
                Some((cs, c)) => Some((JsonVal::Num(cs), c)),
                None => None,
            }
        } else {
            None
        }
    }
}

/// Object members from position `i` (at the first key's quote) up to and
/// including the closing brace.
pub open spec fn spec_members(s: Seq<u8>, i: int) -> Option<(Seq<(Seq<char>, JsonVal)>, nat)>
    decreases rem(s, i), 1int,
{
    match spec_string(s, i) {
        None => None,
        Some((k, ck)) => {
            let w1 = ws_count(s, i + ck);
            let p = i + ck + w1;
            if !(p < s.len() && s[p] == 0x3a) {
                None
            } else {
                let w2 = ws_count(s, p + 1);
                match spec_value(s, p + 1 + w2) {
                    None => None,
                    Some((v, cv)) => {
                        let w3 = ws_count(s, p + 1 + w2 + cv);
                        let q = p + 1 + w2 + cv + w3;
                        if q < s.len() && s[q] == 0x2c {
                            let w4 = ws_count(s, q + 1);
                            match spec_members(s, q + 1 + w4) {
                                None => None,
                                Some((ms, cm)) => Some(
                                    (seq![(k, v)] + ms, (q + 1 + w4 + cm - i) as nat),
                                ),
                            }
                        } else if q < s.len() && s[q] == 0x7d {
                            Some((seq![(k, v)], (q + 1 - i) as nat))
                        } else {
                            None
                        }
                    },
                }
            }
        },
    }
}

/// Array elements from position `i` (at the first element) up to and
/// including the closing bracket.
pub open spec fn spec_elements(s: Seq<u8>, i: int) -> Option<(Seq<JsonVal>, nat)>
    decreases rem(s, i), 1int,
{
    match spec_value(s, i) {
        None => None,
        Some((v, cv)) => {
            let w = ws_count(s, i + cv);
            let q = i + cv + w;
            if q < s.len() && s[q] == 0x2c {
                let w2 = ws_count(s, q + 1);
                match spec_elements(s, q + 1 + w2) {
                    None => None,
                    Some((vs, c)) => Some((seq![v] + vs, (q + 1 + w2 + c - i) as nat)),
                }
            } else if q < s.len() && s[q] == 0x5d {
                Some((seq![v], (q + 1 - i) as nat))
            } else {
                None
            }
        },
    }
}

/// A whole document: one value, surrounded by optional whitespace only.
pub open spec fn spec_json(s: Seq<u8>) -> Option<JsonVal> {
    let w = ws_count(s, 0);
    match spec_value(s, w as int) {
        Some((v, c)) => if w + c + ws_count(s, (w + c) as int) == s.len() {
            Some(v)
        } else {
            None
        },
        None => None,
    }
}

/// Advances over whitespace.
fn skip_ws(s: &Vec<u8>, i: usize) -> (r: usize)
    requires
        i <= s@.len(),
    ensures
        r as int == i + ws_count(s@, i as int),
        i <= r <= s@.len(),
{
    let mut j = i;
    while j < s.len()
        invariant
            i <= j <= s@.len(),
            ws_count(s@, i as int) == (j - i) + ws_count(s@, j as int),
        decreases s@.len() - j,
    {
        let b = s[j];
        if !(b == 32 || b == 9 || b == 10 || b == 13) {
            proof {
                assert(ws_count(s@, j as int) == 0);
            }
            return j;
        }
        j += 1;
    }
    proof {
        assert(ws_count(s@, j as int) == 0);
    }
    j
}

/// Advances over decimal digits.
fn skip_digits(s: &Vec<u8>, i: usize) -> (r: usize)
    requires
        i <= s@.len(),
    ensures
        r as int == i + digits_count(s@, i as int),
        i <= r <= s@.len(),
{
    let mut j = i;
    while j < s.len()
        invariant
            i <= j <= s@.len(),
            digits_count(s@, i as int) == (j - i) + digits_count(s@, j as int),
        decreases s@.len() - j,
    {
        let b = s[j];
        if !(48 <= b && b <= 57) {
            proof {
                assert(digits_count(s@, j as int) == 0);
            }
            return j;
        }
        j += 1;
    }
    proof {
        assert(digits_count(s@, j as int) == 0);
    }
    j
}

/// Reads one named escape character.
fn esc_byte_exec(e: u8) -> (r: Option<u8>)
    ensures
        r == esc_byte(e),
{
    if e == 0x22 {
        Some(0x22)
    } else if e == 0x5c {
        Some(0x5c)
    } else if e == 0x2f {
        Some(0x2f)
    } else if e == 0x62 {
        Some(8)
    } else if e == 0x66 {
        Some(12)
    } else if e == 0x6e {
        Some(10)
    } else if e == 0x72 {
        Some(13)
    } else if e == 0x74 {
        Some(9)
    } else {
        None
    }
}

/// One collection step of the string-content scan: consuming `k` input
/// bytes that denote the content bytes `emitted` carries the relation
/// between the literal's start and the current position forward.
proof fn lemma_str_bytes_cons(s: Seq<u8>, start: int, j: int, k: nat, emitted: Seq<u8>, acc0: Seq<u8>)
    requires
        start <= j,
        match str_bytes(s, j) {
            Some((rest, c)) => str_bytes(s, start) == Some(
                (acc0 + rest, (((j - start) as nat + c) as nat)),
            ),
            None => str_bytes(s, start) is None,
        },
        match str_bytes(s, j + k) {
            Some((r2, c2)) => str_bytes(s, j) == Some((emitted + r2, ((k + c2) as nat))),
            None => str_bytes(s, j) is None,
        },
    ensures
        match str_bytes(s, j + k) {
            Some((r2, c2)) => str_bytes(s, start) == Some(
                ((acc0 + emitted) + r2, (((j + k - start) as nat + c2) as nat)),
            ),
            None => str_bytes(s, start) is None,
        },
{
    match str_bytes(s, j + k) {
        Some((r2, c2)) => {
            assert(acc0 + (emitted + r2) =~= (acc0 + emitted) + r2);
        },
        None => {},
    }
}

/// Appends the UTF-8 encoding of one Unicode scalar value.
fn push_scalar_utf8(acc: &mut Vec<u8>, v: u32)
    requires
        vstd::utf8::is_scalar(v),
    ensures
        final(acc)@ == old(acc)@ + vstd::utf8::encode_scalar(v),
{
    if v <= 0x7F {
        acc.push((v & 0x7F) as u8);
    } else if v <= 0x7FF {
        acc.push(0xC0 | ((v >> 6) & 0x1F) as u8);
        acc.push(0x80 | (v & 0x3F) as u8);
    } else if v <= 0xFFFF {
        acc.push(0xE0 | ((v >> 12) & 0x0F) as u8);
        acc.push(0x80 | ((v >> 6) & 0x3F) as u8);
        acc.push(0x80 | (v & 0x3F) as u8);
    } else {
        acc.push(0xF0 | ((v >> 18) & 0x7) as u8);
        acc.push(0x80 | ((v >> 12) & 0x3F) as u8);
        acc.push(0x80 | ((v >> 6) & 0x3F) as u8);
        acc.push(0x80 | (v & 0x3F) as u8);
    }
    proof {
        assert(final(acc)@ =~= old(acc)@ + vstd::utf8::encode_scalar(v));
    }
}

/// Reads one string literal.
fn parse_string(s: &Vec<u8>, i: usize) -> (r: Option<(String, usize)>)
    requires
        i <= s@.len(),
    ensures
        match r {
            Some((st, j)) => spec_string(s@, i as int) == Some((st@, ((j - i) as nat))) && i < j
                <= s@.len(),
            None => spec_string(s@, i as int) is None,
        },
{
    if i >= s.len() {
        return None;
    }
    if s[i] != 0x22 {
        return None;
    }
    let mut acc: Vec<u8> = Vec::new();
    let mut j = i + 1;
    loop
        invariant
            i + 1 <= j <= s@.len(),
            i < s@.len(),
            s@[i as int] == 0x22,
            match str_bytes(s@, j as int) {
                Some((rest, c)) => str_bytes(s@, i + 1) == Some(
                    (acc@ + rest, (((j - i - 1) as nat + c) as nat)),
                ),
                None => str_bytes(s@, i + 1) is None,
            },
        decreases s@.len() - j,
    {
        if j >= s.len() {
            return None;
        }
        let b = s[j];
        if b == 0x22 {
            proof {
                assert(str_bytes(s@, j as int) == Some((Seq::<u8>::empty(), 1nat)));
                assert(acc@ + Seq::<u8>::empty() =~= acc@);
            }
            match string_from_utf8(acc) {
                Some(st) => {
                    proof {
                        vstd::utf8::encode_utf8_decode_utf8(st@);
                    }
                    return Some((st, j + 1));
                },
                None => {
                    return None;
                },
            }
        } else if b == 0x5c {
            if s.len() - j <= 1 {
                return None;
            }
            let e = s[j + 1];
            if e == 0x75 {
                if s.len() - j <= 5 {
                    return None;
                }
                let h1 = crate::text::hex_val(s[j + 2]);
                let h2 = crate::text::hex_val(s[j + 3]);
                let h3 = crate::text::hex_val(s[j + 4]);
                let h4 = crate::text::hex_val(s[j + 5]);
                match (h1, h2, h3, h4) {
                    (Some(d1), Some(d2), Some(d3), Some(d4)) => {
                        let v: u32 = d1 as u32 * 4096 + d2 as u32 * 256 + d3 as u32 * 16
                            + d4 as u32;
                        if 0xD800 <= v && v < 0xDC00 {
                            if s.len() - j <= 11 {
                                return None;
                            }
                            if s[j + 6] != 0x5c || s[j + 7] != 0x75 {
                                return None;
                            }
                            let g1 = crate::text::hex_val(s[j + 8]);
                            let g2 = crate::text::hex_val(s[j + 9]);
                            let g3 = crate::text::hex_val(s[j + 10]);
                            let g4 = crate::text::hex_val(s[j + 11]);
                            match (g1, g2, g3, g4) {
                                (Some(e1), Some(e2), Some(e3), Some(e4)) => {
                                    let w: u32 = e1 as u32 * 4096 + e2 as u32 * 256 + e3 as u32
                                        * 16 + e4 as u32;
                                    if !(0xDC00 <= w && w < 0xE000) {
                                        return None;
                                    }
                                    let scalar: u32 = 0x10000 + (v - 0xD800) * 0x400 + (w
                                        - 0xDC00);
                                    let ghost acc0 = acc@;
                                    proof {
                                        lemma_str_bytes_cons(
                                            s@,
                                            i + 1,
                                            j as int,
                                            12nat,
                                            vstd::utf8::encode_scalar(scalar),
                                            acc0,
                                        );
                                    }
                                    push_scalar_utf8(&mut acc, scalar);
                                    j += 12;
                                },
                                _ => {
                                    return None;
                                },
                            }
                        } else if 0xDC00 <= v && v < 0xE000 {
                            return None;
                        } else {
                            let ghost acc0 = acc@;
                            proof {
                                lemma_str_bytes_cons(
                                    s@,
                                    i + 1,
                                    j as int,
                                    6nat,
                                    vstd::utf8::encode_scalar(v),
                                    acc0,
                                );
                            }
                            push_scalar_utf8(&mut acc, v);
                            j += 6;
                        }
                    },
                    _ => {
                        return None;
                    },
                }
            } else {
                match esc_byte_exec(e) {
                    Some(x) => {
                        let ghost acc0 = acc@;
                        proof {
                            lemma_str_bytes_cons(s@, i + 1, j as int, 2nat, seq![x], acc0);
                            assert(acc0.push(x) =~= acc0 + seq![x]);
                        }
                        acc.push(x);
                        j += 2;
                    },
                    None => {
                        return None;
                    },
                }
            }
        } else if b < 0x20 {
            return None;
        } else {
            let ghost acc0 = acc@;
            proof {
                lemma_str_bytes_cons(s@, i + 1, j as int, 1nat, seq![b], acc0);
                assert(acc0.push(b) =~= acc0 + seq![b]);
            }
            acc.push(b);
            j += 1;
        }
    }
}

/// Reads one number token, keeping its exact text.
fn parse_number(s: &Vec<u8>, i: usize) -> (r: Option<(String, usize)>)
    requires
        i <= s@.len(),
    ensures
        match r {
            Some((st, j)) => spec_number(s@, i as int) == Some((st@, ((j - i) as nat))) && i < j
                <= s@.len(),
            None => spec_number(s@, i as int) is None,
        },
{
    if i >= s.len() {
        return None;
    }
    let j0: usize = if s[i] == 0x2d {
        i + 1
    } else {
        i
    };
    let jd = skip_digits(s, j0);
    if jd == j0 {
        return None;
    }
    if s[j0] == 0x30 && jd - j0 > 1 {
        return None;
    }
    let mut end = jd;
    if jd < s.len() && s[jd] == 0x2e {
        let jf = skip_digits(s, jd + 1);
        if jf == jd + 1 {
            return None;
        }
        end = jf;
    }
    let ghost before_exp = end as int;
    if end < s.len() && (s[end] == 0x65 || s[end] == 0x45) {
        let q0: usize = if end + 1 < s.len() && (s[end + 1] == 0x2b || s[end + 1] == 0x2d) {
            end + 2
        } else {
            end + 1
        };
        let qe = skip_digits(s, q0);
        if qe == q0 {
            return None;
        }
        end = qe;
    }
    let mut t = String::new();
    let mut k = i;
    while k < end
        invariant
            i <= k <= end <= s@.len(),
            t@ == num_chars(s@, i as int, k as int),
        decreases end - k,
    {
        string_push(&mut t, s[k] as char);
        proof {
            assert(t@ =~= num_chars(s@, i as int, k + 1));
        }
        k += 1;
    }
    proof {
        assert(spec_number(s@, i as int) == Some((num_chars(s@, i as int, end as int), ((end
            - i) as nat))));
    }
    Some((t, end))
}

/// Reads one value.
fn parse_value(s: &Vec<u8>, i: usize) -> (r: Option<(Json, usize)>)
    requires
        i <= s@.len(),
    ensures
        match r {
            Some((v, j)) => spec_value(s@, i as int) == Some((v@, ((j - i) as nat))) && i < j
                <= s@.len(),
            None => spec_value(s@, i as int) is None,
        },
    decreases s@.len() - i, 0int,
{
    if i >= s.len() {
        return None;
    }
    let b = s[i];
    if b == 0x7b {
        let p = skip_ws(s, i + 1);
        if p < s.len() && s[p] == 0x7d {
            let v = Json::Obj(Vec::new());
            proof {
                assert(v@ == JsonVal::Obj(Seq::<(Seq<char>, JsonVal)>::empty()));
            }
            return Some((v, p + 1));
        }
        match parse_members(s, p) {
            Some((ms, j)) => Some((Json::Obj(ms), j)),
            None => None,
        }
    } else if b == 0x5b {
        let p = skip_ws(s, i + 1);
        if p < s.len() && s[p] == 0x5d {
            let v = Json::Arr(Vec::new());
            proof {
                assert(v@ == JsonVal::Arr(Seq::<JsonVal>::empty()));
            }
            return Some((v, p + 1));
        }
        match parse_elements(s, p) {
            Some((vs, j)) => Some((Json::Arr(vs), j)),
            None => None,
        }
    } else if b == 0x22 {
        match parse_string(s, i) {
            Some((st, j)) => Some((Json::Str(st), j)),
            None => None,
        }
    } else if b == 0x74 {
        if s.len() - i > 3 && s[i + 1] == 0x72 && s[i + 2] == 0x75 && s[i + 3] == 0x65 {
            Some((Json::Bool(true), i + 4))
        } else {
            None
        }
    } else if b == 0x66 {
        if s.len() - i > 4 && s[i + 1] == 0x61 && s[i + 2] == 0x6c && s[i + 3] == 0x73 && s[i + 4]
            == 0x65 {
            Some((Json::Bool(false), i + 5))
        } else {
            None
        }
    } else if b == 0x6e {
        if s.len() - i > 3 && s[i + 1] == 0x75 && s[i + 2] == 0x6c && s[i + 3] == 0x6c {
            Some((Json::Null, i + 4))
        } else {
            None
        }
    } else if b == 0x2d || (48 <= b && b <= 57) {
        match parse_number(s, i) {
            Some((st, j)) => Some((Json::Num(st), j)),
            None => None,
        }
    } else {
        None
    }
}

/// Reads the members of an object, from the first key to the closing brace.
fn parse_members(s: &Vec<u8>, i: usize) -> (r: Option<(Vec<(String, Json)>, usize)>)
    requires
        i <= s@.len(),
    ensures
        match r {
            Some((ms, j)) => spec_members(s@, i as int) == Some((jobj_view(ms, 0), ((j
                - i) as nat))) && i < j <= s@.len(),
            None => spec_members(s@, i as int) is None,
        },
    decreases s@.len() - i, 1int,
{
    match parse_string(s, i) {
        None => None,
        Some((k, jk)) => {
            let p = skip_ws(s, jk);
            if p >= s.len() {
                return None;
            }
            if s[p] != 0x3a {
                return None;
            }
            let p2 = skip_ws(s, p + 1);
            match parse_value(s, p2) {
                None => None,
                Some((v, jv)) => {
                    let q = skip_ws(s, jv);
                    if q < s.len() && s[q] == 0x2c {
                        let qn = skip_ws(s, q + 1);
                        match parse_members(s, qn) {
                            None => None,
                            Some((rest, j)) => {
                                let ghost kv = (k@, v@);
                                let ghost restvec = rest;
                                let ghost restv = jobj_view(rest, 0);
                                let mut ms: Vec<(String, Json)> = Vec::new();
                                ms.push((k, v));
                                let mut tail = rest;
                                ms.append(&mut tail);
                                proof {
                                    lemma_jobj_view(ms, 0);
                                    lemma_jobj_view(restvec, 0);
                                    assert(ms@.len() == 1 + restvec@.len());
                                    assert forall|m: int| 1 <= m < ms@.len() implies ms@[m]
                                        == restvec@[m - 1] by {}
                                    assert(jobj_view(ms, 0) =~= seq![kv] + restv);
                                }
                                Some((ms, j))
                            },
                        }
                    } else if q < s.len() && s[q] == 0x7d {
                        let ghost kv = (k@, v@);
                        let mut ms: Vec<(String, Json)> = Vec::new();
                        ms.push((k, v));
                        proof {
                            lemma_jobj_view(ms, 0);
                            assert(jobj_view(ms, 0) =~= seq![kv]);
                        }
                        Some((ms, q + 1))
                    } else {
                        None
                    }
                },
            }
        },
    }
}

/// Reads the elements of an array, from the first element to the closing
/// bracket.
fn parse_elements(s: &Vec<u8>, i: usize) -> (r: Option<(Vec<Json>, usize)>)
    requires
        i <= s@.len(),
    ensures
        match r {
            Some((vs, j)) => spec_elements(s@, i as int) == Some((jarr_view(vs, 0), ((j
                - i) as nat))) && i < j <= s@.len(),
            None => spec_elements(s@, i as int) is None,
        },
    decreases s@.len() - i, 1int,
{
    match parse_value(s, i) {
        None => None,
        Some((v, jv)) => {
            let q = skip_ws(s, jv);
            if q < s.len() && s[q] == 0x2c {
                let qn = skip_ws(s, q + 1);
                match parse_elements(s, qn) {
                    None => None,
                    Some((rest, j)) => {
                        let ghost v0 = v@;
                        let ghost restvec = rest;
                        let ghost restv = jarr_view(rest, 0);
                        let mut vs: Vec<Json> = Vec::new();
                        vs.push(v);
                        let mut tail = rest;
                        vs.append(&mut tail);
                        proof {
                            lemma_jarr_view(vs, 0);
                            lemma_jarr_view(restvec, 0);
                            assert(vs@.len() == 1 + restvec@.len());
                            assert forall|m: int| 1 <= m < vs@.len() implies vs@[m] == restvec@[m
                                - 1] by {}
                            assert(jarr_view(vs, 0) =~= seq![v0] + restv);
                        }
                        Some((vs, j))
                    },
                }
            } else if q < s.len() && s[q] == 0x5d {
                let ghost v0 = v@;
                let mut vs: Vec<Json> = Vec::new();
                vs.push(v);
                proof {
                    lemma_jarr_view(vs, 0);
                    assert(jarr_view(vs, 0) =~= seq![v0]);
                }
                Some((vs, q + 1))
            } else {
                None
            }
        },
    }
}

/// The value of field `k` of an object, if `j` is an object carrying it.
pub open spec fn get_field(j: JsonVal, k: Seq<char>) -> Option<JsonVal> {
    match j {
        JsonVal::Obj(ms) => obj_get(ms, k),
        _ => None,
    }
}

/// A string field.
pub open spec fn get_str(j: JsonVal, k: Seq<char>) -> Option<Seq<char>> {
    match get_field(j, k) {
        Some(JsonVal::Str(s)) => Some(s),
        _ => None,
    }
}

/// The value of a number token that spells an unsigned 64-bit integer.
pub open spec fn spec_u64_of_num(t: Seq<char>) -> Option<u64> {
    if t.len() > 0 && crate::text::all_dec_digits(t) && crate::text::dec_val(t) <= u64::MAX {
        Some(crate::text::dec_val(t) as u64)
    } else {
        None
    }
}

/// An unsigned integer field.
pub open spec fn get_u64(j: JsonVal, k: Seq<char>) -> Option<u64> {
    match get_field(j, k) {
        Some(JsonVal::Num(t)) => spec_u64_of_num(t),
        _ => None,
    }
}

/// A boolean field.
pub open spec fn get_bool(j: JsonVal, k: Seq<char>) -> Option<bool> {
    match get_field(j, k) {
        Some(JsonVal::Bool(b)) => Some(b),
        _ => None,
    }
}

/// An array field.
pub open spec fn get_arr(j: JsonVal, k: Seq<char>) -> Option<Seq<JsonVal>> {
    match get_field(j, k) {
        Some(JsonVal::Arr(vs)) => Some(vs),
        _ => None,
    }
}

/// A number field's exact text.
pub open spec fn get_num(j: JsonVal, k: Seq<char>) -> Option<Seq<char>> {
    match get_field(j, k) {
        Some(JsonVal::Num(t)) => Some(t),
        _ => None,
    }
}

/// An optional field: a missing field and an explicit `null` both count as
/// absent.
pub open spec fn get_opt(j: JsonVal, k: Seq<char>) -> Option<JsonVal> {
    match get_field(j, k) {
        None => None,
        Some(JsonVal::Null) => None,
        Some(v) => Some(v),
    }
}

/// Looks a field up in an object.
pub fn jget<'a>(j: &'a Json, k: &str) -> (r: Option<&'a Json>)
    ensures
        match r {
            Some(v) => get_field(j@, k@) == Some(v@),
            None => get_field(j@, k@) is None,
        },
{
    match j {
        Json::Obj(ms) => {
            let ghost model = jobj_view(*ms, 0);
            proof {
                lemma_jobj_view(*ms, 0);
                assert(model.skip(0) =~= model);
            }
            let mut i: usize = 0;
            while i < ms.len()
                invariant
                    0 <= i <= ms@.len(),
                    model == jobj_view(*ms, 0),
                    j@ == JsonVal::Obj(model),
                    model.len() == ms@.len(),
                    forall|m: int|
                        0 <= m < ms@.len() ==> #[trigger] model[m] == (ms@[m].0@, json_view(
                            ms@[m].1,
                        )),
                    obj_get(model, k@) == obj_get(model.skip(i as int), k@),
                decreases ms@.len() - i,
            {
                if crate::query::str_eq(ms[i].0.as_str(), k) {
                    proof {
                        assert(model.skip(i as int)[0] == model[i as int]);
                        assert(obj_get(model.skip(i as int), k@) == Some(json_view(ms@[i as int].1)));
                        assert(j@ == JsonVal::Obj(model));
                        assert(get_field(j@, k@) == obj_get(model, k@));
                    }
                    return Some(&ms[i].1);
                }
                proof {
                    assert(model.skip(i as int)[0] == model[i as int]);
                    assert(model.skip(i as int).drop_first() =~= model.skip(i + 1));
                }
                i += 1;
            }
            proof {
                assert(model.skip(ms@.len() as int) =~= Seq::<(Seq<char>, JsonVal)>::empty());
            }
            None
        },
        Json::Null => None,
        Json::Bool(_) => None,
        Json::Num(_) => None,
        Json::Str(_) => None,
        Json::Arr(_) => None,
    }
}

/// Reads a value as a string.
pub fn jstr<'a>(v: &'a Json) -> (r: Option<&'a String>)
    ensures
        match r {
            Some(s) => v@ == JsonVal::Str(s@),
            None => !(v@ is Str),
        },
{
    match v {
        Json::Str(s) => Some(s),
        Json::Null => None,
        Json::Bool(_) => None,
        Json::Num(_) => None,
        Json::Arr(_) => None,
        Json::Obj(_) => None,
    }
}

/// Reads a value as a number token.
pub fn jnum<'a>(v: &'a Json) -> (r: Option<&'a String>)
    ensures
        match r {
            Some(t) => v@ == JsonVal::Num(t@),
            None => !(v@ is Num),
        },
{
    match v {
        Json::Num(t) => Some(t),
        Json::Null => None,
        Json::Bool(_) => None,
        Json::Str(_) => None,
        Json::Arr(_) => None,
        Json::Obj(_) => None,
    }
}

/// Reads a value as an array.
pub fn jarr<'a>(v: &'a Json) -> (r: Option<&'a Vec<Json>>)
    ensures
        match r {
            Some(items) => v@ == JsonVal::Arr(jarr_view(*items, 0)),
            None => !(v@ is Arr),
        },
{
    match v {
        Json::Arr(items) => Some(items),
        Json::Null => None,
        Json::Bool(_) => None,
        Json::Num(_) => None,
        Json::Str(_) => None,
        Json::Obj(_) => None,
    }
}

/// Reads a string field, copying its content.
pub fn jget_str(j: &Json, k: &str) -> (r: Option<String>)
    ensures
        match r {
            Some(s) => get_str(j@, k@) == Some(s@),
            None => get_str(j@, k@) is None,
        },
{
    match jget(j, k) {
        Some(v) => match jstr(v) {
            Some(s) => Some(s.clone()),
            None => None,
        },
        None => None,
    }
}

/// Reads an unsigned integer field.
pub fn jget_u64(j: &Json, k: &str) -> (r: Option<u64>)
    ensures
        r == get_u64(j@, k@),
{
    match jget(j, k) {
        Some(v) => match jnum(v) {
            Some(t) => crate::text::u64_from_dec(t.as_str()),
            None => None,
        },
        None => None,
    }
}

/// Reads a boolean field.
pub fn jget_bool(j: &Json, k: &str) -> (r: Option<bool>)
    ensures
        r == get_bool(j@, k@),
{
    match jget(j, k) {
        Some(v) => match v {
            Json::Bool(b) => Some(*b),
            Json::Null => None,
            Json::Num(_) => None,
            Json::Str(_) => None,
            Json::Arr(_) => None,
            Json::Obj(_) => None,
        },
        None => None,
    }
}

/// Reads a number field's exact text.
pub fn jget_num(j: &Json, k: &str) -> (r: Option<String>)
    ensures
        match r {
            Some(t) => get_num(j@, k@) == Some(t@),
            None => get_num(j@, k@) is None,
        },
{
    match jget(j, k) {
        Some(v) => match jnum(v) {
            Some(t) => Some(t.clone()),
            None => None,
        },
        None => None,
    }
}

/// Reads an optional field: missing and `null` count as absent.
pub fn jget_opt<'a>(j: &'a Json, k: &str) -> (r: Option<&'a Json>)
    ensures
        match r {
            Some(v) => get_opt(j@, k@) == Some(v@) && !(v@ is Null),
            None => get_opt(j@, k@) is None,
        },
{
    match jget(j, k) {
        Some(v) => match v {
            Json::Null => None,
            Json::Bool(_) => Some(v),
            Json::Num(_) => Some(v),
            Json::Str(_) => Some(v),
            Json::Arr(_) => Some(v),
            Json::Obj(_) => Some(v),
        },
        None => None,
    }
}

/// Parses a whole document: one value surrounded by optional whitespace.
pub fn json_parse(s: &Vec<u8>) -> (r: Option<Json>)
    ensures
        match r {
            Some(v) => spec_json(s@) == Some(v@),
            None => spec_json(s@) is None,
        },
{
    let w = skip_ws(s, 0);
    match parse_value(s, w) {
        None => None,
        Some((v, j)) => {
            let e = skip_ws(s, j);
            if e == s.len() {
                Some(v)
            } else {
                None
            }
        },
    }
}

} // verus!
