//! A small JSON codec: a value model, a canonical encoder and a tolerant
//! parser, with a proof that parsing a canonical encoding gives the value
//! back. The proxy uses it for hub status bodies, WebDriver new-session
//! bodies and the persisted configuration file.
//!
//! Numbers that are plain unsigned 64-bit integers become values; any
//! other well-formed number token (a negative, a fraction, an exponent, an
//! oversized integer) is kept as its text, so documents carrying such
//! numbers in ignored members still parse. `\u` escapes cover the whole
//! scalar range, surrogate pairs included.

use vstd::prelude::*;

use crate::strutil::{
    digit_val, is_digit, is_digit_exec, is_hex, is_hex_exec, hex_char, hex_val, spec_dec,
    dec_value, push_char, str_chars, append_dec, lemma_spec_dec_digits,
    lemma_dec_value_of_spec_dec, char_from_u32,
};

verus! {

broadcast use vstd::std_specs::vec::group_vec_axioms;

/// The mathematical model of a JSON document. A numeric token that is not
/// a plain unsigned 64-bit integer (a negative, a fraction, an exponent, or
/// an oversized integer) is kept as its text.
pub ghost enum JsonV {
    Null,
    Bool(bool),
    Num(u64),
    NumText(Seq<char>),
    Str(Seq<char>),
    Arr(Seq<JsonV>),
    Obj(Seq<(Seq<char>, JsonV)>),
}

/// An in-memory JSON document. Object member order is kept; a numeric
/// token that is not a plain unsigned 64-bit integer is kept as its text.
pub enum Json {
    Null,
    Bool(bool),
    Num(u64),
    NumText(String),
    Str(String),
    Arr(Vec<Json>),
    Obj(Vec<(String, Json)>),
}

/// The model of an in-memory JSON value.
pub open spec fn jv(j: Json) -> JsonV
    decreases j,
{
    match j {
        Json::Null => JsonV::Null,
        Json::Bool(b) => JsonV::Bool(b),
        Json::Num(n) => JsonV::Num(n),
        Json::NumText(s) => JsonV::NumText(s@),
        Json::Str(s) => JsonV::Str(s@),
        Json::Arr(es) => JsonV::Arr(
            Seq::new(es.len() as nat, |i: int| if 0 <= i < es.len() { jv(es[i]) } else { JsonV::Null }),
        ),
        Json::Obj(ms) => JsonV::Obj(
            Seq::new(
                ms.len() as nat,
                |i: int| if 0 <= i < ms.len() {
                    (ms[i].0@, jv(ms[i].1))
                } else {
                    (Seq::empty(), JsonV::Null)
                },
            ),
        ),
    }
}

impl View for Json {
    type V = JsonV;

    open spec fn view(&self) -> JsonV {
        jv(*self)
    }
}

/// The canonical escape of one character inside a JSON string literal.
pub open spec fn spec_escape_char(c: char) -> Seq<char> {
    if c == '"' {
        seq!['\\', '"']
    } else if c == '\\' {
        seq!['\\', '\\']
    } else if c == '\n' {
        seq!['\\', 'n']
    } else if c == '\r' {
        seq!['\\', 'r']
    } else if c == '\t' {
        seq!['\\', 't']
    } else if (c as u32) < 32 {
        seq!['\\', 'u', '0', '0', hex_char(((c as u32) / 16) as int), hex_char(
            ((c as u32) % 16) as int,
        )]
    } else {
        seq![c]
    }
}

/// The canonical escape of a whole string body.
pub open spec fn spec_escape(s: Seq<char>) -> Seq<char>
    decreases s.len(),
{
    if s.len() == 0 {
        Seq::empty()
    } else {
        spec_escape_char(s[0]) + spec_escape(s.drop_first())
    }
}

/// The canonical (whitespace-free) encoding of a JSON value.
pub open spec fn spec_encode(v: JsonV) -> Seq<char>
    decreases v,
{
    match v {
        JsonV::Null => seq!['n', 'u', 'l', 'l'],
        JsonV::Bool(b) => if b {
            seq!['t', 'r', 'u', 'e']
        } else {
            seq!['f', 'a', 'l', 's', 'e']
        },
        JsonV::Num(n) => spec_dec(n as nat),
        JsonV::NumText(s) => s,
        JsonV::Str(s) => seq!['"'] + spec_escape(s) + seq!['"'],
        JsonV::Arr(es) => seq!['['] + spec_encode_elems(es) + seq![']'],
        JsonV::Obj(ms) => seq!['{'] + spec_encode_members(ms) + seq!['}'],
    }
}

/// Comma-separated canonical encodings of array elements.
pub open spec fn spec_encode_elems(es: Seq<JsonV>) -> Seq<char>
    decreases es,
{
    if es.len() == 0 {
        Seq::empty()
    } else if es.len() == 1 {
        spec_encode(es[0])
    } else {
        spec_encode(es[0]) + seq![','] + spec_encode_elems(es.drop_first())
    }
}

/// Comma-separated canonical encodings of object members.
pub open spec fn spec_encode_members(ms: Seq<(Seq<char>, JsonV)>) -> Seq<char>
    decreases ms,
{
    if ms.len() == 0 {
        Seq::empty()
    } else {
        let m = seq!['"'] + spec_escape(ms[0].0) + seq!['"', ':'] + spec_encode(ms[0].1);
        if ms.len() == 1 {
            m
        } else {
            m + seq![','] + spec_encode_members(ms.drop_first())
        }
    }
}

/// Appending an element on the right extends the element list encoding on
/// the right.
pub proof fn lemma_encode_elems_push(es: Seq<JsonV>, x: JsonV)
    ensures
        spec_encode_elems(es.push(x)) == if es.len() == 0 {
            spec_encode(x)
        } else {
            spec_encode_elems(es) + seq![','] + spec_encode(x)
        },
    decreases es.len(),
{
    if es.len() == 0 {
        assert(es.push(x)[0] == x);
        assert(es.push(x).len() == 1);
    } else {
        lemma_encode_elems_push(es.drop_first(), x);
        assert(es.push(x).drop_first() =~= es.drop_first().push(x));
        assert(es.push(x)[0] == es[0]);
        if es.len() == 1 {
            assert(es.drop_first().len() == 0);
            assert(spec_encode_elems(es) == spec_encode(es[0]));
            assert(spec_encode_elems(es.push(x)) == spec_encode(es[0]) + seq![','] + spec_encode(
                x,
            ));
            assert(spec_encode_elems(es) + seq![','] + spec_encode(x) == spec_encode(es[0])
                + seq![','] + spec_encode(x));
        } else {
            assert(spec_encode_elems(es.push(x)) == spec_encode(es[0]) + seq![','] + (
            spec_encode_elems(es.drop_first()) + seq![','] + spec_encode(x)));
            assert(spec_encode_elems(es) + seq![','] + spec_encode(x) == (spec_encode(es[0])
                + seq![','] + spec_encode_elems(es.drop_first())) + seq![','] + spec_encode(x));
            assert(spec_encode(es[0]) + seq![','] + (spec_encode_elems(es.drop_first()) + seq![',']
                + spec_encode(x)) =~= (spec_encode(es[0]) + seq![','] + spec_encode_elems(
                es.drop_first(),
            )) + seq![','] + spec_encode(x));
        }
    }
}

/// Appending a member on the right extends the member list encoding on the
/// right.
pub proof fn lemma_encode_members_push(ms: Seq<(Seq<char>, JsonV)>, k: Seq<char>, x: JsonV)
    ensures
        spec_encode_members(ms.push((k, x))) == if ms.len() == 0 {
            seq!['"'] + spec_escape(k) + seq!['"', ':'] + spec_encode(x)
        } else {
            spec_encode_members(ms) + seq![','] + (seq!['"'] + spec_escape(k) + seq!['"', ':']
                + spec_encode(x))
        },
    decreases ms.len(),
{
    let m = seq!['"'] + spec_escape(k) + seq!['"', ':'] + spec_encode(x);
    if ms.len() == 0 {
        assert(ms.push((k, x))[0] == (k, x));
        assert(ms.push((k, x)).len() == 1);
    } else {
        lemma_encode_members_push(ms.drop_first(), k, x);
        assert(ms.push((k, x)).drop_first() =~= ms.drop_first().push((k, x)));
        assert(ms.push((k, x))[0] == ms[0]);
        let m0 = seq!['"'] + spec_escape(ms[0].0) + seq!['"', ':'] + spec_encode(ms[0].1);
        if ms.len() == 1 {
            assert(spec_encode_members(ms.push((k, x))) == m0 + seq![','] + m);
            assert(spec_encode_members(ms) == m0);
        } else {
            assert(spec_encode_members(ms.push((k, x))) == m0 + seq![','] + (spec_encode_members(
                ms.drop_first(),
            ) + seq![','] + m));
            assert(m0 + seq![','] + (spec_encode_members(ms.drop_first()) + seq![','] + m) =~= (m0
                + seq![','] + spec_encode_members(ms.drop_first())) + seq![','] + m);
        }
    }
}

/// Escaping distributes over appending one character on the right.
pub proof fn lemma_escape_push(s: Seq<char>, c: char)
    ensures
        spec_escape(s.push(c)) == spec_escape(s) + spec_escape_char(c),
    decreases s.len(),
{
    if s.len() == 0 {
        reveal_with_fuel(spec_escape, 2);
        assert(s.push(c)[0] == c);
        assert(s.push(c).drop_first() =~= Seq::<char>::empty());
        assert(spec_escape(s.push(c)) == spec_escape_char(c) + Seq::<char>::empty());
        assert(spec_escape_char(c) + Seq::<char>::empty() =~= Seq::<char>::empty()
            + spec_escape_char(c));
    } else {
        lemma_escape_push(s.drop_first(), c);
        assert(s.push(c)[0] == s[0]);
        assert(s.push(c).drop_first() =~= s.drop_first().push(c));
        assert(spec_escape(s.push(c)) == spec_escape_char(s[0]) + (spec_escape(s.drop_first())
            + spec_escape_char(c)));
        assert(spec_escape_char(s[0]) + (spec_escape(s.drop_first()) + spec_escape_char(c)) =~= (
        spec_escape_char(s[0]) + spec_escape(s.drop_first())) + spec_escape_char(c));
    }
}

/// Append the canonical escaped form of `s`, with surrounding quotes, to
/// `out`.
pub fn append_json_string(out: &mut String, s: &str)
    ensures
        final(out)@ == old(out)@ + seq!['"'] + spec_escape(s@) + seq!['"'],
{
    push_char(out, '"');
    let ghost pre = out@;
    let n = s.unicode_len();
    proof {
        assert(s@.subrange(0, 0) =~= Seq::<char>::empty());
    }
    for i in 0..n
        invariant
            n == s@.len(),
            out@ == pre + spec_escape(s@.subrange(0, i as int)),
    {
        let c = s.get_char(i);
        proof {
            assert(s@.subrange(0, i + 1 as int).drop_last() =~= s@.subrange(0, i as int));
            assert(s@.subrange(0, i + 1 as int) =~= s@.subrange(0, i as int).push(c));
            lemma_escape_push(s@.subrange(0, i as int), c);
        }
        if c == '"' {
            push_char(out, '\\');
            push_char(out, '"');
        } else if c == '\\' {
            push_char(out, '\\');
            push_char(out, '\\');
        } else if c == '\n' {
            push_char(out, '\\');
            push_char(out, 'n');
        } else if c == '\r' {
            push_char(out, '\\');
            push_char(out, 'r');
        } else if c == '\t' {
            push_char(out, '\\');
            push_char(out, 't');
        } else if (c as u32) < 32 {
            push_char(out, '\\');
            push_char(out, 'u');
            push_char(out, '0');
            push_char(out, '0');
            let v = c as u32;
            let hi = (v / 16) as u8;
            let lo = (v % 16) as u8;
            push_char(out, if hi < 10 { (hi + 48) as char } else { (hi + 87) as char });
            push_char(out, if lo < 10 { (lo + 48) as char } else { (lo + 87) as char });
        } else {
            push_char(out, c);
        }
        proof {
            assert(out@ =~= pre + spec_escape(s@.subrange(0, i + 1 as int)));
        }
    }
    push_char(out, '"');
    proof {
        assert(s@.subrange(0, n as int) =~= s@);
        assert(out@ =~= old(out)@ + seq!['"'] + spec_escape(s@) + seq!['"']);
    }
}

/// Append the canonical encoding of `j` to `out`.
#[verifier::loop_isolation(false)]
#[verifier::rlimit(100)]
#[verifier::spinoff_prover]
pub fn encode_json_into(j: &Json, out: &mut String)
    ensures
        final(out)@ == old(out)@ + spec_encode(j@),
    decreases j,
{
    match j {
        Json::Null => {
            proof {
                reveal_strlit("null");
            }
            out.append("null");
            proof {
                assert(out@ =~= old(out)@ + spec_encode(j@));
            }
        },
        Json::Bool(b) => {
            if *b {
                proof {
                    reveal_strlit("true");
                }
                out.append("true");
            } else {
                proof {
                    reveal_strlit("false");
                }
                out.append("false");
            }
            proof {
                assert(out@ =~= old(out)@ + spec_encode(j@));
            }
        },
        Json::Num(n) => {
            append_dec(out, *n);
        },
        Json::NumText(s) => {
            out.append(s.as_str());
        },
        Json::Str(s) => {
            append_json_string(out, s.as_str());
            proof {
                assert(out@ =~= old(out)@ + spec_encode(j@));
            }
        },
        Json::Arr(es) => {
            push_char(out, '[');
            let ghost pre = out@;
            let ghost evs = Seq::new(es.len() as nat, |k: int| es[k]@);
            let n = es.len();
            proof {
                assert(evs.subrange(0, 0) =~= Seq::<JsonV>::empty());
            }
            for i in 0..n
                invariant
                    n == es.len(),
                    evs == Seq::new(es.len() as nat, |k: int| es[k]@),
                    out@ == pre + spec_encode_elems(evs.subrange(0, i as int)),
                decreases n - i,
            {
                if i > 0 {
                    push_char(out, ',');
                }
                proof {
                    assert(decreases_to!(es => es[i as int]));
                }
                encode_json_into(&es[i], out);
                proof {
                    assert(evs.subrange(0, i + 1 as int) =~= evs.subrange(0, i as int).push(
                        evs[i as int],
                    ));
                    lemma_encode_elems_push(evs.subrange(0, i as int), evs[i as int]);
                    assert(out@ =~= pre + spec_encode_elems(evs.subrange(0, i + 1 as int)));
                }
            }
            push_char(out, ']');
            proof {
                assert(evs.subrange(0, n as int) =~= evs);
                assert(Seq::new(
                    es.len() as nat,
                    |i: int| if 0 <= i < es.len() { es[i]@ } else { JsonV::Null },
                ) =~= evs);
                assert(*j == Json::Arr(*es));
                assert(j@ is Arr);
                assert(j@->Arr_0.len() == es.len());
                assert forall|k: int| 0 <= k < es.len() implies j@->Arr_0[k] == evs[k] by {
                    assert(evs[k] == es[k]@);
                }
                assert(j@->Arr_0 =~= evs);
                assert(j@ == JsonV::Arr(evs));
                assert(out@ =~= old(out)@ + spec_encode(j@));
            }
        },
        Json::Obj(ms) => {
            push_char(out, '{');
            let ghost pre = out@;
            let ghost mvs = Seq::new(ms.len() as nat, |k: int| (ms[k].0@, ms[k].1@));
            let n = ms.len();
            proof {
                assert(mvs.subrange(0, 0) =~= Seq::<(Seq<char>, JsonV)>::empty());
            }
            for i in 0..n
                invariant
                    n == ms.len(),
                    mvs == Seq::new(ms.len() as nat, |k: int| (ms[k].0@, ms[k].1@)),
                    out@ == pre + spec_encode_members(mvs.subrange(0, i as int)),
                decreases n - i,
            {
                if i > 0 {
                    push_char(out, ',');
                }
                append_json_string(out, ms[i].0.as_str());
                push_char(out, ':');
                proof {
                    assert(decreases_to!(ms => ms[i as int]));
                }
                encode_json_into(&ms[i].1, out);
                proof {
                    assert(mvs.subrange(0, i + 1 as int) =~= mvs.subrange(0, i as int).push(
                        mvs[i as int],
                    ));
                    lemma_encode_members_push(
                        mvs.subrange(0, i as int),
                        mvs[i as int].0,
                        mvs[i as int].1,
                    );
                    assert(out@ =~= pre + spec_encode_members(mvs.subrange(0, i + 1 as int)));
                }
            }
            push_char(out, '}');
            proof {
                assert(mvs.subrange(0, n as int) =~= mvs);
                assert(Seq::new(
                    ms.len() as nat,
                    |i: int| if 0 <= i < ms.len() {
                        (ms[i].0@, ms[i].1@)
                    } else {
                        (Seq::empty(), JsonV::Null)
                    },
                ) =~= mvs);
                assert(*j == Json::Obj(*ms));
                assert(j@ is Obj);
                assert(j@->Obj_0.len() == ms.len());
                assert forall|k: int| 0 <= k < ms.len() implies j@->Obj_0[k] == mvs[k] by {
                    assert(mvs[k] == (ms[k].0@, ms[k].1@));
                }
                assert(j@->Obj_0 =~= mvs);
                assert(j@ == JsonV::Obj(mvs));
                assert(out@ =~= old(out)@ + spec_encode(j@));
            }
        },
    }
}

/// The canonical encoding of `j`, as a string.
pub fn encode_json(j: &Json) -> (r: String)
    ensures
        r@ == spec_encode(j@),
{
    let mut out = String::new();
    encode_json_into(j, &mut out);
    proof {
        assert(Seq::<char>::empty() + spec_encode(j@) =~= spec_encode(j@));
    }
    out
}

/// The element-wise model of a sequence of JSON values.
pub open spec fn jvs(es: Seq<Json>) -> Seq<JsonV> {
    es.map_values(|e: Json| jv(e))
}

/// The element-wise model of a sequence of JSON object members.
pub open spec fn jvm(ms: Seq<(String, Json)>) -> Seq<(Seq<char>, JsonV)> {
    ms.map_values(|m: (String, Json)| (m.0@, jv(m.1)))
}

/// The model of an array value, written over `jvs`.
pub proof fn lemma_jv_arr(v: Vec<Json>)
    ensures
        jv(Json::Arr(v)) == JsonV::Arr(jvs(v@)),
{
    let a = jv(Json::Arr(v));
    assert(a is Arr);
    assert(a->Arr_0.len() == v.len());
    assert(jvs(v@).len() == v.len());
    assert forall|i: int| 0 <= i < v.len() implies a->Arr_0[i] == jvs(v@)[i] by {
        assert(jvs(v@)[i] == jv(v@[i]));
    }
    assert(a->Arr_0 =~= jvs(v@));
}

/// The model of an object value, written over `jvm`.
pub proof fn lemma_jv_obj(v: Vec<(String, Json)>)
    ensures
        jv(Json::Obj(v)) == JsonV::Obj(jvm(v@)),
{
    let a = jv(Json::Obj(v));
    assert(a is Obj);
    assert(a->Obj_0.len() == v.len());
    assert(jvm(v@).len() == v.len());
    assert forall|i: int| 0 <= i < v.len() implies a->Obj_0[i] == jvm(v@)[i] by {
        assert(jvm(v@)[i] == (v@[i].0@, jv(v@[i].1)));
    }
    assert(a->Obj_0 =~= jvm(v@));
}

/// JSON whitespace.
pub open spec fn is_ws(c: char) -> bool {
    c == ' ' || c == '\t' || c == '\n' || c == '\r'
}

/// The first index at or after `i` that does not hold whitespace.
pub open spec fn spec_skip_ws(s: Seq<char>, i: int) -> int
    decreases s.len() - i,
{
    if 0 <= i && i < s.len() && is_ws(s[i]) {
        spec_skip_ws(s, i + 1)
    } else {
        i
    }
}

/// Skipping whitespace stays inside the input and stops on non-whitespace.
pub proof fn lemma_skip_ws(s: Seq<char>, i: int)
    requires
        0 <= i <= s.len(),
    ensures
        i <= spec_skip_ws(s, i) <= s.len(),
        spec_skip_ws(s, i) < s.len() ==> !is_ws(s[spec_skip_ws(s, i)]),
    decreases s.len() - i,
{
    if i < s.len() && is_ws(s[i]) {
        lemma_skip_ws(s, i + 1);
    }
}

/// Whether the four characters starting at `k` are hexadecimal digits
/// (with all of them inside the input).
pub open spec fn hex4_ok(s: Seq<char>, k: int) -> bool {
    k >= 0 && k + 4 <= s.len() && is_hex(s[k]) && is_hex(s[k + 1]) && is_hex(s[k + 2]) && is_hex(
        s[k + 3],
    )
}

/// The value of the four hexadecimal digits starting at `k`.
pub open spec fn hex4_val(s: Seq<char>, k: int) -> int {
    hex_val(s[k]) * 4096 + hex_val(s[k + 1]) * 256 + hex_val(s[k + 2]) * 16 + hex_val(s[k + 3])
}

/// The decoded character of a single-letter escape, if the letter is a
/// valid one.
pub open spec fn spec_unescape(e: char) -> Option<char> {
    if e == '"' {
        Some('"')
    } else if e == '\\' {
        Some('\\')
    } else if e == '/' {
        Some('/')
    } else if e == 'n' {
        Some('\n')
    } else if e == 'r' {
        Some('\r')
    } else if e == 't' {
        Some('\t')
    } else if e == 'b' {
        Some('\u{8}')
    } else if e == 'f' {
        Some('\u{c}')
    } else {
        None
    }
}

/// Parse the body of a JSON string literal starting just after the opening
/// quote; on success return the decoded characters and the index just after
/// the closing quote.
pub open spec fn spec_parse_string(s: Seq<char>, i: int) -> Option<(Seq<char>, int)>
    decreases s.len() - i, 0int,
{
    if !(0 <= i && i < s.len()) {
        None
    } else {
        let c = s[i];
        if c == '"' {
            Some((Seq::empty(), i + 1))
        } else if c == '\\' {
            if i + 1 >= s.len() {
                None
            } else {
                let e = s[i + 1];
                if e == 'u' {
                    if !hex4_ok(s, i + 2) {
                        None
                    } else {
                        let hi = hex4_val(s, i + 2);
                        if 0xD800 <= hi && hi < 0xDC00 {
                            // A high surrogate must be followed by an
                            // escaped low surrogate; the pair encodes one
                            // supplementary character.
                            if !(i + 8 <= s.len() && s[i + 6] == '\\' && s[i + 7] == 'u'
                                && hex4_ok(s, i + 8)) {
                                None
                            } else {
                                let lo = hex4_val(s, i + 8);
                                if !(0xDC00 <= lo && lo < 0xE000) {
                                    None
                                } else {
                                    let code = 0x10000 + (hi - 0xD800) * 0x400 + (lo - 0xDC00);
                                    match spec_parse_string(s, i + 12) {
                                        Some((t, j)) => Some(
                                            (seq![((code as u32) as char)] + t, j),
                                        ),
                                        None => None,
                                    }
                                }
                            }
                        } else if 0xDC00 <= hi && hi < 0xE000 {
                            None
                        } else {
                            match spec_parse_string(s, i + 6) {
                                Some((t, j)) => Some((seq![((hi as u32) as char)] + t, j)),
                                None => None,
                            }
                        }
                    }
                } else {
                    match spec_unescape(e) {
                        Some(d) => match spec_parse_string(s, i + 2) {
                            Some((t, j)) => Some((seq![d] + t, j)),
                            None => None,
                        },
                        None => None,
                    }
                }
            }
        } else if (c as u32) < 32 {
            None
        } else {
            match spec_parse_string(s, i + 1) {
                Some((t, j)) => Some((seq![c] + t, j)),
                None => None,
            }
        }
    }
}

/// A successful string parse consumes at least one character and stays
/// inside the input.
pub proof fn lemma_parse_string_bounds(s: Seq<char>, i: int)
    requires
        0 <= i,
    ensures
        spec_parse_string(s, i) matches Some(p) ==> i < p.1 <= s.len(),
    decreases s.len() - i,
{
    if 0 <= i && i < s.len() {
        let c = s[i];
        if c == '\\' {
            if i + 1 < s.len() {
                if s[i + 1] == 'u' {
                    if i + 6 <= s.len() {
                        lemma_parse_string_bounds(s, i + 6);
                    }
                    if i + 12 <= s.len() {
                        lemma_parse_string_bounds(s, i + 12);
                    }
                } else {
                    lemma_parse_string_bounds(s, i + 2);
                }
            }
        } else {
            lemma_parse_string_bounds(s, i + 1);
        }
    }
}

/// The first index at or after `i` that does not hold a decimal digit.
pub open spec fn digit_run_end(s: Seq<char>, i: int) -> int
    decreases s.len() - i,
{
    if 0 <= i && i < s.len() && is_digit(s[i]) {
        digit_run_end(s, i + 1)
    } else {
        i
    }
}

/// The digit run stays inside the input, holds only digits, and stops on a
/// non-digit.
pub proof fn lemma_digit_run(s: Seq<char>, i: int)
    requires
        0 <= i <= s.len(),
    ensures
        i <= digit_run_end(s, i) <= s.len(),
        forall|k: int| i <= k < digit_run_end(s, i) ==> is_digit(s[k]),
        digit_run_end(s, i) < s.len() ==> !is_digit(s[digit_run_end(s, i)]),
    decreases s.len() - i,
{
    if i < s.len() && is_digit(s[i]) {
        lemma_digit_run(s, i + 1);
    }
}

/// The value of a digit sequence is not negative.
pub proof fn lemma_dec_value_nonneg(ds: Seq<char>)
    requires
        forall|k: int| 0 <= k < ds.len() ==> is_digit(#[trigger] ds[k]),
    ensures
        dec_value(ds) >= 0,
    decreases ds.len(),
{
    if ds.len() > 0 {
        lemma_dec_value_nonneg(ds.drop_last());
    }
}

/// Where a JSON number token starting at `i` ends: an optional minus, a
/// non-empty digit run, an optional fraction, an optional exponent;
/// nothing when the token is malformed.
pub open spec fn spec_num_end(s: Seq<char>, i: int) -> Option<int> {
    let j0 = if 0 <= i && i < s.len() && s[i] == '-' {
        i + 1
    } else {
        i
    };
    let j1 = digit_run_end(s, j0);
    if !(0 <= j0 && j0 < j1) {
        None
    } else {
        let has_frac = j1 < s.len() && s[j1] == '.';
        let j2 = if has_frac {
            digit_run_end(s, j1 + 1)
        } else {
            j1
        };
        if has_frac && !(j1 + 1 < j2) {
            None
        } else {
            let has_exp = j2 < s.len() && (s[j2] == 'e' || s[j2] == 'E');
            let j3 = if has_exp && j2 + 1 < s.len() && (s[j2 + 1] == '+' || s[j2 + 1] == '-') {
                j2 + 2
            } else {
                j2 + 1
            };
            let j4 = if has_exp {
                digit_run_end(s, j3)
            } else {
                j2
            };
            if has_exp && !(j3 < j4) {
                None
            } else {
                Some(j4)
            }
        }
    }
}

/// Parse one number token starting at `i`: a plain digit run that fits 64
/// bits becomes a number; any other well-formed token is kept as its text.
pub open spec fn spec_parse_num_token(s: Seq<char>, i: int) -> Option<(JsonV, int)> {
    match spec_num_end(s, i) {
        None => None,
        Some(e) => {
            if !(0 <= i && i < e && e <= s.len()) {
                None
            } else {
                let lex = s.subrange(i, e);
                if s[i] != '-' && e == digit_run_end(s, i) && dec_value(lex) <= u64::MAX {
                    Some((JsonV::Num(dec_value(lex) as u64), e))
                } else {
                    Some((JsonV::NumText(lex), e))
                }
            }
        },
    }
}

/// Parse one JSON value starting exactly at `i` (no leading whitespace).
pub open spec fn spec_parse_value(s: Seq<char>, i: int) -> Option<(JsonV, int)>
    decreases s.len() - i, 1int,
{
    if !(0 <= i && i < s.len()) {
        None
    } else {
        let c = s[i];
        if c == 'n' {
            if s.len() - i >= 4 && s[i + 1] == 'u' && s[i + 2] == 'l' && s[i + 3] == 'l' {
                Some((JsonV::Null, i + 4))
            } else {
                None
            }
        } else if c == 't' {
            if s.len() - i >= 4 && s[i + 1] == 'r' && s[i + 2] == 'u' && s[i + 3] == 'e' {
                Some((JsonV::Bool(true), i + 4))
            } else {
                None
            }
        } else if c == 'f' {
            if i + 5 <= s.len() && s[i + 1] == 'a' && s[i + 2] == 'l' && s[i + 3] == 's' && s[i + 4]
                == 'e' {
                Some((JsonV::Bool(false), i + 5))
            } else {
                None
            }
        } else if c == '"' {
            match spec_parse_string(s, i + 1) {
                Some((t, j)) => Some((JsonV::Str(t), j)),
                None => None,
            }
        } else if is_digit(c) || c == '-' {
            spec_parse_num_token(s, i)
        } else if c == '[' {
            let k = spec_skip_ws(s, i + 1);
            if !(i + 1 <= k && k <= s.len()) {
                None
            } else if k < s.len() && s[k] == ']' {
                Some((JsonV::Arr(Seq::empty()), k + 1))
            } else {
                match spec_parse_elems(s, k) {
                    Some((es, j)) => Some((JsonV::Arr(es), j)),
                    None => None,
                }
            }
        } else if c == '{' {
            let k = spec_skip_ws(s, i + 1);
            if !(i + 1 <= k && k <= s.len()) {
                None
            } else if k < s.len() && s[k] == '}' {
                Some((JsonV::Obj(Seq::empty()), k + 1))
            } else {
                match spec_parse_members(s, k) {
                    Some((ms, j)) => Some((JsonV::Obj(ms), j)),
                    None => None,
                }
            }
        } else {
            None
        }
    }
}

/// Parse a non-empty comma-separated list of values followed by `]`,
/// starting exactly at the first value.
pub open spec fn spec_parse_elems(s: Seq<char>, i: int) -> Option<(Seq<JsonV>, int)>
    decreases s.len() - i, 2int,
{
    match spec_parse_value(s, i) {
        None => None,
        Some((v, j)) => {
            if !(i < j && j <= s.len()) {
                None
            } else {
                let k = spec_skip_ws(s, j);
                if !(j <= k && k <= s.len()) {
                    None
                } else if k < s.len() && s[k] == ',' {
                    let m = spec_skip_ws(s, k + 1);
                    if !(k + 1 <= m && m <= s.len()) {
                        None
                    } else {
                        match spec_parse_elems(s, m) {
                            Some((rest, e)) => Some((seq![v] + rest, e)),
                            None => None,
                        }
                    }
                } else if k < s.len() && s[k] == ']' {
                    Some((seq![v], k + 1))
                } else {
                    None
                }
            }
        },
    }
}

/// Parse a non-empty comma-separated list of `"key": value` members
/// followed by `}`, starting exactly at the first key's quote.
pub open spec fn spec_parse_members(s: Seq<char>, i: int) -> Option<(Seq<(Seq<char>, JsonV)>, int)>
    decreases s.len() - i, 2int,
{
    if !(0 <= i && i < s.len() && s[i] == '"') {
        None
    } else {
        match spec_parse_string(s, i + 1) {
            None => None,
            Some((key, j)) => {
                if !(i + 1 < j && j <= s.len()) {
                    None
                } else {
                    let k = spec_skip_ws(s, j);
                    if !(j <= k && k <= s.len()) {
                        None
                    } else if !(k < s.len() && s[k] == ':') {
                        None
                    } else {
                        let m = spec_skip_ws(s, k + 1);
                        if !(k + 1 <= m && m <= s.len()) {
                            None
                        } else {
                            match spec_parse_value(s, m) {
                                None => None,
                                Some((v, p)) => {
                                    if !(m < p && p <= s.len()) {
                                        None
                                    } else {
                                        let q = spec_skip_ws(s, p);
                                        if !(p <= q && q <= s.len()) {
                                            None
                                        } else if q < s.len() && s[q] == ',' {
                                            let w = spec_skip_ws(s, q + 1);
                                            if !(q + 1 <= w && w <= s.len()) {
                                                None
                                            } else {
                                                match spec_parse_members(s, w) {
                                                    Some((rest, e)) => Some(
                                                        (seq![(key, v)] + rest, e),
                                                    ),
                                                    None => None,
                                                }
                                            }
                                        } else if q < s.len() && s[q] == '}' {
                                            Some((seq![(key, v)], q + 1))
                                        } else {
                                            None
                                        }
                                    }
                                },
                            }
                        }
                    }
                }
            },
        }
    }
}

/// Parse a whole document: one value, with whitespace allowed around it.
pub open spec fn spec_parse_json(s: Seq<char>) -> Option<JsonV> {
    let i = spec_skip_ws(s, 0);
    if !(0 <= i && i <= s.len()) {
        None
    } else {
        match spec_parse_value(s, i) {
            Some((v, j)) => {
                if 0 <= j <= s.len() && spec_skip_ws(s, j) == s.len() {
                    Some(v)
                } else {
                    None
                }
            },
            None => None,
        }
    }
}

/// A successful value parse consumes at least one character and stays
/// inside the input.
pub proof fn lemma_parse_value_bounds(s: Seq<char>, i: int)
    requires
        0 <= i,
    ensures
        spec_parse_value(s, i) matches Some(p) ==> i < p.1 <= s.len(),
    decreases s.len() - i, 1int,
{
    if 0 <= i && i < s.len() {
        let c = s[i];
        if c == '"' {
            lemma_parse_string_bounds(s, i + 1);
        }
        if is_digit(c) {
            lemma_digit_run(s, i);
        }
        if c == '[' || c == '{' {
            let k = spec_skip_ws(s, i + 1);
            lemma_skip_ws(s, i + 1);
            if i + 1 <= k && k <= s.len() {
                lemma_parse_elems_bounds(s, k);
                lemma_parse_members_bounds(s, k);
            }
        }
    }
}

/// A successful element list parse consumes at least one character and
/// stays inside the input.
pub proof fn lemma_parse_elems_bounds(s: Seq<char>, i: int)
    requires
        0 <= i,
    ensures
        spec_parse_elems(s, i) matches Some(p) ==> i < p.1 <= s.len(),
    decreases s.len() - i, 2int,
{
    lemma_parse_value_bounds(s, i);
    match spec_parse_value(s, i) {
        Some((v, j)) => {
            if i < j && j <= s.len() {
                let k = spec_skip_ws(s, j);
                lemma_skip_ws(s, j);
                if j <= k && k <= s.len() && k < s.len() && s[k] == ',' {
                    let m = spec_skip_ws(s, k + 1);
                    lemma_skip_ws(s, k + 1);
                    if k + 1 <= m && m <= s.len() {
                        lemma_parse_elems_bounds(s, m);
                    }
                }
            }
        },
        None => {},
    }
}

/// A successful member list parse consumes at least one character and
/// stays inside the input.
pub proof fn lemma_parse_members_bounds(s: Seq<char>, i: int)
    requires
        0 <= i,
    ensures
        spec_parse_members(s, i) matches Some(p) ==> i < p.1 <= s.len(),
    decreases s.len() - i, 2int,
{
    if 0 <= i && i < s.len() && s[i] == '"' {
        lemma_parse_string_bounds(s, i + 1);
        match spec_parse_string(s, i + 1) {
            Some((key, j)) => {
                if i + 1 < j && j <= s.len() {
                    let k = spec_skip_ws(s, j);
                    lemma_skip_ws(s, j);
                    if j <= k && k <= s.len() && k < s.len() && s[k] == ':' {
                        let m = spec_skip_ws(s, k + 1);
                        lemma_skip_ws(s, k + 1);
                        if k + 1 <= m && m <= s.len() {
                            lemma_parse_value_bounds(s, m);
                            match spec_parse_value(s, m) {
                                Some((v, p)) => {
                                    if m < p && p <= s.len() {
                                        let q = spec_skip_ws(s, p);
                                        lemma_skip_ws(s, p);
                                        if p <= q && q <= s.len() && q < s.len() && s[q] == ',' {
                                            let w = spec_skip_ws(s, q + 1);
                                            lemma_skip_ws(s, q + 1);
                                            if q + 1 <= w && w <= s.len() {
                                                lemma_parse_members_bounds(s, w);
                                            }
                                        }
                                    }
                                },
                                None => {},
                            }
                        }
                    }
                }
            },
            None => {},
        }
    }
}

/// Prepend one character to a string.
fn cons_char(c: char, t: &str) -> (r: String)
    ensures
        r@ == seq![c] + t@,
{
    let mut out = String::new();
    push_char(&mut out, c);
    out.append(t);
    proof {
        assert(out@ =~= seq![c] + t@);
    }
    out
}

/// Executable whitespace test.
fn is_ws_exec(c: char) -> (r: bool)
    ensures
        r == is_ws(c),
{
    c == ' ' || c == '\t' || c == '\n' || c == '\r'
}

/// Executable whitespace skip.
fn skip_ws_exec(s: &Vec<char>, i: usize) -> (r: usize)
    requires
        i <= s.len(),
    ensures
        r as int == spec_skip_ws(s@, i as int),
        i <= r <= s.len(),
{
    let mut k = i;
    while k < s.len() && is_ws_exec(s[k])
        invariant
            i <= k <= s.len(),
            spec_skip_ws(s@, i as int) == spec_skip_ws(s@, k as int),
        decreases s.len() - k,
    {
        k = k + 1;
    }
    k
}

/// Executable value of a hexadecimal digit.
fn hex_val_exec(c: char) -> (r: u32)
    requires
        is_hex(c),
    ensures
        r as int == hex_val(c),
        r <= 15,
{
    let v = c as u32;
    if v >= 48 && v <= 57 {
        v - 48
    } else if v >= 97 && v <= 102 {
        v - 87
    } else {
        v - 55
    }
}

/// Executable single-letter unescape.
fn unescape_exec(e: char) -> (r: Option<char>)
    ensures
        r == spec_unescape(e),
{
    if e == '"' {
        Some('"')
    } else if e == '\\' {
        Some('\\')
    } else if e == '/' {
        Some('/')
    } else if e == 'n' {
        Some('\n')
    } else if e == 'r' {
        Some('\r')
    } else if e == 't' {
        Some('\t')
    } else if e == 'b' {
        Some('\u{8}')
    } else if e == 'f' {
        Some('\u{c}')
    } else {
        None
    }
}

/// Executable string-literal body parse; mirrors `spec_parse_string`.
fn parse_string_exec(s: &Vec<char>, i: usize) -> (r: Option<(String, usize)>)
    requires
        i <= s.len(),
    ensures
        match r {
            Some(p) => spec_parse_string(s@, i as int) == Some((p.0@, p.1 as int)) && i < p.1
                <= s.len(),
            None => spec_parse_string(s@, i as int) is None,
        },
    decreases s.len() - i,
{
    if i >= s.len() {
        return None;
    }
    let c = s[i];
    if c == '"' {
        let out = String::new();
        proof {
            assert(out@ =~= Seq::<char>::empty());
        }
        return Some((out, i + 1));
    }
    if c == '\\' {
        if i + 1 >= s.len() {
            return None;
        }
        let e = s[i + 1];
        if e == 'u' {
            if s.len() - i < 6 {
                return None;
            }
            if !(is_hex_exec(s[i + 2]) && is_hex_exec(s[i + 3]) && is_hex_exec(s[i + 4])
                && is_hex_exec(s[i + 5])) {
                return None;
            }
            let hi = hex_val_exec(s[i + 2]) * 4096 + hex_val_exec(s[i + 3]) * 256 + hex_val_exec(
                s[i + 4],
            ) * 16 + hex_val_exec(s[i + 5]);
            if 0xD800 <= hi && hi < 0xDC00 {
                if !(s.len() - i >= 12 && s[i + 6] == '\\' && s[i + 7] == 'u') {
                    return None;
                }
                if !(is_hex_exec(s[i + 8]) && is_hex_exec(s[i + 9]) && is_hex_exec(s[i + 10])
                    && is_hex_exec(s[i + 11])) {
                    return None;
                }
                let lo = hex_val_exec(s[i + 8]) * 4096 + hex_val_exec(s[i + 9]) * 256
                    + hex_val_exec(s[i + 10]) * 16 + hex_val_exec(s[i + 11]);
                if !(0xDC00 <= lo && lo < 0xE000) {
                    return None;
                }
                let code: u32 = 0x10000 + (hi - 0xD800) * 0x400 + (lo - 0xDC00);
                match char_from_u32(code) {
                    Some(d) => {
                        proof {
                            vstd::utf8::char_u32_cast(d, code);
                        }
                        match parse_string_exec(s, i + 12) {
                            Some((t, j)) => Some((cons_char(d, t.as_str()), j)),
                            None => None,
                        }
                    },
                    None => None,
                }
            } else if 0xDC00 <= hi && hi < 0xE000 {
                None
            } else {
                match char_from_u32(hi) {
                    Some(d) => {
                        proof {
                            vstd::utf8::char_u32_cast(d, hi);
                        }
                        match parse_string_exec(s, i + 6) {
                            Some((t, j)) => Some((cons_char(d, t.as_str()), j)),
                            None => None,
                        }
                    },
                    None => None,
                }
            }
        } else {
            match unescape_exec(e) {
                Some(d) => match parse_string_exec(s, i + 2) {
                    Some((t, j)) => Some((cons_char(d, t.as_str()), j)),
                    None => None,
                },
                None => None,
            }
        }
    } else if (c as u32) < 32 {
        None
    } else {
        match parse_string_exec(s, i + 1) {
            Some((t, j)) => Some((cons_char(c, t.as_str()), j)),
            None => None,
        }
    }
}

/// Executable number-token end scan; mirrors `spec_num_end`.
fn num_end_exec(s: &Vec<char>, i: usize) -> (r: Option<usize>)
    requires
        i <= s.len(),
    ensures
        match r {
            Some(e) => spec_num_end(s@, i as int) == Some(e as int) && i < e <= s.len(),
            None => spec_num_end(s@, i as int) is None,
        },
{
    let n = s.len();
    let j0: usize = if i < n && s[i] == '-' {
        i + 1
    } else {
        i
    };
    let mut j1 = j0;
    while j1 < n && is_digit_exec(s[j1])
        invariant
            j0 <= j1 <= n,
            n == s@.len(),
            digit_run_end(s@, j0 as int) == digit_run_end(s@, j1 as int),
        decreases n - j1,
    {
        j1 = j1 + 1;
    }
    proof {
        lemma_digit_run(s@, j0 as int);
    }
    if j1 == j0 {
        return None;
    }
    let has_frac = j1 < n && s[j1] == '.';
    let mut j2 = j1;
    if has_frac {
        let mut k = j1 + 1;
        while k < n && is_digit_exec(s[k])
            invariant
                j1 + 1 <= k <= n,
                n == s@.len(),
                digit_run_end(s@, j1 + 1) == digit_run_end(s@, k as int),
            decreases n - k,
        {
            k = k + 1;
        }
        if k == j1 + 1 {
            return None;
        }
        j2 = k;
    }
    let has_exp = j2 < n && (s[j2] == 'e' || s[j2] == 'E');
    if has_exp {
        let j3: usize = if j2 + 1 < n && (s[j2 + 1] == '+' || s[j2 + 1] == '-') {
            j2 + 2
        } else {
            j2 + 1
        };
        let mut j4 = j3;
        while j4 < n && is_digit_exec(s[j4])
            invariant
                j3 <= j4 <= n,
                j3 <= n,
                n == s@.len(),
                digit_run_end(s@, j3 as int) == digit_run_end(s@, j4 as int),
            decreases n - j4,
        {
            j4 = j4 + 1;
        }
        if j4 == j3 {
            return None;
        }
        Some(j4)
    } else {
        Some(j2)
    }
}

/// Executable number-token parse; mirrors `spec_parse_num_token`.
#[verifier::loop_isolation(false)]
fn parse_num_token_exec(s: &Vec<char>, i: usize) -> (r: Option<(Json, usize)>)
    requires
        i <= s.len(),
    ensures
        match r {
            Some(p) => spec_parse_num_token(s@, i as int) == Some((jv(p.0), p.1 as int)) && i < p.1
                <= s.len(),
            None => spec_parse_num_token(s@, i as int) is None,
        },
{
    let e = match num_end_exec(s, i) {
        Some(e) => e,
        None => {
            return None;
        },
    };
    let mut d = i;
    while d < s.len() && is_digit_exec(s[d])
        invariant
            i <= d <= s.len(),
            digit_run_end(s@, i as int) == digit_run_end(s@, d as int),
        decreases s.len() - d,
    {
        d = d + 1;
    }
    proof {
        lemma_digit_run(s@, i as int);
    }
    let plain = s[i] != '-' && d == e;
    if plain {
        let ghost run = s@.subrange(i as int, e as int);
        proof {
            lemma_dec_value_nonneg(run);
            assert(s@.subrange(i as int, i as int) =~= Seq::<char>::empty());
        }
        let mut acc: u64 = 0;
        let mut overflow = false;
        let mut k = i;
        while k < e
            invariant
                i <= k <= e <= s.len(),
                forall|q: int| i <= q < e ==> is_digit(#[trigger] s@[q]),
                !overflow ==> acc == dec_value(s@.subrange(i as int, k as int)),
                overflow ==> dec_value(s@.subrange(i as int, k as int)) > u64::MAX,
            decreases e - k,
        {
            let dg = (s[k] as u32 - 48) as u64;
            proof {
                let pre = s@.subrange(i as int, k as int);
                let post = s@.subrange(i as int, k + 1 as int);
                assert(post.drop_last() =~= pre);
                assert(post.last() == s@[k as int]);
                assert(dec_value(post) == dec_value(pre) * 10 + digit_val(s@[k as int]));
                lemma_dec_value_nonneg(pre);
            }
            if overflow {
                proof {
                    let pre = s@.subrange(i as int, k as int);
                    assert(dec_value(pre) * 10 + digit_val(s@[k as int]) > u64::MAX) by (
                    nonlinear_arith)
                        requires
                            dec_value(pre) > u64::MAX,
                            0 <= digit_val(s@[k as int]),
                    ;
                }
            } else if acc > (u64::MAX - dg) / 10 {
                proof {
                    assert(acc * 10 + dg > u64::MAX) by (nonlinear_arith)
                        requires
                            acc > (u64::MAX - dg) / 10,
                            0 <= dg <= 9,
                            acc >= 0,
                    ;
                }
                overflow = true;
            } else {
                proof {
                    assert(acc * 10 + dg <= u64::MAX) by (nonlinear_arith)
                        requires
                            acc <= (u64::MAX - dg) / 10,
                            0 <= dg <= 9,
                            acc >= 0,
                    ;
                }
                acc = acc * 10 + dg;
            }
            k = k + 1;
        }
        if !overflow {
            return Some((Json::Num(acc), e));
        }
    }
    let mut lex = String::new();
    let mut k = i;
    proof {
        assert(s@.subrange(i as int, i as int) =~= Seq::<char>::empty());
    }
    while k < e
        invariant
            i <= k <= e <= s.len(),
            lex@ == s@.subrange(i as int, k as int),
        decreases e - k,
    {
        push_char(&mut lex, s[k]);
        proof {
            assert(s@.subrange(i as int, k + 1 as int) =~= s@.subrange(i as int, k as int).push(
                s@[k as int],
            ));
        }
        k = k + 1;
    }
    Some((Json::NumText(lex), e))
}

/// Executable value parse; mirrors `spec_parse_value`.
fn parse_value_exec(s: &Vec<char>, i: usize) -> (r: Option<(Json, usize)>)
    requires
        i <= s.len(),
    ensures
        match r {
            Some(p) => spec_parse_value(s@, i as int) == Some((jv(p.0), p.1 as int)) && i < p.1
                <= s.len(),
            None => spec_parse_value(s@, i as int) is None,
        },
    decreases s.len() - i, 1int,
{
    if i >= s.len() {
        return None;
    }
    let c = s[i];
    if c == 'n' {
        if s.len() - i >= 4 && s[i + 1] == 'u' && s[i + 2] == 'l' && s[i + 3] == 'l' {
            Some((Json::Null, i + 4))
        } else {
            None
        }
    } else if c == 't' {
        if s.len() - i >= 4 && s[i + 1] == 'r' && s[i + 2] == 'u' && s[i + 3] == 'e' {
            Some((Json::Bool(true), i + 4))
        } else {
            None
        }
    } else if c == 'f' {
        if s.len() - i >= 5 && s[i + 1] == 'a' && s[i + 2] == 'l' && s[i + 3] == 's' && s[i + 4]
            == 'e' {
            Some((Json::Bool(false), i + 5))
        } else {
            None
        }
    } else if c == '"' {
        match parse_string_exec(s, i + 1) {
            Some((t, j)) => Some((Json::Str(t), j)),
            None => None,
        }
    } else if is_digit_exec(c) || c == '-' {
        parse_num_token_exec(s, i)
    } else if c == '[' {
        let k = skip_ws_exec(s, i + 1);
        if k < s.len() && s[k] == ']' {
            let es: Vec<Json> = Vec::new();
            proof {
                lemma_jv_arr(es);
                assert(jvs(es@) =~= Seq::<JsonV>::empty());
            }
            Some((Json::Arr(es), k + 1))
        } else {
            match parse_elems_exec(s, k) {
                Some((es, j)) => {
                    proof {
                        lemma_jv_arr(es);
                    }
                    Some((Json::Arr(es), j))
                },
                None => None,
            }
        }
    } else if c == '{' {
        let k = skip_ws_exec(s, i + 1);
        if k < s.len() && s[k] == '}' {
            let ms: Vec<(String, Json)> = Vec::new();
            proof {
                lemma_jv_obj(ms);
                assert(jvm(ms@) =~= Seq::<(Seq<char>, JsonV)>::empty());
            }
            Some((Json::Obj(ms), k + 1))
        } else {
            match parse_members_exec(s, k) {
                Some((ms, j)) => {
                    proof {
                        lemma_jv_obj(ms);
                    }
                    Some((Json::Obj(ms), j))
                },
                None => None,
            }
        }
    } else {
        None
    }
}

/// Executable element list parse; mirrors `spec_parse_elems`.
fn parse_elems_exec(s: &Vec<char>, i: usize) -> (r: Option<(Vec<Json>, usize)>)
    requires
        i <= s.len(),
    ensures
        match r {
            Some(p) => spec_parse_elems(s@, i as int) == Some((jvs(p.0@), p.1 as int)) && i < p.1
                <= s.len(),
            None => spec_parse_elems(s@, i as int) is None,
        },
    decreases s.len() - i, 2int,
{
    match parse_value_exec(s, i) {
        None => None,
        Some((v, j)) => {
            let k = skip_ws_exec(s, j);
            if k < s.len() && s[k] == ',' {
                let m = skip_ws_exec(s, k + 1);
                match parse_elems_exec(s, m) {
                    Some((mut rest, e)) => {
                        let ghost old_rest = rest@;
                        rest.insert(0, v);
                        proof {
                            assert(rest@ =~= seq![v] + old_rest);
                            assert(jvs(rest@) =~= seq![jv(v)] + jvs(old_rest));
                        }
                        Some((rest, e))
                    },
                    None => None,
                }
            } else if k < s.len() && s[k] == ']' {
                let mut es: Vec<Json> = Vec::new();
                es.push(v);
                proof {
                    assert(jvs(es@) =~= seq![jv(v)]);
                }
                Some((es, k + 1))
            } else {
                None
            }
        },
    }
}

/// Executable member list parse; mirrors `spec_parse_members`.
fn parse_members_exec(s: &Vec<char>, i: usize) -> (r: Option<(Vec<(String, Json)>, usize)>)
    requires
        i <= s.len(),
    ensures
        match r {
            Some(p) => spec_parse_members(s@, i as int) == Some((jvm(p.0@), p.1 as int)) && i < p.1
                <= s.len(),
            None => spec_parse_members(s@, i as int) is None,
        },
    decreases s.len() - i, 2int,
{
    if !(i < s.len() && s[i] == '"') {
        return None;
    }
    match parse_string_exec(s, i + 1) {
        None => None,
        Some((key, j)) => {
            let k = skip_ws_exec(s, j);
            if !(k < s.len() && s[k] == ':') {
                return None;
            }
            let m = skip_ws_exec(s, k + 1);
            match parse_value_exec(s, m) {
                None => None,
                Some((v, p)) => {
                    let q = skip_ws_exec(s, p);
                    if q < s.len() && s[q] == ',' {
                        let w = skip_ws_exec(s, q + 1);
                        match parse_members_exec(s, w) {
                            Some((mut rest, e)) => {
                                let ghost old_rest = rest@;
                                rest.insert(0, (key, v));
                                proof {
                                    assert(rest@ =~= seq![(key, v)] + old_rest);
                                    assert(jvm(rest@) =~= seq![(key@, jv(v))] + jvm(old_rest));
                                }
                                Some((rest, e))
                            },
                            None => None,
                        }
                    } else if q < s.len() && s[q] == '}' {
                        let mut ms: Vec<(String, Json)> = Vec::new();
                        ms.push((key, v));
                        proof {
                            assert(jvm(ms@) =~= seq![(key@, jv(v))]);
                        }
                        Some((ms, q + 1))
                    } else {
                        None
                    }
                },
            }
        },
    }
}

/// Parse a JSON document from a string.
pub fn parse_json(s: &str) -> (r: Option<Json>)
    ensures
        match r {
            Some(v) => spec_parse_json(s@) == Some(jv(v)),
            None => spec_parse_json(s@) is None,
        },
{
    let cs = str_chars(s);
    let i = skip_ws_exec(&cs, 0);
    match parse_value_exec(&cs, i) {
        Some((v, j)) => {
            let k = skip_ws_exec(&cs, j);
            if k == cs.len() {
                Some(v)
            } else {
                None
            }
        },
        None => None,
    }
}

/// Pointwise view of a subrange equality.
proof fn lemma_sub_index(s: Seq<char>, i: int, e: Seq<char>)
    requires
        0 <= i,
        i + e.len() <= s.len(),
        s.subrange(i, i + e.len()) == e,
    ensures
        forall|q: int| i <= q < i + e.len() ==> s[q] == e[q - i],
{
    assert forall|q: int| i <= q < i + e.len() implies s[q] == e[q - i] by {
        assert(e[q - i] == s.subrange(i, i + e.len())[q - i]);
    }
}

/// Characters that can begin the canonical encoding of a value.
pub open spec fn value_start(c: char) -> bool {
    c == 'n' || c == 't' || c == 'f' || c == '"' || is_digit(c) || c == '-' || c == '[' || c == '{'
}

/// Characters that could extend a number token to its right.
pub open spec fn num_extender(c: char) -> bool {
    is_digit(c) || c == '.' || c == 'e' || c == 'E'
}

/// The document's numbers are all plain unsigned integers, as this crate's
/// own encoders produce them: no number token kept as text appears.
pub open spec fn plain_nums(v: JsonV) -> bool
    decreases v,
{
    match v {
        JsonV::NumText(_) => false,
        JsonV::Arr(es) => forall|i: int| 0 <= i < es.len() ==> plain_nums(#[trigger] es[i]),
        JsonV::Obj(ms) => forall|i: int| 0 <= i < ms.len() ==> plain_nums((#[trigger] ms[i]).1),
        _ => true,
    }
}

/// The canonical encoding of a value is non-empty and begins with a value
/// start character (in particular: not whitespace, and none of the
/// punctuation that closes or separates).
pub proof fn lemma_encode_starts(v: JsonV)
    requires
        plain_nums(v),
    ensures
        spec_encode(v).len() >= 1,
        value_start(spec_encode(v)[0]),
{
    match v {
        JsonV::Num(n) => {
            lemma_spec_dec_digits(n as nat);
        },
        JsonV::NumText(_) => {
            assert(false);
        },
        JsonV::Str(t) => {
            assert(spec_encode(v)[0] == '"');
        },
        JsonV::Arr(es) => {
            assert(spec_encode(v)[0] == '[');
        },
        JsonV::Obj(ms) => {
            assert(spec_encode(v)[0] == '{');
        },
        _ => {},
    }
}

/// A value start character is not whitespace and is none of the JSON
/// punctuation characters.
pub proof fn lemma_value_start_apart(c: char)
    requires
        value_start(c),
    ensures
        !is_ws(c),
        c != ',' && c != ']' && c != '}' && c != ':',
{
}

/// Where a digit run ends, given the digits and the stopper.
proof fn lemma_run_end_at(s: Seq<char>, i: int, j: int)
    requires
        0 <= i <= j <= s.len(),
        forall|q: int| i <= q < j ==> is_digit(#[trigger] s[q]),
        j == s.len() || !is_digit(s[j]),
    ensures
        digit_run_end(s, i) == j,
    decreases j - i,
{
    if i < j {
        lemma_run_end_at(s, i + 1, j);
    }
}

/// A hexadecimal digit character reads back as its value.
proof fn lemma_hex_char_val(d: int)
    requires
        0 <= d < 16,
    ensures
        is_hex(hex_char(d)),
        hex_val(hex_char(d)) == d,
{
}

/// Parsing the canonical form of a number, when the character after it
/// cannot extend a number token, gives the number back.
proof fn lemma_round_number(s: Seq<char>, i: int, n: u64)
    requires
        0 <= i,
        i + spec_dec(n as nat).len() <= s.len(),
        s.subrange(i, i + spec_dec(n as nat).len() as int) == spec_dec(n as nat),
        i + spec_dec(n as nat).len() == s.len() || !num_extender(s[i + spec_dec(n as nat).len()]),
    ensures
        spec_parse_num_token(s, i) == Some((JsonV::Num(n), i + spec_dec(n as nat).len() as int)),
{
    let e = spec_dec(n as nat);
    let j = i + e.len();
    lemma_spec_dec_digits(n as nat);
    lemma_sub_index(s, i, e);
    assert forall|q: int| i <= q < j implies is_digit(#[trigger] s[q]) by {
        assert(s[q] == e[q - i]);
    }
    lemma_run_end_at(s, i, j);
    assert(s[i] == e[0]);
    assert(is_digit(s[i]));
    assert(s[i] != '-');
    assert(digit_run_end(s, i) == j);
    assert(j == s.len() || (s[j] != '.' && s[j] != 'e' && s[j] != 'E' && !is_digit(s[j])));
    assert(spec_num_end(s, i) == Some(j));
    assert(s.subrange(i, j) =~= e);
    lemma_dec_value_of_spec_dec(n as nat);
}

/// Parsing an escaped string body followed by a closing quote gives the
/// original characters back.
#[verifier::rlimit(100)]
#[verifier::spinoff_prover]
proof fn lemma_round_string(s: Seq<char>, i: int, t: Seq<char>)
    requires
        0 <= i,
        i + spec_escape(t).len() + 1 <= s.len(),
        s.subrange(i, i + spec_escape(t).len() + 1) == spec_escape(t) + seq!['"'],
    ensures
        spec_parse_string(s, i) == Some((t, i + spec_escape(t).len() + 1)),
    decreases t.len(),
{
    let esc = spec_escape(t);
    let whole = esc + seq!['"'];
    lemma_sub_index(s, i, whole);
    assert(whole.len() == esc.len() + 1);
    if t.len() == 0 {
        assert(whole[0] == '"');
        assert(s[i] == '"');
        assert(spec_parse_string(s, i) == Some((Seq::<char>::empty(), i + 1)));
        assert(Seq::<char>::empty() =~= t);
    } else {
        let c = t[0];
        let rest = t.drop_first();
        let ec = spec_escape_char(c);
        let esc_rest = spec_escape(rest);
        assert(esc == ec + esc_rest);
        // The suffix starting after the escape of `c` encodes `rest`.
        assert forall|q: int| 0 <= q < esc_rest.len() + 1 implies s[i + ec.len() + q] == (esc_rest
            + seq!['"'])[q] by {
            assert(s[i + ec.len() + q] == whole[ec.len() + q]);
            assert(whole[ec.len() + q] == (esc_rest + seq!['"'])[q]);
        }
        assert(s.subrange(i + ec.len(), i + ec.len() + esc_rest.len() + 1) =~= esc_rest
            + seq!['"']);
        lemma_round_string(s, i + ec.len(), rest);
        let j_end = i + esc.len() + 1;
        assert(spec_parse_string(s, i + ec.len()) == Some((rest, j_end)));
        if c == '"' || c == '\\' || c == '\n' || c == '\r' || c == '\t' {
            assert(ec.len() == 2);
            assert(s[i] == whole[0] && s[i + 1] == whole[1]);
            assert(whole[0] == ec[0] && whole[1] == ec[1]);
            assert(s[i] == '\\');
            assert(spec_unescape(s[i + 1]) == Some(c));
            assert(spec_parse_string(s, i) == Some((seq![c] + rest, j_end)));
            assert(seq![c] + rest =~= t);
        } else if (c as u32) < 32 {
            let u = c as u32;
            assert(ec == seq!['\\', 'u', '0', '0', hex_char((u / 16) as int), hex_char(
                (u % 16) as int,
            )]);
            assert(ec.len() == 6);
            assert forall|q: int| 0 <= q < 6 implies s[i + q] == ec[q] by {
                assert(s[i + q] == whole[q]);
                assert(whole[q] == ec[q]);
            }
            assert(s[i] == '\\' && s[i + 1] == 'u');
            assert(s[i + 2] == '0' && s[i + 3] == '0');
            assert(s[i + 4] == hex_char((u / 16) as int) && s[i + 5] == hex_char((u % 16) as int));
            assert(is_hex('0') && hex_val('0') == 0);
            lemma_hex_char_val((u / 16) as int);
            lemma_hex_char_val((u % 16) as int);
            assert(i + 6 <= s.len());
            assert(hex4_ok(s, i + 2));
            let v = hex4_val(s, i + 2);
            assert(v == (u / 16) * 16 + (u % 16));
            assert(v == u as int);
            assert(v < 128);
            vstd::utf8::char_u32_cast(c, u);
            assert((u as char) == c);
            assert((v as u32) == u);
            assert(((v as u32) as char) == c);
            assert(spec_parse_string(s, i) == Some((seq![c] + rest, j_end)));
            assert(seq![c] + rest =~= t);
        } else {
            assert(ec == seq![c]);
            assert(s[i] == whole[0]);
            assert(whole[0] == ec[0]);
            assert(s[i] == c);
            assert(c != '"' && c != '\\' && !((c as u32) < 32));
            assert(spec_parse_string(s, i) == Some((seq![c] + rest, j_end)));
            assert(seq![c] + rest =~= t);
        }
    }
}

/// Parsing the canonical encoding of a value, when the character after it
/// (if the value is a number) is not a digit, gives the value back.
#[verifier::rlimit(100)]
#[verifier::spinoff_prover]
pub proof fn lemma_round_value(s: Seq<char>, i: int, v: JsonV)
    requires
        plain_nums(v),
        0 <= i,
        i + spec_encode(v).len() <= s.len(),
        s.subrange(i, i + spec_encode(v).len() as int) == spec_encode(v),
        v is Num ==> (i + spec_encode(v).len() == s.len() || !num_extender(
            s[i + spec_encode(v).len()],
        )),
    ensures
        spec_parse_value(s, i) == Some((v, i + spec_encode(v).len() as int)),
    decreases v,
{
    let e = spec_encode(v);
    lemma_encode_starts(v);
    lemma_sub_index(s, i, e);
    match v {
        JsonV::Null => {
            assert(s[i] == e[0] && s[i + 1] == e[1] && s[i + 2] == e[2] && s[i + 3] == e[3]);
        },
        JsonV::Bool(b) => {
            if b {
                assert(s[i] == e[0] && s[i + 1] == e[1] && s[i + 2] == e[2] && s[i + 3] == e[3]);
            } else {
                assert(s[i] == e[0] && s[i + 1] == e[1] && s[i + 2] == e[2] && s[i + 3] == e[3]
                    && s[i + 4] == e[4]);
            }
        },
        JsonV::Num(n) => {
            assert(s[i] == e[0]);
            lemma_spec_dec_digits(n as nat);
            assert(is_digit(s[i]));
            assert(s.subrange(i, i + e.len() as int) =~= spec_dec(n as nat));
            lemma_round_number(s, i, n);
        },
        JsonV::NumText(_) => {
            assert(false);
        },
        JsonV::Str(t) => {
            let esc = spec_escape(t);
            assert(e == seq!['"'] + esc + seq!['"']);
            assert(s[i] == e[0]);
            assert(e[0] == '"');
            assert forall|q: int| 0 <= q < esc.len() + 1 implies s[i + 1 + q] == (esc
                + seq!['"'])[q] by {
                assert(s[i + 1 + q] == e[1 + q]);
                assert(e[1 + q] == (esc + seq!['"'])[q]);
            }
            assert(s.subrange(i + 1, i + 1 + esc.len() + 1) =~= esc + seq!['"']);
            lemma_round_string(s, i + 1, t);
        },
        JsonV::Arr(es) => {
            let el = spec_encode_elems(es);
            assert(e == seq!['['] + el + seq![']']);
            assert(s[i] == e[0] && e[0] == '[');
            if es.len() == 0 {
                assert(el.len() == 0);
                assert(e.len() == 2);
                assert(s[i + 1] == e[1] && e[1] == ']');
                assert(spec_skip_ws(s, i + 1) == i + 1);
                assert(es =~= Seq::<JsonV>::empty());
            } else {
                lemma_encode_starts(es[0]);
                assert(el[0] == spec_encode(es[0])[0]);
                assert(value_start(el[0]));
                lemma_value_start_apart(el[0]);
                assert(s[i + 1] == e[1] && e[1] == el[0]);
                assert(spec_skip_ws(s, i + 1) == i + 1);
                assert forall|q: int| 0 <= q < el.len() + 1 implies s[i + 1 + q] == (el
                    + seq![']'])[q] by {
                    assert(s[i + 1 + q] == e[1 + q]);
                    assert(e[1 + q] == (el + seq![']'])[q]);
                }
                assert(s.subrange(i + 1, i + 1 + el.len() + 1) =~= el + seq![']']);
                lemma_round_elems(s, i + 1, es);
                assert(s[i + 1] != ']');
            }
        },
        JsonV::Obj(ms) => {
            let el = spec_encode_members(ms);
            assert(e == seq!['{'] + el + seq!['}']);
            assert(s[i] == e[0] && e[0] == '{');
            if ms.len() == 0 {
                assert(el.len() == 0);
                assert(e.len() == 2);
                assert(s[i + 1] == e[1] && e[1] == '}');
                assert(spec_skip_ws(s, i + 1) == i + 1);
                assert(ms =~= Seq::<(Seq<char>, JsonV)>::empty());
            } else {
                assert(el[0] == '"');
                assert(s[i + 1] == e[1] && e[1] == el[0]);
                assert(spec_skip_ws(s, i + 1) == i + 1);
                assert forall|q: int| 0 <= q < el.len() + 1 implies s[i + 1 + q] == (el
                    + seq!['}'])[q] by {
                    assert(s[i + 1 + q] == e[1 + q]);
                    assert(e[1 + q] == (el + seq!['}'])[q]);
                }
                assert(s.subrange(i + 1, i + 1 + el.len() + 1) =~= el + seq!['}']);
                lemma_round_members(s, i + 1, ms);
                assert(s[i + 1] != '}');
            }
        },
    }
}

/// Parsing the canonical encoding of a non-empty element list followed by
/// `]` gives the elements back.
#[verifier::rlimit(100)]
#[verifier::spinoff_prover]
pub proof fn lemma_round_elems(s: Seq<char>, i: int, es: Seq<JsonV>)
    requires
        forall|q: int| 0 <= q < es.len() ==> plain_nums(#[trigger] es[q]),
        es.len() >= 1,
        0 <= i,
        i + spec_encode_elems(es).len() + 1 <= s.len(),
        s.subrange(i, i + spec_encode_elems(es).len() + 1) == spec_encode_elems(es) + seq![']'],
    ensures
        spec_parse_elems(s, i) == Some((es, i + spec_encode_elems(es).len() + 1)),
    decreases es,
{
    let el = spec_encode_elems(es);
    let whole = el + seq![']'];
    let e0 = es[0];
    let enc0 = spec_encode(e0);
    lemma_sub_index(s, i, whole);
    lemma_encode_starts(e0);
    if es.len() == 1 {
        assert(el == enc0);
        assert(s.subrange(i, i + enc0.len() as int) =~= enc0) by {
            assert forall|q: int| 0 <= q < enc0.len() implies s[i + q] == enc0[q] by {
                assert(s[i + q] == whole[q]);
            }
        }
        assert(s[i + enc0.len() as int] == whole[enc0.len() as int]);
        assert(whole[enc0.len() as int] == ']');
        assert(!num_extender(']'));
        lemma_round_value(s, i, e0);
        let j = i + enc0.len();
        assert(spec_skip_ws(s, j) == j);
        assert(seq![e0] =~= es);
    } else {
        let rest = es.drop_first();
        let elr = spec_encode_elems(rest);
        assert(el == enc0 + seq![','] + elr);
        assert forall|q: int| 0 <= q < enc0.len() implies s[i + q] == enc0[q] by {
            assert(s[i + q] == whole[q]);
            assert(whole[q] == ((enc0 + seq![',']) + elr)[q]);
            assert(((enc0 + seq![',']) + elr)[q] == (enc0 + seq![','])[q]);
        }
        assert(s.subrange(i, i + enc0.len() as int) =~= enc0);
        let j = i + enc0.len();
        assert(s[j] == whole[enc0.len() as int]);
        assert(whole[enc0.len() as int] == ((enc0 + seq![',']) + elr)[enc0.len() as int]);
        assert(s[j] == ',');
        assert(!num_extender(','));
        lemma_round_value(s, i, e0);
        assert(spec_skip_ws(s, j) == j);
        // the tail after the comma encodes the remaining elements
        assert(rest.len() >= 1);
        lemma_encode_starts(rest[0]);
        assert(elr[0] == spec_encode(rest[0])[0]);
        lemma_value_start_apart(elr[0]);
        assert forall|q: int| 0 <= q < elr.len() + 1 implies s[j + 1 + q] == (elr
            + seq![']'])[q] by {
            assert(s[j + 1 + q] == whole[enc0.len() + 1 + q]);
        }
        assert(s[j + 1] == elr[0]);
        assert(spec_skip_ws(s, j + 1) == j + 1);
        assert(s.subrange(j + 1, j + 1 + elr.len() + 1) =~= elr + seq![']']);
        lemma_round_elems(s, j + 1, rest);
        assert(seq![e0] + rest =~= es);
        assert(i + el.len() + 1 == j + 1 + elr.len() + 1);
    }
}

/// Parsing the canonical encoding of a non-empty member list followed by
/// `}` gives the members back.
#[verifier::rlimit(100)]
#[verifier::spinoff_prover]
pub proof fn lemma_round_members(s: Seq<char>, i: int, ms: Seq<(Seq<char>, JsonV)>)
    requires
        forall|q: int| 0 <= q < ms.len() ==> plain_nums((#[trigger] ms[q]).1),
        ms.len() >= 1,
        0 <= i,
        i + spec_encode_members(ms).len() + 1 <= s.len(),
        s.subrange(i, i + spec_encode_members(ms).len() + 1) == spec_encode_members(ms)
            + seq!['}'],
    ensures
        spec_parse_members(s, i) == Some((ms, i + spec_encode_members(ms).len() + 1)),
    decreases ms,
{
    let el = spec_encode_members(ms);
    let whole = el + seq!['}'];
    let key = ms[0].0;
    let v0 = ms[0].1;
    let esc = spec_escape(key);
    let encv = spec_encode(v0);
    let m0 = seq!['"'] + esc + seq!['"', ':'] + encv;
    assert(m0.len() == esc.len() + 3 + encv.len());
    lemma_sub_index(s, i, whole);
    lemma_encode_starts(v0);
    // the member encoding, character by character
    assert forall|q: int| 0 <= q < m0.len() implies m0[q] == (if q == 0 {
        '"'
    } else if q < 1 + esc.len() {
        esc[q - 1]
    } else if q == 1 + esc.len() {
        '"'
    } else if q == 2 + esc.len() {
        ':'
    } else {
        encv[q - 3 - esc.len()]
    }) by {
        assert(m0 == ((seq!['"'] + esc) + seq!['"', ':']) + encv);
    }
    if ms.len() == 1 {
        assert(el == m0);
    } else {
        assert(el == m0 + seq![','] + spec_encode_members(ms.drop_first()));
        assert forall|q: int| 0 <= q < m0.len() implies el[q] == m0[q] by {
            assert(el == (m0 + seq![',']) + spec_encode_members(ms.drop_first()));
            assert(el[q] == (m0 + seq![','])[q]);
        }
    }
    assert(s[i] == whole[0]);
    assert(whole[0] == el[0]);
    assert(el[0] == m0[0]);
    assert(s[i] == '"');
    // the escaped key, closing quote
    assert forall|q: int| 0 <= q < esc.len() + 1 implies s[i + 1 + q] == (esc + seq!['"'])[q] by {
        assert(s[i + 1 + q] == whole[1 + q]);
        assert(whole[1 + q] == el[1 + q]);
        assert(el[1 + q] == m0[1 + q]);
    }
    assert(s.subrange(i + 1, i + 1 + esc.len() + 1) =~= esc + seq!['"']);
    lemma_round_string(s, i + 1, key);
    let j = i + 1 + esc.len() + 1;
    assert(spec_parse_string(s, i + 1) == Some((key, j)));
    // the colon
    assert(s[j] == whole[j - i]);
    assert(whole[j - i] == el[j - i]);
    assert(el[j - i] == m0[j - i]);
    assert(s[j] == ':');
    assert(spec_skip_ws(s, j) == j);
    // the value
    let m = j + 1;
    assert forall|q: int| 0 <= q < encv.len() implies s[m + q] == encv[q] by {
        assert(s[m + q] == whole[m - i + q]);
        assert(whole[m - i + q] == el[m - i + q]);
        assert(el[m - i + q] == m0[m - i + q]);
    }
    assert(s.subrange(m, m + encv.len() as int) =~= encv);
    let p = m + encv.len();
    assert(s[p] == whole[p - i]);
    if ms.len() == 1 {
        assert(whole[p - i] == '}');
        assert(!num_extender('}'));
        lemma_round_value(s, m, v0);
        assert(s[m] == encv[0]);
        lemma_value_start_apart(encv[0]);
        assert(spec_skip_ws(s, m) == m);
        assert(spec_skip_ws(s, p) == p);
        assert(seq![(key, v0)] =~= ms);
        assert(spec_parse_members(s, i) == Some((ms, p + 1)));
        assert(p + 1 == i + el.len() + 1);
    } else {
        let rest = ms.drop_first();
        let elr = spec_encode_members(rest);
        assert(el == m0 + seq![','] + elr);
        assert(whole[p - i] == el[p - i]);
        assert(el[p - i] == ((m0 + seq![',']) + elr)[p - i]);
        assert(s[p] == ',');
        assert(!num_extender(','));
        lemma_round_value(s, m, v0);
        assert(s[m] == encv[0]);
        lemma_value_start_apart(encv[0]);
        assert(spec_skip_ws(s, m) == m);
        assert(spec_skip_ws(s, p) == p);
        // the tail after the comma encodes the remaining members
        assert(rest.len() >= 1);
        let restm0 = seq!['"'] + spec_escape(rest[0].0) + seq!['"', ':'] + spec_encode(rest[0].1);
        assert(elr[0] == restm0[0]) by {
            if rest.len() == 1 {
                assert(elr == restm0);
            } else {
                assert(elr == restm0 + seq![','] + spec_encode_members(rest.drop_first()));
                assert(elr[0] == ((restm0 + seq![',']) + spec_encode_members(
                    rest.drop_first(),
                ))[0]);
            }
        }
        assert(restm0[0] == (((seq!['"'] + spec_escape(rest[0].0)) + seq!['"', ':'])
            + spec_encode(rest[0].1))[0]);
        assert(elr[0] == '"');
        assert forall|q: int| 0 <= q < elr.len() + 1 implies s[p + 1 + q] == (elr
            + seq!['}'])[q] by {
            assert(s[p + 1 + q] == whole[p - i + 1 + q]);
            assert(whole[p - i + 1 + q] == (el + seq!['}'])[p - i + 1 + q]);
            assert((el + seq!['}'])[p - i + 1 + q] == (((m0 + seq![',']) + elr) + seq!['}'])[p - i
                + 1 + q]);
        }
        assert(s[p + 1] == elr[0]);
        assert(spec_skip_ws(s, p + 1) == p + 1);
        assert(s.subrange(p + 1, p + 1 + elr.len() + 1) =~= elr + seq!['}']);
        lemma_round_members(s, p + 1, rest);
        assert(seq![(key, v0)] + rest =~= ms);
        assert(i + el.len() + 1 == p + 1 + elr.len() + 1);
    }
}

/// Parsing the canonical encoding of a JSON value whose numbers are plain
/// unsigned integers (all this crate's encoders ever produce) gives the
/// value back.
pub proof fn lemma_json_round_trip(v: JsonV)
    requires
        plain_nums(v),
    ensures
        spec_parse_json(spec_encode(v)) == Some(v),
{
    let e = spec_encode(v);
    lemma_encode_starts(v);
    lemma_value_start_apart(e[0]);
    assert(spec_skip_ws(e, 0) == 0);
    assert(e.subrange(0, e.len() as int) =~= e);
    lemma_round_value(e, 0, v);
    assert(spec_skip_ws(e, e.len() as int) == e.len());
}

/// Look up the value of the first member with the given key, starting at
/// position `i`.
pub open spec fn jget_from(ms: Seq<(Seq<char>, JsonV)>, k: Seq<char>, i: int) -> Option<JsonV>
    decreases ms.len() - i,
{
    if !(0 <= i && i < ms.len()) {
        None
    } else if ms[i].0 == k {
        Some(ms[i].1)
    } else {
        jget_from(ms, k, i + 1)
    }
}

/// Look up the value of the first member with the given key.
pub open spec fn jget(ms: Seq<(Seq<char>, JsonV)>, k: Seq<char>) -> Option<JsonV> {
    jget_from(ms, k, 0)
}

/// Executable member lookup by key.
pub fn jget_exec<'a>(ms: &'a Vec<(String, Json)>, k: &str) -> (r: Option<&'a Json>)
    ensures
        match r {
            Some(x) => jget(jvm(ms@), k@) == Some(jv(*x)),
            None => jget(jvm(ms@), k@) is None,
        },
{
    let n = ms.len();
    for i in 0..n
        invariant
            n == ms.len(),
            jget(jvm(ms@), k@) == jget_from(jvm(ms@), k@, i as int),
    {
        proof {
            assert(jvm(ms@)[i as int] == (ms@[i as int].0@, jv(ms@[i as int].1)));
        }
        if crate::strutil::str_eq(ms[i].0.as_str(), k) {
            return Some(&ms[i].1);
        }
    }
    None
}

} // verus!
