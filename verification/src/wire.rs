//! The status wire format.
//!
//! Status records travel between processes as one JSON object per line:
//! string fields for the display contract and one optional number for the
//! audio level. Field names, their order and their presence rules are a
//! stable contract that outside status-bar tooling parses, so the encoder
//! here is exact: it emits one canonical text per record, and the decoder
//! reads that canonical form back. Both directions are verified against the
//! same specification, and round-trip lemmas tie them together: whatever the
//! encoder produces, for any field content whatsoever, the decoder reads
//! back unchanged — in particular the output is always well-formed.

use vstd::prelude::*;
use crate::level::{Level, LevelV, canon, level_of_chars, level_chars, lemma_level_chars_roundtrip};
use crate::strutil::{is_digit, is_digit_char};

verus! {

// ---------------------------------------------------------------------------
// String escaping
// ---------------------------------------------------------------------------

/// Character for one hexadecimal digit value, lower case.
pub open spec fn hex_char(d: nat) -> char {
    if d == 0 { '0' }
    else if d == 1 { '1' }
    else if d == 2 { '2' }
    else if d == 3 { '3' }
    else if d == 4 { '4' }
    else if d == 5 { '5' }
    else if d == 6 { '6' }
    else if d == 7 { '7' }
    else if d == 8 { '8' }
    else if d == 9 { '9' }
    else if d == 10 { 'a' }
    else if d == 11 { 'b' }
    else if d == 12 { 'c' }
    else if d == 13 { 'd' }
    else if d == 14 { 'e' }
    else { 'f' }
}

/// Value of one lower-case hexadecimal digit character; sixteen for others.
pub open spec fn hex_val(c: char) -> nat {
    if c == '0' { 0 }
    else if c == '1' { 1 }
    else if c == '2' { 2 }
    else if c == '3' { 3 }
    else if c == '4' { 4 }
    else if c == '5' { 5 }
    else if c == '6' { 6 }
    else if c == '7' { 7 }
    else if c == '8' { 8 }
    else if c == '9' { 9 }
    else if c == 'a' { 10 }
    else if c == 'b' { 11 }
    else if c == 'c' { 12 }
    else if c == 'd' { 13 }
    else if c == 'e' { 14 }
    else if c == 'f' { 15 }
    else { 16 }
}

/// Hex digits read back as their values.
pub proof fn lemma_hex_roundtrip(d: nat)
    requires
        d < 16,
    ensures
        hex_val(hex_char(d)) == d,
{
}

/// How one character appears inside a JSON string literal: itself, a
/// two-character short escape, or a six-character `\u00..` escape for the
/// remaining control characters.
pub open spec fn esc_char(c: char) -> Seq<char> {
    if c == '"' {
        seq!['\\', '"']
    } else if c == '\\' {
        seq!['\\', '\\']
    } else if c == '\u{08}' {
        seq!['\\', 'b']
    } else if c == '\u{09}' {
        seq!['\\', 't']
    } else if c == '\u{0a}' {
        seq!['\\', 'n']
    } else if c == '\u{0c}' {
        seq!['\\', 'f']
    } else if c == '\u{0d}' {
        seq!['\\', 'r']
    } else if (c as u32) < 0x20 {
        seq!['\\', 'u', '0', '0', hex_char((c as u32 / 16) as nat), hex_char((c as u32 % 16) as nat)]
    } else {
        seq![c]
    }
}

/// A whole string as it appears between the quotes of a JSON string literal.
pub open spec fn json_escape(s: Seq<char>) -> Seq<char>
    decreases s.len(),
{
    if s.len() == 0 {
        Seq::empty()
    } else {
        esc_char(s[0]) + json_escape(s.skip(1))
    }
}

/// Escaping one more character appends its escape.
pub proof fn lemma_escape_push(s: Seq<char>, c: char)
    ensures
        json_escape(s.push(c)) == json_escape(s) + esc_char(c),
    decreases s.len(),
{
    let p = s.push(c);
    if s.len() == 0 {
        assert(p[0] == c);
        assert(p.skip(1) =~= Seq::<char>::empty());
        assert(json_escape(p.skip(1)) =~= Seq::<char>::empty());
        assert(json_escape(p) =~= esc_char(c));
        assert(json_escape(s) =~= Seq::<char>::empty());
        assert(json_escape(s) + esc_char(c) =~= esc_char(c));
    } else {
        assert(p[0] == s[0]);
        lemma_escape_push(s.skip(1), c);
        assert(p.skip(1) =~= s.skip(1).push(c));
        assert(json_escape(p) == esc_char(s[0]) + json_escape(p.skip(1)));
        assert(json_escape(s) == esc_char(s[0]) + json_escape(s.skip(1)));
        assert(esc_char(s[0]) + (json_escape(s.skip(1)) + esc_char(c)) =~= (esc_char(s[0])
            + json_escape(s.skip(1))) + esc_char(c));
    }
}

/// One lower-case hexadecimal digit as a one-character string.
fn hex_lit(d: u32) -> (r: &'static str)
    requires
        d < 16,
    ensures
        r@ =~= seq![hex_char(d as nat)],
{
    proof {
        reveal_strlit("0");
        reveal_strlit("1");
        reveal_strlit("2");
        reveal_strlit("3");
        reveal_strlit("4");
        reveal_strlit("5");
        reveal_strlit("6");
        reveal_strlit("7");
        reveal_strlit("8");
        reveal_strlit("9");
        reveal_strlit("a");
        reveal_strlit("b");
        reveal_strlit("c");
        reveal_strlit("d");
        reveal_strlit("e");
        reveal_strlit("f");
    }
    if d == 0 { "0" }
    else if d == 1 { "1" }
    else if d == 2 { "2" }
    else if d == 3 { "3" }
    else if d == 4 { "4" }
    else if d == 5 { "5" }
    else if d == 6 { "6" }
    else if d == 7 { "7" }
    else if d == 8 { "8" }
    else if d == 9 { "9" }
    else if d == 10 { "a" }
    else if d == 11 { "b" }
    else if d == 12 { "c" }
    else if d == 13 { "d" }
    else if d == 14 { "e" }
    else { "f" }
}

/// Append the escaped form of `s` to `out`.
#[verifier::loop_isolation(false)]
pub fn append_escaped(out: &mut String, s: &str)
    ensures
        final(out)@ == old(out)@ + json_escape(s@),
{
    let len = s.unicode_len();
    let mut i: usize = 0;
    while i < len
        invariant
            i <= len,
            out@ == old(out)@ + json_escape(s@.take(i as int)),
        decreases len - i,
    {
        let c = s.get_char(i);
        proof {
            lemma_escape_push(s@.take(i as int), c);
            assert(s@.take(i as int + 1) =~= s@.take(i as int).push(c));
        }
        if c == '"' {
            out.append("\\\"");
            proof {
                reveal_strlit("\\\"");
                assert("\\\""@ =~= esc_char(c));
            }
        } else if c == '\\' {
            out.append("\\\\");
            proof {
                reveal_strlit("\\\\");
                assert("\\\\"@ =~= esc_char(c));
            }
        } else if c == '\u{08}' {
            out.append("\\b");
            proof {
                reveal_strlit("\\b");
                assert("\\b"@ =~= esc_char(c));
            }
        } else if c == '\u{09}' {
            out.append("\\t");
            proof {
                reveal_strlit("\\t");
                assert("\\t"@ =~= esc_char(c));
            }
        } else if c == '\u{0a}' {
            out.append("\\n");
            proof {
                reveal_strlit("\\n");
                assert("\\n"@ =~= esc_char(c));
            }
        } else if c == '\u{0c}' {
            out.append("\\f");
            proof {
                reveal_strlit("\\f");
                assert("\\f"@ =~= esc_char(c));
            }
        } else if c == '\u{0d}' {
            out.append("\\r");
            proof {
                reveal_strlit("\\r");
                assert("\\r"@ =~= esc_char(c));
            }
        } else if (c as u32) < 0x20 {
            out.append("\\u00");
            out.append(hex_lit((c as u32) / 16));
            out.append(hex_lit((c as u32) % 16));
            proof {
                reveal_strlit("\\u00");
                assert("\\u00"@ =~= seq!['\\', 'u', '0', '0']);
                assert("\\u00"@ + seq![hex_char(((c as u32) / 16) as nat)] + seq![
                    hex_char(((c as u32) % 16) as nat)
                ] =~= esc_char(c));
            }
        } else {
            let piece = s.substring_char(i, i + 1);
            out.append(piece);
            proof {
                assert(piece@ =~= seq![c]);
                assert(piece@ =~= esc_char(c));
            }
        }
        i = i + 1;
    }
    proof {
        assert(s@.take(len as int) =~= s@);
    }
}

// ---------------------------------------------------------------------------
// String literal reading
// ---------------------------------------------------------------------------

/// Read the body of a JSON string literal: `s` starts right after the
/// opening quote; the result is the decoded content and what follows the
/// closing quote. Only the escapes the encoder writes are understood.
pub open spec fn parse_str_body(s: Seq<char>) -> Option<(Seq<char>, Seq<char>)>
    decreases s.len(),
{
    if s.len() == 0 {
        Option::None
    } else if s[0] == '"' {
        Option::Some((Seq::empty(), s.skip(1)))
    } else if s[0] == '\\' {
        if s.len() < 2 {
            Option::None
        } else {
            let e = s[1];
            if e == '"' || e == '\\' || e == 'b' || e == 't' || e == 'n' || e == 'f' || e == 'r' {
                match parse_str_body(s.skip(2)) {
                    Option::Some(p) => Option::Some((seq![short_unescape(e)] + p.0, p.1)),
                    Option::None => Option::None,
                }
            } else if e == 'u' {
                if s.len() < 6 {
                    Option::None
                } else if s[2] == '0' && s[3] == '0' && hex_val(s[4]) < 16 && hex_val(s[5]) < 16
                    && (hex_val(s[4]) * 16 + hex_val(s[5])) < 0x20 {
                    match parse_str_body(s.skip(6)) {
                        Option::Some(p) => Option::Some(
                            (seq![(((hex_val(s[4]) * 16 + hex_val(s[5])) as u32) as char)] + p.0,
                            p.1),
                        ),
                        Option::None => Option::None,
                    }
                } else {
                    Option::None
                }
            } else {
                Option::None
            }
        }
    } else if (s[0] as u32) < 0x20 {
        Option::None
    } else {
        match parse_str_body(s.skip(1)) {
            Option::Some(p) => Option::Some((seq![s[0]] + p.0, p.1)),
            Option::None => Option::None,
        }
    }
}

/// The character of a two-character escape.
pub open spec fn short_unescape(e: char) -> char {
    if e == '"' { '"' }
    else if e == '\\' { '\\' }
    else if e == 'b' { '\u{08}' }
    else if e == 't' { '\u{09}' }
    else if e == 'n' { '\u{0a}' }
    else if e == 'f' { '\u{0c}' }
    else { '\u{0d}' }
}

/// Whatever the content, reading an escaped string back yields the content
/// and exactly what followed the closing quote.
pub proof fn lemma_read_escaped(s: Seq<char>, rest: Seq<char>)
    ensures
        parse_str_body(json_escape(s) + seq!['"'] + rest) == Option::Some((s, rest)),
    decreases s.len(),
{
    let input = json_escape(s) + seq!['"'] + rest;
    if s.len() == 0 {
        assert(json_escape(s) =~= Seq::<char>::empty());
        assert(input =~= seq!['"'] + rest);
        assert(input[0] == '"');
        assert(input.skip(1) =~= rest);
    } else {
        let c = s[0];
        let tail = s.skip(1);
        lemma_read_escaped(tail, rest);
        let sub = json_escape(tail) + seq!['"'] + rest;
        assert(json_escape(s) == esc_char(c) + json_escape(tail));
        assert(input =~= esc_char(c) + sub);
        let e = esc_char(c);
        if c == '"' || c == '\\' {
            assert(e.len() == 2 && e[0] == '\\');
            assert(input[0] == '\\' && input[1] == e[1]);
            assert(input.len() >= 2);
            assert(input.skip(2) =~= sub);
            assert(short_unescape(e[1]) == c);
            assert(seq![c] + tail =~= s);
        } else if c == '\u{08}' || c == '\u{09}' || c == '\u{0a}' || c == '\u{0c}' || c
            == '\u{0d}' {
            assert(e.len() == 2 && e[0] == '\\');
            assert(input[0] == '\\' && input[1] == e[1]);
            assert(input.skip(2) =~= sub);
            assert(short_unescape(e[1]) == c);
            assert(seq![c] + tail =~= s);
        } else if (c as u32) < 0x20 {
            let n = c as u32;
            let h = (n / 16) as nat;
            let l = (n % 16) as nat;
            assert(e.len() == 6);
            assert(e[0] == '\\' && e[1] == 'u' && e[2] == '0' && e[3] == '0');
            assert(input[0] == '\\' && input[1] == 'u' && input[2] == '0' && input[3] == '0');
            assert(input[4] == hex_char(h) && input[5] == hex_char(l));
            assert(h < 2 && l < 16);
            lemma_hex_roundtrip(h);
            lemma_hex_roundtrip(l);
            assert(hex_val(input[4]) == h && hex_val(input[5]) == l);
            assert(h * 16 + l == n) by {
                assert(n / 16 * 16 + n % 16 == n) by (nonlinear_arith);
            }
            assert(h * 16 + l < 0x20);
            assert((((hex_val(input[4]) * 16 + hex_val(input[5])) as u32) as char) == c) by {
                vstd::utf8::char_u32_cast(c, n);
            }
            assert(input.skip(6) =~= sub);
            assert(seq![c] + tail =~= s);
        } else {
            assert(e =~= seq![c]);
            assert(input[0] == c);
            assert(c != '"' && c != '\\' && (c as u32) >= 0x20);
            assert(input.skip(1) =~= sub);
            assert(seq![c] + tail =~= s);
        }
    }
}

// ---------------------------------------------------------------------------
// Field values and the object grammar
// ---------------------------------------------------------------------------

/// Content of one field of a status record: a string or a level number.
pub enum JsonValV {
    S(Seq<char>),
    N(LevelV),
}

/// Executable field value.
pub enum FieldVal {
    S(String),
    N(Level),
}

impl View for FieldVal {
    type V = JsonValV;

    open spec fn view(&self) -> JsonValV {
        match self {
            FieldVal::S(s) => JsonValV::S(s@),
            FieldVal::N(l) => JsonValV::N(l@),
        }
    }
}

/// A value the encoder can emit: any string; only canonical levels.
pub open spec fn wf_val(v: JsonValV) -> bool {
    match v {
        JsonValV::S(_) => true,
        JsonValV::N(l) => canon(l),
    }
}

/// Field lists the encoder can emit.
pub open spec fn wf_fields(fs: Seq<(Seq<char>, JsonValV)>) -> bool {
    forall|i: int| 0 <= i < fs.len() ==> wf_val(#[trigger] fs[i].1)
}

// ---------------------------------------------------------------------------
// Encoding
// ---------------------------------------------------------------------------

/// One encoded value: a quoted escaped string, or a canonical number.
pub open spec fn encode_val(v: JsonValV) -> Seq<char> {
    match v {
        JsonValV::S(s) => seq!['"'] + json_escape(s) + seq!['"'],
        JsonValV::N(l) => level_chars(l),
    }
}

/// One encoded `"key":value` pair.
pub open spec fn encode_pair(k: Seq<char>, v: JsonValV) -> Seq<char> {
    seq!['"'] + json_escape(k) + seq!['"', ':'] + encode_val(v)
}

/// The encoded pairs after the first, each preceded by a comma.
pub open spec fn encode_fields_rest(fs: Seq<(Seq<char>, JsonValV)>) -> Seq<char>
    decreases fs.len(),
{
    if fs.len() == 0 {
        Seq::empty()
    } else {
        seq![','] + encode_pair(fs[0].0, fs[0].1) + encode_fields_rest(fs.skip(1))
    }
}

/// A whole encoded object.
pub open spec fn encode_fields(fs: Seq<(Seq<char>, JsonValV)>) -> Seq<char> {
    if fs.len() == 0 {
        seq!['{', '}']
    } else {
        seq!['{'] + encode_pair(fs[0].0, fs[0].1) + encode_fields_rest(fs.skip(1)) + seq!['}']
    }
}

// ---------------------------------------------------------------------------
// Reading
// ---------------------------------------------------------------------------

/// Length of the leading run of number characters.
pub open spec fn num_len(s: Seq<char>) -> nat
    decreases s.len(),
{
    if s.len() == 0 {
        0
    } else if is_digit(s[0]) || s[0] == '.' {
        1 + num_len(s.skip(1))
    } else {
        0
    }
}

/// Read a number token: the leading run of number characters must denote a
/// level in range, in which case the level and the rest follow.
pub open spec fn parse_number(s: Seq<char>) -> Option<(LevelV, Seq<char>)> {
    let n = num_len(s) as int;
    if n == 0 {
        Option::None
    } else {
        match level_of_chars(s.take(n)) {
            Option::Some(v) => Option::Some((v, s.skip(n))),
            Option::None => Option::None,
        }
    }
}

/// Read one value: a string literal or a number token.
pub open spec fn parse_value(s: Seq<char>) -> Option<(JsonValV, Seq<char>)> {
    if s.len() == 0 {
        Option::None
    } else if s[0] == '"' {
        match parse_str_body(s.skip(1)) {
            Option::Some(p) => Option::Some((JsonValV::S(p.0), p.1)),
            Option::None => Option::None,
        }
    } else {
        match parse_number(s) {
            Option::Some(p) => Option::Some((JsonValV::N(p.0), p.1)),
            Option::None => Option::None,
        }
    }
}

/// What a string literal read leaves over is strictly shorter than what it
/// was given.
pub proof fn lemma_str_body_shrinks(s: Seq<char>)
    ensures
        parse_str_body(s) matches Option::Some(p) ==> p.1.len() < s.len(),
    decreases s.len(),
{
    if s.len() == 0 {
    } else if s[0] == '"' {
    } else if s[0] == '\\' {
        if s.len() >= 2 {
            lemma_str_body_shrinks(s.skip(2));
            if s.len() >= 6 {
                lemma_str_body_shrinks(s.skip(6));
            }
        }
    } else {
        lemma_str_body_shrinks(s.skip(1));
    }
}

/// The same for the number run.
pub proof fn lemma_num_len_bound(s: Seq<char>)
    ensures
        num_len(s) <= s.len(),
    decreases s.len(),
{
    if s.len() > 0 && (is_digit(s[0]) || s[0] == '.') {
        lemma_num_len_bound(s.skip(1));
    }
}

/// The same for a value read.
pub proof fn lemma_value_shrinks(s: Seq<char>)
    ensures
        parse_value(s) matches Option::Some(p) ==> p.1.len() < s.len(),
{
    if s.len() > 0 && s[0] == '"' {
        lemma_str_body_shrinks(s.skip(1));
    } else {
        lemma_num_len_bound(s);
    }
}

/// Read the pairs of an object, starting right after the opening brace or a
/// separating comma; ends at the closing brace.
pub open spec fn parse_pairs(s: Seq<char>) -> Option<(Seq<(Seq<char>, JsonValV)>, Seq<char>)>
    decreases s.len(),
        via parse_pairs_dec
{
    if s.len() == 0 || s[0] != '"' {
        Option::None
    } else {
        match parse_str_body(s.skip(1)) {
            Option::None => Option::None,
            Option::Some((key, r1)) => {
                if r1.len() == 0 || r1[0] != ':' {
                    Option::None
                } else {
                    match parse_value(r1.skip(1)) {
                        Option::None => Option::None,
                        Option::Some((v, r2)) => {
                            if r2.len() == 0 {
                                Option::None
                            } else if r2[0] == ',' {
                                match parse_pairs(r2.skip(1)) {
                                    Option::None => Option::None,
                                    Option::Some((fs, r3)) => Option::Some(
                                        (seq![(key, v)] + fs, r3),
                                    ),
                                }
                            } else if r2[0] == '}' {
                                Option::Some((seq![(key, v)], r2.skip(1)))
                            } else {
                                Option::None
                            }
                        },
                    }
                }
            },
        }
    }
}

#[via_fn]
proof fn parse_pairs_dec(s: Seq<char>) {
    if s.len() > 0 && s[0] == '"' {
        lemma_str_body_shrinks(s.skip(1));
        match parse_str_body(s.skip(1)) {
            Option::None => {},
            Option::Some((key, r1)) => {
                if r1.len() > 0 && r1[0] == ':' {
                    lemma_value_shrinks(r1.skip(1));
                }
            },
        }
    }
}

/// Read a whole object from the opening brace on.
pub open spec fn parse_object(s: Seq<char>) -> Option<(Seq<(Seq<char>, JsonValV)>, Seq<char>)> {
    if s.len() >= 2 && s[0] == '{' && s[1] == '}' {
        Option::Some((Seq::empty(), s.skip(2)))
    } else if s.len() > 0 && s[0] == '{' {
        parse_pairs(s.skip(1))
    } else {
        Option::None
    }
}

/// Read one whole status line: an object and nothing after it.
pub open spec fn parse_line(s: Seq<char>) -> Option<Seq<(Seq<char>, JsonValV)>> {
    match parse_object(s) {
        Option::Some((fs, rest)) => if rest.len() == 0 {
            Option::Some(fs)
        } else {
            Option::None
        },
        Option::None => Option::None,
    }
}

// ---------------------------------------------------------------------------
// Round trip
// ---------------------------------------------------------------------------

/// The number run of a number text with a non-number continuation is the
/// number text itself.
proof fn lemma_num_len_concat(a: Seq<char>, rest: Seq<char>)
    requires
        forall|j: int| 0 <= j < a.len() ==> (is_digit(a[j]) || a[j] == '.'),
        rest.len() > 0 ==> !(is_digit(rest[0]) || rest[0] == '.'),
    ensures
        num_len(a + rest) == a.len(),
    decreases a.len(),
{
    let s = a + rest;
    if a.len() == 0 {
        assert(s =~= rest);
    } else {
        assert(s[0] == a[0]);
        lemma_num_len_concat(a.skip(1), rest);
        assert(s.skip(1) =~= a.skip(1) + rest);
    }
}

/// Reading back an encoded value consumes exactly the encoding, as long as
/// a number is not followed by more number characters.
proof fn lemma_read_value(v: JsonValV, rest: Seq<char>)
    requires
        wf_val(v),
        rest.len() > 0 ==> !(is_digit(rest[0]) || rest[0] == '.'),
        rest.len() > 0 ==> rest[0] != '"',
    ensures
        parse_value(encode_val(v) + rest) == Option::Some((v, rest)),
{
    let input = encode_val(v) + rest;
    match v {
        JsonValV::S(str0) => {
            assert(input[0] == '"');
            assert(input.skip(1) =~= json_escape(str0) + seq!['"'] + rest);
            lemma_read_escaped(str0, rest);
        },
        JsonValV::N(l) => {
            lemma_level_chars_roundtrip(l);
            let a = level_chars(l);
            assert(input[0] == a[0]);
            assert(is_digit(input[0]));
            assert(input[0] != '"');
            assert(input.len() > 0);
            lemma_num_len_concat(a, rest);
            assert(num_len(input) == a.len());
            assert(input.take(a.len() as int) =~= a);
            assert(input.skip(a.len() as int) =~= rest);
            assert(level_of_chars(a) == Option::Some(l));
        },
    }
}

/// Reading back encoded pairs yields the pairs and what follows the brace.
#[verifier::rlimit(100)]
proof fn lemma_read_pairs(fs: Seq<(Seq<char>, JsonValV)>, rest: Seq<char>)
    requires
        wf_fields(fs),
        fs.len() > 0,
    ensures
        parse_pairs(
            encode_pair(fs[0].0, fs[0].1) + encode_fields_rest(fs.skip(1)) + seq!['}'] + rest,
        ) == Option::Some((fs, rest)),
    decreases fs.len(),
{
    let k = fs[0].0;
    let v = fs[0].1;
    let tail_enc = encode_fields_rest(fs.skip(1)) + seq!['}'] + rest;
    let input = encode_pair(k, v) + tail_enc;
    assert(input =~= encode_pair(fs[0].0, fs[0].1) + encode_fields_rest(fs.skip(1)) + seq!['}']
        + rest);
    assert(input[0] == '"');
    assert(input.skip(1) =~= json_escape(k) + seq!['"'] + (seq![':'] + encode_val(v) + tail_enc));
    lemma_read_escaped(k, seq![':'] + encode_val(v) + tail_enc);
    let r1 = seq![':'] + encode_val(v) + tail_enc;
    assert(parse_str_body(input.skip(1)) == Option::Some((k, r1)));
    assert(r1[0] == ':');
    assert(r1.skip(1) =~= encode_val(v) + tail_enc);
    if fs.len() == 1 {
        assert(fs.skip(1).len() == 0);
        assert(encode_fields_rest(fs.skip(1)) =~= Seq::<char>::empty());
        assert(tail_enc =~= seq!['}'] + rest);
        assert(tail_enc[0] == '}');
        lemma_read_value(v, tail_enc);
        assert(parse_value(r1.skip(1)) == Option::Some((v, tail_enc)));
        assert(tail_enc.skip(1) =~= rest);
        assert(parse_pairs(input) == Option::Some((seq![(k, v)], rest)));
        assert(seq![(k, v)] =~~= fs);
        assert(parse_pairs(input) == Option::Some((fs, rest)));
    } else {
        let fs1 = fs.skip(1);
        assert(fs1.len() > 0);
        assert(wf_fields(fs1)) by {
            assert(forall|i: int| 0 <= i < fs1.len() ==> fs1[i] == fs[i + 1]);
        }
        assert(encode_fields_rest(fs1) == seq![','] + encode_pair(fs1[0].0, fs1[0].1)
            + encode_fields_rest(fs1.skip(1)));
        let r2 = seq![','] + (encode_pair(fs1[0].0, fs1[0].1) + encode_fields_rest(fs1.skip(1))
            + seq!['}'] + rest);
        assert(tail_enc =~= r2);
        assert(r2[0] == ',');
        lemma_read_value(v, r2);
        assert(parse_value(r1.skip(1)) == Option::Some((v, r2)));
        lemma_read_pairs(fs1, rest);
        assert(r2.skip(1) =~= encode_pair(fs1[0].0, fs1[0].1) + encode_fields_rest(fs1.skip(1))
            + seq!['}'] + rest);
        assert(parse_pairs(r2.skip(1)) == Option::Some((fs1, rest)));
        assert(parse_pairs(input) == Option::Some((seq![(k, v)] + fs1, rest)));
        assert(seq![(k, v)] + fs1 =~~= fs);
        assert(parse_pairs(input) == Option::Some((fs, rest)));
    }
}

/// THE round trip: reading back any encoded object yields exactly the
/// fields that were encoded. In particular the encoder's output is always a
/// well-formed object, whatever the field contents.
pub proof fn lemma_encode_roundtrip(fs: Seq<(Seq<char>, JsonValV)>)
    requires
        wf_fields(fs),
    ensures
        parse_line(encode_fields(fs)) == Option::Some(fs),
{
    let s = encode_fields(fs);
    if fs.len() == 0 {
        assert(s =~= seq!['{', '}']);
        assert(s.skip(2) =~= Seq::<char>::empty());
        assert(Seq::<(Seq<char>, JsonValV)>::empty() =~= fs);
    } else {
        assert(s[0] == '{');
        assert(s[1] == '"') by {
            assert(encode_pair(fs[0].0, fs[0].1)[0] == '"');
        }
        assert(s.skip(1) =~= encode_pair(fs[0].0, fs[0].1) + encode_fields_rest(fs.skip(1))
            + seq!['}'] + Seq::<char>::empty());
        lemma_read_pairs(fs, Seq::<char>::empty());
        assert(parse_pairs(s.skip(1)) == Option::Some((fs, Seq::<char>::empty())));
    }
}


// ---------------------------------------------------------------------------
// Executable reading
// ---------------------------------------------------------------------------

/// One control character as a one-character string.
fn control_lit(code: u32) -> (r: &'static str)
    requires
        code < 0x20,
    ensures
        r@ =~= seq![(code as char)],
{
    proof {
        reveal_strlit("\u{00}");
        assert('\u{00}' as u32 == 0);
        vstd::utf8::char_u32_cast('\u{00}', 0);
        reveal_strlit("\u{01}");
        assert('\u{01}' as u32 == 1);
        vstd::utf8::char_u32_cast('\u{01}', 1);
        reveal_strlit("\u{02}");
        assert('\u{02}' as u32 == 2);
        vstd::utf8::char_u32_cast('\u{02}', 2);
        reveal_strlit("\u{03}");
        assert('\u{03}' as u32 == 3);
        vstd::utf8::char_u32_cast('\u{03}', 3);
        reveal_strlit("\u{04}");
        assert('\u{04}' as u32 == 4);
        vstd::utf8::char_u32_cast('\u{04}', 4);
        reveal_strlit("\u{05}");
        assert('\u{05}' as u32 == 5);
        vstd::utf8::char_u32_cast('\u{05}', 5);
        reveal_strlit("\u{06}");
        assert('\u{06}' as u32 == 6);
        vstd::utf8::char_u32_cast('\u{06}', 6);
        reveal_strlit("\u{07}");
        assert('\u{07}' as u32 == 7);
        vstd::utf8::char_u32_cast('\u{07}', 7);
        reveal_strlit("\u{08}");
        assert('\u{08}' as u32 == 8);
        vstd::utf8::char_u32_cast('\u{08}', 8);
        reveal_strlit("\u{09}");
        assert('\u{09}' as u32 == 9);
        vstd::utf8::char_u32_cast('\u{09}', 9);
        reveal_strlit("\u{0a}");
        assert('\u{0a}' as u32 == 10);
        vstd::utf8::char_u32_cast('\u{0a}', 10);
        reveal_strlit("\u{0b}");
        assert('\u{0b}' as u32 == 11);
        vstd::utf8::char_u32_cast('\u{0b}', 11);
        reveal_strlit("\u{0c}");
        assert('\u{0c}' as u32 == 12);
        vstd::utf8::char_u32_cast('\u{0c}', 12);
        reveal_strlit("\u{0d}");
        assert('\u{0d}' as u32 == 13);
        vstd::utf8::char_u32_cast('\u{0d}', 13);
        reveal_strlit("\u{0e}");
        assert('\u{0e}' as u32 == 14);
        vstd::utf8::char_u32_cast('\u{0e}', 14);
        reveal_strlit("\u{0f}");
        assert('\u{0f}' as u32 == 15);
        vstd::utf8::char_u32_cast('\u{0f}', 15);
        reveal_strlit("\u{10}");
        assert('\u{10}' as u32 == 16);
        vstd::utf8::char_u32_cast('\u{10}', 16);
        reveal_strlit("\u{11}");
        assert('\u{11}' as u32 == 17);
        vstd::utf8::char_u32_cast('\u{11}', 17);
        reveal_strlit("\u{12}");
        assert('\u{12}' as u32 == 18);
        vstd::utf8::char_u32_cast('\u{12}', 18);
        reveal_strlit("\u{13}");
        assert('\u{13}' as u32 == 19);
        vstd::utf8::char_u32_cast('\u{13}', 19);
        reveal_strlit("\u{14}");
        assert('\u{14}' as u32 == 20);
        vstd::utf8::char_u32_cast('\u{14}', 20);
        reveal_strlit("\u{15}");
        assert('\u{15}' as u32 == 21);
        vstd::utf8::char_u32_cast('\u{15}', 21);
        reveal_strlit("\u{16}");
        assert('\u{16}' as u32 == 22);
        vstd::utf8::char_u32_cast('\u{16}', 22);
        reveal_strlit("\u{17}");
        assert('\u{17}' as u32 == 23);
        vstd::utf8::char_u32_cast('\u{17}', 23);
        reveal_strlit("\u{18}");
        assert('\u{18}' as u32 == 24);
        vstd::utf8::char_u32_cast('\u{18}', 24);
        reveal_strlit("\u{19}");
        assert('\u{19}' as u32 == 25);
        vstd::utf8::char_u32_cast('\u{19}', 25);
        reveal_strlit("\u{1a}");
        assert('\u{1a}' as u32 == 26);
        vstd::utf8::char_u32_cast('\u{1a}', 26);
        reveal_strlit("\u{1b}");
        assert('\u{1b}' as u32 == 27);
        vstd::utf8::char_u32_cast('\u{1b}', 27);
        reveal_strlit("\u{1c}");
        assert('\u{1c}' as u32 == 28);
        vstd::utf8::char_u32_cast('\u{1c}', 28);
        reveal_strlit("\u{1d}");
        assert('\u{1d}' as u32 == 29);
        vstd::utf8::char_u32_cast('\u{1d}', 29);
        reveal_strlit("\u{1e}");
        assert('\u{1e}' as u32 == 30);
        vstd::utf8::char_u32_cast('\u{1e}', 30);
        reveal_strlit("\u{1f}");
        assert('\u{1f}' as u32 == 31);
        vstd::utf8::char_u32_cast('\u{1f}', 31);
    }
    if code == 0 { "\u{00}" }
    else if code == 1 { "\u{01}" }
    else if code == 2 { "\u{02}" }
    else if code == 3 { "\u{03}" }
    else if code == 4 { "\u{04}" }
    else if code == 5 { "\u{05}" }
    else if code == 6 { "\u{06}" }
    else if code == 7 { "\u{07}" }
    else if code == 8 { "\u{08}" }
    else if code == 9 { "\u{09}" }
    else if code == 10 { "\u{0a}" }
    else if code == 11 { "\u{0b}" }
    else if code == 12 { "\u{0c}" }
    else if code == 13 { "\u{0d}" }
    else if code == 14 { "\u{0e}" }
    else if code == 15 { "\u{0f}" }
    else if code == 16 { "\u{10}" }
    else if code == 17 { "\u{11}" }
    else if code == 18 { "\u{12}" }
    else if code == 19 { "\u{13}" }
    else if code == 20 { "\u{14}" }
    else if code == 21 { "\u{15}" }
    else if code == 22 { "\u{16}" }
    else if code == 23 { "\u{17}" }
    else if code == 24 { "\u{18}" }
    else if code == 25 { "\u{19}" }
    else if code == 26 { "\u{1a}" }
    else if code == 27 { "\u{1b}" }
    else if code == 28 { "\u{1c}" }
    else if code == 29 { "\u{1d}" }
    else if code == 30 { "\u{1e}" }
    else { "\u{1f}" }
}

/// One short escape's character as a one-character string.
fn short_unescape_lit(e: char) -> (r: &'static str)
    requires
        e == '"' || e == '\\' || e == 'b' || e == 't' || e == 'n' || e == 'f' || e == 'r',
    ensures
        r@ =~= seq![short_unescape(e)],
{
    proof {
        reveal_strlit("\"");
        reveal_strlit("\\");
        reveal_strlit("\u{08}");
        reveal_strlit("\t");
        reveal_strlit("\n");
        reveal_strlit("\u{0c}");
        reveal_strlit("\r");
    }
    if e == '"' { "\"" }
    else if e == '\\' { "\\" }
    else if e == 'b' { "\u{08}" }
    else if e == 't' { "\t" }
    else if e == 'n' { "\n" }
    else if e == 'f' { "\u{0c}" }
    else { "\r" }
}

/// Value of one lower-case hexadecimal digit character; sixteen for others.
fn hex_val_of(c: char) -> (r: u32)
    ensures
        r as nat == hex_val(c),
{
    if c == '0' { 0 }
    else if c == '1' { 1 }
    else if c == '2' { 2 }
    else if c == '3' { 3 }
    else if c == '4' { 4 }
    else if c == '5' { 5 }
    else if c == '6' { 6 }
    else if c == '7' { 7 }
    else if c == '8' { 8 }
    else if c == '9' { 9 }
    else if c == 'a' { 10 }
    else if c == 'b' { 11 }
    else if c == 'c' { 12 }
    else if c == 'd' { 13 }
    else if c == 'e' { 14 }
    else if c == 'f' { 15 }
    else { 16 }
}

/// Read a string literal's body from `from`, which stands just after the
/// opening quote; on success, the decoded content and the position just
/// after the closing quote.
#[verifier::loop_isolation(false)]
#[verifier::rlimit(100)]
fn scan_string(s: &str, from: usize) -> (r: Option<(String, usize)>)
    requires
        from <= s@.len(),
    ensures
        match r {
            Option::Some(p) => from < p.1 <= s@.len() && parse_str_body(s@.skip(from as int))
                == Option::Some((p.0@, s@.skip(p.1 as int))),
            Option::None => parse_str_body(s@.skip(from as int)) is None,
        },
{
    let len = s.unicode_len();
    let mut pos = from;
    let mut acc = String::new();
    loop
        invariant
            from <= pos <= len,
            parse_str_body(s@.skip(from as int)) == (match parse_str_body(s@.skip(pos as int)) {
                Option::Some(p) => Option::Some((acc@ + p.0, p.1)),
                Option::None => Option::None::<(Seq<char>, Seq<char>)>,
            }),
        decreases len - pos,
    {
        let ghost tpos = s@.skip(pos as int);
        if pos == len {
            proof {
                assert(tpos.len() == 0);
            }
            return Option::None;
        }
        let c = s.get_char(pos);
        proof {
            assert(tpos.len() == len - pos);
            assert(tpos[0] == c);
        }
        if c == '"' {
            proof {
                assert(tpos.skip(1) =~= s@.skip(pos as int + 1));
                assert(parse_str_body(tpos) == Option::Some(
                    (Seq::<char>::empty(), s@.skip(pos as int + 1)),
                ));
                assert(acc@ + Seq::<char>::empty() =~= acc@);
            }
            return Option::Some((acc, pos + 1));
        } else if c == '\\' {
            if len - pos < 2 {
                return Option::None;
            }
            let e = s.get_char(pos + 1);
            proof {
                assert(tpos[1] == e);
            }
            if e == '"' || e == '\\' || e == 'b' || e == 't' || e == 'n' || e == 'f' || e == 'r' {
                let ghost acc0 = acc@;
                acc.append(short_unescape_lit(e));
                proof {
                    assert(tpos.skip(2) =~= s@.skip(pos as int + 2));
                    match parse_str_body(s@.skip(pos as int + 2)) {
                        Option::Some(p) => {
                            assert(parse_str_body(tpos) == Option::Some(
                                (seq![short_unescape(e)] + p.0, p.1),
                            ));
                            assert(acc0 + (seq![short_unescape(e)] + p.0) =~= acc@ + p.0);
                        },
                        Option::None => {
                            assert(parse_str_body(tpos) is None);
                        },
                    }
                }
                pos = pos + 2;
            } else if e == 'u' {
                if len - pos < 6 {
                    return Option::None;
                }
                let d2 = s.get_char(pos + 2);
                let d3 = s.get_char(pos + 3);
                let c4 = s.get_char(pos + 4);
                let c5 = s.get_char(pos + 5);
                proof {
                    assert(tpos[2] == d2 && tpos[3] == d3 && tpos[4] == c4 && tpos[5] == c5);
                }
                let h = hex_val_of(c4);
                let l = hex_val_of(c5);
                if d2 == '0' && d3 == '0' && h < 16 && l < 16 && h * 16 + l < 0x20 {
                    let code = h * 16 + l;
                    let ghost acc0 = acc@;
                    acc.append(control_lit(code));
                    proof {
                        assert(code as nat == hex_val(tpos[4]) * 16 + hex_val(tpos[5]));
                        assert(((hex_val(tpos[4]) * 16 + hex_val(tpos[5])) as u32) == code);
                        assert(tpos.skip(6) =~= s@.skip(pos as int + 6));
                        match parse_str_body(s@.skip(pos as int + 6)) {
                            Option::Some(p) => {
                                assert(parse_str_body(tpos) == Option::Some(
                                    (seq![(code as char)] + p.0, p.1),
                                ));
                                assert(acc0 + (seq![(code as char)] + p.0) =~= acc@ + p.0);
                            },
                            Option::None => {
                                assert(parse_str_body(tpos) is None);
                            },
                        }
                    }
                    pos = pos + 6;
                } else {
                    proof {
                        assert(parse_str_body(tpos) is None);
                    }
                    return Option::None;
                }
            } else {
                return Option::None;
            }
        } else if (c as u32) < 0x20 {
            return Option::None;
        } else {
            let piece = s.substring_char(pos, pos + 1);
            let ghost acc0 = acc@;
            acc.append(piece);
            proof {
                assert(piece@ =~= seq![c]);
                assert(tpos.skip(1) =~= s@.skip(pos as int + 1));
                match parse_str_body(s@.skip(pos as int + 1)) {
                    Option::Some(p) => {
                        assert(parse_str_body(tpos) == Option::Some((seq![c] + p.0, p.1)));
                        assert(acc0 + (seq![c] + p.0) =~= acc@ + p.0);
                    },
                    Option::None => {
                        assert(parse_str_body(tpos) is None);
                    },
                }
            }
            pos = pos + 1;
        }
    }
}

/// The number run of a text is the run the scanner finds.
proof fn lemma_num_len_run(t: Seq<char>, m: int)
    requires
        0 <= m <= t.len(),
        forall|j: int| 0 <= j < m ==> (is_digit(t[j]) || t[j] == '.'),
        m < t.len() ==> !(is_digit(t[m]) || t[m] == '.'),
    ensures
        num_len(t) == m,
    decreases t.len(),
{
    if t.len() == 0 {
    } else if is_digit(t[0]) || t[0] == '.' {
        assert(m > 0);
        assert(forall|j: int| 0 <= j < t.skip(1).len() ==> t.skip(1)[j] == t[j + 1]);
        lemma_num_len_run(t.skip(1), m - 1);
    } else {
        assert(m == 0);
    }
}

/// Read a number token from `from`; on success, the level it denotes and
/// the position just after the token.
#[verifier::loop_isolation(false)]
fn scan_number(s: &str, from: usize) -> (r: Option<(Level, usize)>)
    requires
        from <= s@.len(),
    ensures
        match r {
            Option::Some(p) => from < p.1 <= s@.len() && parse_number(s@.skip(from as int))
                == Option::Some((p.0@, s@.skip(p.1 as int))),
            Option::None => parse_number(s@.skip(from as int)) is None,
        },
{
    let len = s.unicode_len();
    let mut end = from;
    while end < len && (is_digit_char(s.get_char(end)) || s.get_char(end) == '.')
        invariant
            from <= end <= len,
            forall|j: int| from <= j < end ==> (is_digit(s@[j]) || s@[j] == '.'),
        decreases len - end,
    {
        end = end + 1;
    }
    let ghost t = s@.skip(from as int);
    proof {
        assert(forall|j: int| 0 <= j < t.len() ==> #[trigger] t[j] == s@[from + j]);
        lemma_num_len_run(t, (end - from) as int);
    }
    if end == from {
        return Option::None;
    }
    let sub = s.substring_char(from, end);
    proof {
        assert(sub@ =~= t.take((end - from) as int));
    }
    match Level::parse_plain(sub) {
        Option::Some(l) => {
            proof {
                assert(t.skip((end - from) as int) =~= s@.skip(end as int));
            }
            Option::Some((l, end))
        },
        Option::None => Option::None,
    }
}

/// The field lists of executable pairs, as the specification sees them.
pub open spec fn fields_vw(v: Seq<(String, FieldVal)>) -> Seq<(Seq<char>, JsonValV)> {
    v.map_values(|p: (String, FieldVal)| (p.0@, p.1@))
}

/// Read one whole status line into its field list: the canonical object
/// form and nothing else is accepted.
#[verifier::loop_isolation(false)]
#[verifier::rlimit(100)]
pub fn parse_fields(s: &str) -> (r: Option<Vec<(String, FieldVal)>>)
    ensures
        match r {
            Option::Some(fields) => parse_line(s@) == Option::Some(fields_vw(fields@)),
            Option::None => parse_line(s@) is None,
        },
{
    let len = s.unicode_len();
    if len == 0 {
        return Option::None;
    }
    if s.get_char(0) != '{' {
        return Option::None;
    }
    if len >= 2 && s.get_char(1) == '}' {
        if len == 2 {
            let fields: Vec<(String, FieldVal)> = Vec::new();
            proof {
                assert(s@.skip(2).len() == 0);
                assert(fields_vw(fields@) =~= Seq::<(Seq<char>, JsonValV)>::empty());
            }
            return Option::Some(fields);
        } else {
            proof {
                assert(s@.skip(2).len() > 0);
            }
            return Option::None;
        }
    }
    let mut acc: Vec<(String, FieldVal)> = Vec::new();
    let mut pos: usize = 1;
    proof {
        assert(parse_object(s@) == parse_pairs(s@.skip(1)));
        match parse_pairs(s@.skip(1)) {
            Option::Some(p) => {
                assert(fields_vw(acc@) + p.0 =~= p.0);
            },
            Option::None => {},
        }
    }
    loop
        invariant
            1 <= pos <= len,
            len == s@.len(),
            parse_line(s@) == (match parse_pairs(s@.skip(pos as int)) {
                Option::Some(p) => if p.1.len() == 0 {
                    Option::Some(fields_vw(acc@) + p.0)
                } else {
                    Option::None::<Seq<(Seq<char>, JsonValV)>>
                },
                Option::None => Option::None::<Seq<(Seq<char>, JsonValV)>>,
            }),
        decreases len - pos,
    {
        let ghost tpos = s@.skip(pos as int);
        if pos == len {
            proof {
                assert(tpos.len() == 0);
            }
            return Option::None;
        }
        let c = s.get_char(pos);
        proof {
            assert(tpos[0] == c);
        }
        if c != '"' {
            return Option::None;
        }
        proof {
            assert(tpos.skip(1) =~= s@.skip(pos as int + 1));
        }
        let scanned = scan_string(s, pos + 1);
        if scanned.is_none() {
            return Option::None;
        }
        let (key, p1) = scanned.unwrap();
        proof {
            assert(parse_str_body(tpos.skip(1)) == Option::Some((key@, s@.skip(p1 as int))));
        }
        if p1 == len {
            proof {
                assert(s@.skip(p1 as int).len() == 0);
            }
            return Option::None;
        }
        let c1 = s.get_char(p1);
        proof {
            assert(s@.skip(p1 as int)[0] == c1);
        }
        if c1 != ':' {
            return Option::None;
        }
        let vstart = p1 + 1;
        proof {
            assert(s@.skip(p1 as int).skip(1) =~= s@.skip(vstart as int));
        }
        if vstart == len {
            proof {
                assert(s@.skip(vstart as int).len() == 0);
            }
            return Option::None;
        }
        let cv = s.get_char(vstart);
        proof {
            assert(s@.skip(vstart as int)[0] == cv);
        }
        let val: FieldVal;
        let p2: usize;
        if cv == '"' {
            proof {
                assert(s@.skip(vstart as int).skip(1) =~= s@.skip(vstart as int + 1));
            }
            let scanned_v = scan_string(s, vstart + 1);
            if scanned_v.is_none() {
                return Option::None;
            }
            let (sv, e) = scanned_v.unwrap();
            proof {
                assert(parse_value(s@.skip(vstart as int)) == Option::Some(
                    (JsonValV::S(sv@), s@.skip(e as int)),
                ));
            }
            val = FieldVal::S(sv);
            p2 = e;
        } else {
            let scanned_v = scan_number(s, vstart);
            if scanned_v.is_none() {
                return Option::None;
            }
            let (lv, e) = scanned_v.unwrap();
            proof {
                assert(parse_value(s@.skip(vstart as int)) == Option::Some(
                    (JsonValV::N(lv@), s@.skip(e as int)),
                ));
            }
            val = FieldVal::N(lv);
            p2 = e;
        }
        proof {
            assert(parse_value(s@.skip(vstart as int)) == Option::Some(
                (val@, s@.skip(p2 as int)),
            ));
        }
        if p2 == len {
            proof {
                assert(s@.skip(p2 as int).len() == 0);
            }
            return Option::None;
        }
        let c2 = s.get_char(p2);
        proof {
            assert(s@.skip(p2 as int)[0] == c2);
        }
        if c2 == ',' {
            let ghost acc0 = acc@;
            let ghost kv = (key@, val@);
            acc.push((key, val));
            proof {
                assert(s@.skip(p2 as int).skip(1) =~= s@.skip(p2 as int + 1));
                assert(fields_vw(acc@) =~= fields_vw(acc0).push(kv));
                match parse_pairs(s@.skip(p2 as int + 1)) {
                    Option::Some(q) => {
                        assert(parse_pairs(tpos) == Option::Some((seq![kv] + q.0, q.1)));
                        assert(fields_vw(acc0) + (seq![kv] + q.0) =~= fields_vw(acc@) + q.0);
                    },
                    Option::None => {
                        assert(parse_pairs(tpos) is None);
                    },
                }
            }
            pos = p2 + 1;
        } else if c2 == '}' {
            let ghost acc0 = acc@;
            let ghost kv = (key@, val@);
            acc.push((key, val));
            proof {
                assert(s@.skip(p2 as int).skip(1) =~= s@.skip(p2 as int + 1));
                assert(parse_pairs(tpos) == Option::Some((seq![kv], s@.skip(p2 as int + 1))));
                assert(fields_vw(acc@) =~= fields_vw(acc0).push(kv));
                assert(fields_vw(acc0) + seq![kv] =~= fields_vw(acc@));
            }
            if p2 + 1 == len {
                proof {
                    assert(s@.skip(p2 as int + 1).len() == 0);
                    assert(fields_vw(acc0) + seq![kv] == fields_vw(acc@));
                }
                return Option::Some(acc);
            } else {
                proof {
                    assert(s@.skip(p2 as int + 1).len() > 0);
                }
                return Option::None;
            }
        } else {
            return Option::None;
        }
    }
}


// ---------------------------------------------------------------------------
// Executable encoding
// ---------------------------------------------------------------------------

/// Encoding one more pair extends the comma-separated tail by that pair.
proof fn lemma_rest_push(gs: Seq<(Seq<char>, JsonValV)>, x: (Seq<char>, JsonValV))
    ensures
        encode_fields_rest(gs.push(x)) == encode_fields_rest(gs) + (seq![','] + encode_pair(
            x.0,
            x.1,
        )),
    decreases gs.len(),
{
    let p = gs.push(x);
    if gs.len() == 0 {
        assert(p[0] == x);
        assert(p.skip(1) =~= Seq::<(Seq<char>, JsonValV)>::empty());
        assert(encode_fields_rest(p.skip(1)) =~= Seq::<char>::empty());
        assert(encode_fields_rest(p) =~= seq![','] + encode_pair(x.0, x.1));
        assert(encode_fields_rest(gs) =~= Seq::<char>::empty());
        assert(encode_fields_rest(gs) + (seq![','] + encode_pair(x.0, x.1)) =~= seq![',']
            + encode_pair(x.0, x.1));
    } else {
        assert(p[0] == gs[0]);
        lemma_rest_push(gs.skip(1), x);
        assert(p.skip(1) =~= gs.skip(1).push(x));
        assert((seq![','] + encode_pair(gs[0].0, gs[0].1)) + (encode_fields_rest(gs.skip(1))
            + (seq![','] + encode_pair(x.0, x.1))) =~= ((seq![','] + encode_pair(gs[0].0, gs[0].1))
            + encode_fields_rest(gs.skip(1))) + (seq![','] + encode_pair(x.0, x.1)));
        assert(encode_fields_rest(p) == (seq![','] + encode_pair(p[0].0, p[0].1))
            + encode_fields_rest(p.skip(1)));
        assert(encode_fields_rest(gs) == (seq![','] + encode_pair(gs[0].0, gs[0].1))
            + encode_fields_rest(gs.skip(1)));
    }
}

/// Append one encoded value.
fn append_value(out: &mut String, v: &FieldVal)
    ensures
        final(out)@ == old(out)@ + encode_val(v@),
{
    match v {
        FieldVal::S(sv) => {
            out.append("\"");
            append_escaped(out, sv.as_str());
            out.append("\"");
            proof {
                reveal_strlit("\"");
                assert("\""@ =~= seq!['"']);
                assert(old(out)@ + "\""@ + json_escape(sv@) + "\""@ =~= old(out)@ + (seq!['"']
                    + json_escape(sv@) + seq!['"']));
            }
        },
        FieldVal::N(l) => {
            let txt = l.render();
            out.append(txt.as_str());
        },
    }
}

/// Append one encoded `"key":value` pair.
fn append_pair(out: &mut String, k: &String, v: &FieldVal)
    ensures
        final(out)@ == old(out)@ + encode_pair(k@, v@),
{
    out.append("\"");
    append_escaped(out, k.as_str());
    out.append("\":");
    append_value(out, v);
    proof {
        reveal_strlit("\"");
        reveal_strlit("\":");
        assert("\""@ =~= seq!['"']);
        assert("\":"@ =~= seq!['"', ':']);
        assert(old(out)@ + "\""@ + json_escape(k@) + "\":"@ + encode_val(v@) =~= old(out)@ + (
        seq!['"'] + json_escape(k@) + seq!['"', ':'] + encode_val(v@)));
    }
}

/// Append a whole encoded object.
#[verifier::loop_isolation(false)]
pub fn append_object(out: &mut String, fields: &Vec<(String, FieldVal)>)
    ensures
        final(out)@ == old(out)@ + encode_fields(fields_vw(fields@)),
{
    let n = fields.len();
    if n == 0 {
        out.append("{}");
        proof {
            reveal_strlit("{}");
            assert(fields_vw(fields@) =~= Seq::<(Seq<char>, JsonValV)>::empty());
            assert("{}"@ =~= seq!['{', '}']);
        }
        return;
    }
    let ghost fv = fields_vw(fields@);
    out.append("{");
    append_pair(out, &fields[0].0, &fields[0].1);
    proof {
        reveal_strlit("{");
        assert("{"@ =~= seq!['{']);
        assert(fv[0] == (fields@[0].0@, fields@[0].1@));
    }
    let mut i: usize = 1;
    while i < n
        invariant
            1 <= i <= n,
            out@ == old(out)@ + seq!['{'] + encode_pair(fv[0].0, fv[0].1) + encode_fields_rest(
                fv.skip(1).take(i - 1),
            ),
        decreases n - i,
    {
        proof {
            assert(encode_fields_rest(fv.skip(1).take(i - 1)).len() >= 0);
        }
        out.append(",");
        append_pair(out, &fields[i].0, &fields[i].1);
        proof {
            reveal_strlit(",");
            assert(","@ =~= seq![',']);
            assert(fv[i as int] == (fields@[i as int].0@, fields@[i as int].1@));
            lemma_rest_push(fv.skip(1).take(i - 1), fv[i as int]);
            assert(fv.skip(1).take(i as int) =~= fv.skip(1).take(i - 1).push(fv[i as int])) by {
                assert(fv.skip(1)[i - 1] == fv[i as int]);
            }
            assert(out@ =~= old(out)@ + seq!['{'] + encode_pair(fv[0].0, fv[0].1)
                + encode_fields_rest(fv.skip(1).take(i as int)));
        }
        i = i + 1;
    }
    out.append("}");
    proof {
        reveal_strlit("}");
        assert("}"@ =~= seq!['}']);
        assert(fv.skip(1).take(n - 1) =~= fv.skip(1));
        assert(out@ =~= old(out)@ + encode_fields(fv));
    }
}

} // verus!
