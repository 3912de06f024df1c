//! A mathematical reading of the JSON text this library emits: recursive
//! descent over a character sequence. It is the other half of the rendering
//! contract: the round-trip laws state that parsing a rendered record gives
//! back exactly the record's value, in either rendering mode.

use vstd::prelude::*;
use crate::json::{is_digit, digit_val, digit_char, hex_char, dec_nat, dec_int, val_of_digits,
    esc_char, escape, lemma_dec_nat_digits, lemma_val_of_dec, lemma_digit_char_val};

verus! {

pub open spec fn is_ws(c: char) -> bool {
    c == ' ' || c == '\n' || c == '\t' || c == '\r'
}

/// The first index at or after `i` that holds no whitespace.
pub open spec fn skip_ws(s: Seq<char>, i: int) -> int
    decreases s.len() - i,
{
    if 0 <= i < s.len() && is_ws(s[i]) {
        skip_ws(s, i + 1)
    } else {
        i
    }
}

/// The position after `lit`, where `lit` stands at `i`.
pub open spec fn parse_lit(s: Seq<char>, i: int, lit: Seq<char>) -> Option<int> {
    if 0 <= i && i + lit.len() <= s.len() && s.subrange(i, i + lit.len()) == lit {
        Some(i + lit.len())
    } else {
        None
    }
}

/// The first index at or after `i` that holds no decimal digit.
pub open spec fn digits_end(s: Seq<char>, i: int) -> int
    decreases s.len() - i,
{
    if 0 <= i < s.len() && is_digit(s[i]) {
        digits_end(s, i + 1)
    } else {
        i
    }
}

/// An unsigned decimal number at `i`.
pub open spec fn parse_u64(s: Seq<char>, i: int) -> Option<(u64, int)> {
    let j = digits_end(s, i);
    if j > i && val_of_digits(s.subrange(i, j)) <= u64::MAX {
        Some((val_of_digits(s.subrange(i, j)) as u64, j))
    } else {
        None
    }
}

/// A signed decimal number at `i`.
pub open spec fn parse_i32(s: Seq<char>, i: int) -> Option<(i32, int)> {
    if 0 <= i < s.len() && s[i] == '-' {
        let j = digits_end(s, i + 1);
        if j > i + 1 && -val_of_digits(s.subrange(i + 1, j)) >= i32::MIN {
            Some(((-val_of_digits(s.subrange(i + 1, j))) as i32, j))
        } else {
            None
        }
    } else {
        let j = digits_end(s, i);
        if j > i && val_of_digits(s.subrange(i, j)) <= i32::MAX {
            Some((val_of_digits(s.subrange(i, j)) as i32, j))
        } else {
            None
        }
    }
}

/// `true` or `false` at `i`.
pub open spec fn parse_bool(s: Seq<char>, i: int) -> Option<(bool, int)> {
    match parse_lit(s, i, "true"@) {
        Some(j) => Some((true, j)),
        None => match parse_lit(s, i, "false"@) {
            Some(j) => Some((false, j)),
            None => None,
        },
    }
}

pub open spec fn is_hex_digit(c: char) -> bool {
    is_digit(c) || (97 <= (c as u32) && (c as u32) <= 102)
}

pub open spec fn hex_val(c: char) -> int {
    if is_digit(c) {
        digit_val(c)
    } else {
        (c as u32) - 87
    }
}

/// The control character with the given code.
pub open spec fn ctrl_char(v: int) -> char {
    if v == 0 { '\u{0}' }
    else if v == 1 { '\u{1}' }
    else if v == 2 { '\u{2}' }
    else if v == 3 { '\u{3}' }
    else if v == 4 { '\u{4}' }
    else if v == 5 { '\u{5}' }
    else if v == 6 { '\u{6}' }
    else if v == 7 { '\u{7}' }
    else if v == 8 { '\u{8}' }
    else if v == 9 { '\u{9}' }
    else if v == 10 { '\u{a}' }
    else if v == 11 { '\u{b}' }
    else if v == 12 { '\u{c}' }
    else if v == 13 { '\u{d}' }
    else if v == 14 { '\u{e}' }
    else if v == 15 { '\u{f}' }
    else if v == 16 { '\u{10}' }
    else if v == 17 { '\u{11}' }
    else if v == 18 { '\u{12}' }
    else if v == 19 { '\u{13}' }
    else if v == 20 { '\u{14}' }
    else if v == 21 { '\u{15}' }
    else if v == 22 { '\u{16}' }
    else if v == 23 { '\u{17}' }
    else if v == 24 { '\u{18}' }
    else if v == 25 { '\u{19}' }
    else if v == 26 { '\u{1a}' }
    else if v == 27 { '\u{1b}' }
    else if v == 28 { '\u{1c}' }
    else if v == 29 { '\u{1d}' }
    else if v == 30 { '\u{1e}' }
    else { '\u{1f}' }
}

pub open spec fn prepend(c: char, r: Option<(Seq<char>, int)>) -> Option<(Seq<char>, int)> {
    match r {
        Some((t, j)) => Some((seq![c] + t, j)),
        None => None,
    }
}

/// The body of a JSON string starting at `i` (the opening quote already
/// consumed): characters and escape sequences up to the closing quote.
pub open spec fn parse_str_body(s: Seq<char>, i: int) -> Option<(Seq<char>, int)>
    decreases s.len() - i,
{
    if i < 0 || i >= s.len() {
        None
    } else if s[i] == '"' {
        Some((Seq::empty(), i + 1))
    } else if s[i] == '\\' {
        if i + 1 < s.len() {
            let c = s[i + 1];
            if c == '"' || c == '\\' {
                prepend(c, parse_str_body(s, i + 2))
            } else if c == 'n' {
                prepend('\n', parse_str_body(s, i + 2))
            } else if c == 'r' {
                prepend('\r', parse_str_body(s, i + 2))
            } else if c == 't' {
                prepend('\t', parse_str_body(s, i + 2))
            } else if c == 'u' {
                if i + 6 <= s.len() && s[i + 2] == '0' && s[i + 3] == '0' && is_hex_digit(s[i + 4])
                    && is_hex_digit(s[i + 5]) {
                    let v = hex_val(s[i + 4]) * 16 + hex_val(s[i + 5]);
                    if v < 32 {
                        prepend(ctrl_char(v), parse_str_body(s, i + 6))
                    } else {
                        None
                    }
                } else {
                    None
                }
            } else {
                None
            }
        } else {
            None
        }
    } else {
        prepend(s[i], parse_str_body(s, i + 1))
    }
}

/// A quoted JSON string token at `i`.
pub open spec fn parse_string(s: Seq<char>, i: int) -> Option<(Seq<char>, int)> {
    if 0 <= i < s.len() && s[i] == '"' {
        parse_str_body(s, i + 1)
    } else {
        None
    }
}

// ---------------------------------------------------------------------------
// Round-trip lemmas for the tokens
// ---------------------------------------------------------------------------

/// Every character the pretty mode inserts is whitespace.
pub proof fn lemma_ws_chars(p: bool)
    ensures
        forall|k: int|
            0 <= k < crate::json::ws_open(p).len() ==> is_ws(#[trigger] crate::json::ws_open(p)[k]),
        forall|k: int|
            0 <= k < crate::json::ws_mid(p).len() ==> is_ws(#[trigger] crate::json::ws_mid(p)[k]),
        forall|k: int|
            0 <= k < crate::json::ws_sp(p).len() ==> is_ws(#[trigger] crate::json::ws_sp(p)[k]),
        forall|k: int|
            0 <= k < crate::json::ws_close(p).len() ==> is_ws(
                #[trigger] crate::json::ws_close(p)[k],
            ),
{
    reveal_strlit("\n  ");
    reveal_strlit(" ");
    reveal_strlit("\n");
    if p {
        assert(crate::json::ws_open(p).len() == 3);
        assert(crate::json::ws_open(p)[0] == '\n');
        assert(crate::json::ws_open(p)[1] == ' ');
        assert(crate::json::ws_open(p)[2] == ' ');
        assert forall|k: int| 0 <= k < crate::json::ws_open(p).len() implies is_ws(
            #[trigger] crate::json::ws_open(p)[k],
        ) by {
            assert(k == 0 || k == 1 || k == 2);
        }
        assert(crate::json::ws_sp(p).len() == 1);
        assert(crate::json::ws_sp(p)[0] == ' ');
        assert(crate::json::ws_close(p).len() == 1);
        assert(crate::json::ws_close(p)[0] == '\n');
    }
    assert(crate::json::ws_mid(p) == crate::json::ws_open(p));
    assert forall|k: int| 0 <= k < crate::json::ws_mid(p).len() implies is_ws(
        #[trigger] crate::json::ws_mid(p)[k],
    ) by {
        assert(crate::json::ws_mid(p)[k] == crate::json::ws_open(p)[k]);
    }
}

/// Peeling the first block off a known suffix of `s`.
pub proof fn lemma_peel(s: Seq<char>, i: int, a: Seq<char>, b: Seq<char>)
    requires
        0 <= i <= s.len(),
        s.subrange(i, s.len() as int) == a + b,
    ensures
        i + a.len() + b.len() == s.len(),
        s.subrange(i + a.len(), s.len() as int) == b,
        s.subrange(i, i + a.len()) == a,
        forall|k: int| 0 <= k < a.len() ==> s[i + k] == a[k],
        a.len() > 0 ==> s[i] == a[0],
{
    assert(s.subrange(i, s.len() as int).len() == a.len() + b.len());
    assert forall|k: int| 0 <= k < a.len() implies s[i + k] == a[k] by {
        assert(s.subrange(i, s.len() as int)[k] == s[i + k]);
        assert((a + b)[k] == a[k]);
    }
    assert forall|k: int| 0 <= k < b.len() implies s[i + a.len() + k] == b[k] by {
        assert(s.subrange(i, s.len() as int)[a.len() + k] == s[i + a.len() + k]);
        assert((a + b)[a.len() + k] == b[k]);
    }
    assert(s.subrange(i + a.len(), s.len() as int) =~= b);
    assert(s.subrange(i, i + a.len()) =~= a);
    if a.len() > 0 {
        assert(s[i + 0] == a[0]);
    }
}

pub proof fn lemma_parse_lit_at(s: Seq<char>, i: int, lit: Seq<char>, b: Seq<char>)
    requires
        0 <= i <= s.len(),
        s.subrange(i, s.len() as int) == lit + b,
    ensures
        parse_lit(s, i, lit) == Some(i + lit.len()),
        s.subrange(i + lit.len(), s.len() as int) == b,
{
    lemma_peel(s, i, lit, b);
}

pub proof fn lemma_skip_ws_run(s: Seq<char>, i: int, w: Seq<char>, b: Seq<char>)
    requires
        0 <= i <= s.len(),
        s.subrange(i, s.len() as int) == w + b,
        forall|k: int| 0 <= k < w.len() ==> is_ws(#[trigger] w[k]),
        b.len() == 0 || !is_ws(b[0]),
    ensures
        skip_ws(s, i) == i + w.len(),
        s.subrange(i + w.len(), s.len() as int) == b,
    decreases w.len(),
{
    lemma_peel(s, i, w, b);
    if w.len() == 0 {
        if b.len() == 0 {
            assert(i == s.len());
        } else {
            assert(s[i] == b[0]);
        }
    } else {
        assert(s[i] == w[0]);
        assert(s.subrange(i + 1, s.len() as int) =~= w.drop_first() + b);
        lemma_skip_ws_run(s, i + 1, w.drop_first(), b);
    }
}

pub proof fn lemma_digits_end_run(s: Seq<char>, i: int, d: Seq<char>, b: Seq<char>)
    requires
        0 <= i <= s.len(),
        s.subrange(i, s.len() as int) == d + b,
        forall|k: int| 0 <= k < d.len() ==> is_digit(#[trigger] d[k]),
        b.len() == 0 || !is_digit(b[0]),
    ensures
        digits_end(s, i) == i + d.len(),
        s.subrange(i, i + d.len()) == d,
    decreases d.len(),
{
    lemma_peel(s, i, d, b);
    if d.len() == 0 {
        if b.len() == 0 {
            assert(i == s.len());
        } else {
            assert(s[i] == b[0]);
        }
    } else {
        assert(s[i] == d[0]);
        assert(s.subrange(i + 1, s.len() as int) =~= d.drop_first() + b);
        lemma_digits_end_run(s, i + 1, d.drop_first(), b);
    }
}

pub proof fn lemma_parse_u64_at(n: u64, s: Seq<char>, i: int, b: Seq<char>)
    requires
        0 <= i <= s.len(),
        s.subrange(i, s.len() as int) == dec_nat(n as nat) + b,
        b.len() == 0 || !is_digit(b[0]),
    ensures
        parse_u64(s, i) == Some((n, i + dec_nat(n as nat).len())),
        s.subrange(i + dec_nat(n as nat).len(), s.len() as int) == b,
{
    lemma_dec_nat_digits(n as nat);
    lemma_digits_end_run(s, i, dec_nat(n as nat), b);
    lemma_peel(s, i, dec_nat(n as nat), b);
    lemma_val_of_dec(n as nat);
}

pub proof fn lemma_parse_i32_at(n: i32, s: Seq<char>, i: int, b: Seq<char>)
    requires
        0 <= i <= s.len(),
        s.subrange(i, s.len() as int) == dec_int(n as int) + b,
        b.len() == 0 || !is_digit(b[0]),
    ensures
        parse_i32(s, i) == Some((n, i + dec_int(n as int).len())),
        s.subrange(i + dec_int(n as int).len(), s.len() as int) == b,
{
    if n >= 0 {
        lemma_dec_nat_digits(n as nat);
        lemma_digits_end_run(s, i, dec_nat(n as nat), b);
        lemma_peel(s, i, dec_nat(n as nat), b);
        lemma_val_of_dec(n as nat);
        assert(s[i] == dec_nat(n as nat)[0]);
        assert(is_digit(s[i]));
        assert(('-' as u32) == 45);
        assert(s[i] != '-');
    } else {
        let m = (-(n as int)) as nat;
        lemma_dec_nat_digits(m);
        assert(dec_int(n as int) == seq!['-'] + dec_nat(m));
        assert((seq!['-'] + dec_nat(m)) + b =~= seq!['-'] + (dec_nat(m) + b));
        lemma_peel(s, i, seq!['-'], dec_nat(m) + b);
        assert(s[i] == '-');
        lemma_digits_end_run(s, i + 1, dec_nat(m), b);
        lemma_peel(s, i + 1, dec_nat(m), b);
        lemma_val_of_dec(m);
        assert(('-' as u32) == 45);
        assert(!is_digit('-'));
        assert(digits_end(s, i) == i) by {
            assert(s[i] == '-');
        }
        assert(s.subrange(i + dec_int(n as int).len(), s.len() as int) =~= b);
    }
}

pub proof fn lemma_hex_char_val(d: int)
    requires
        0 <= d < 16,
    ensures
        hex_val(hex_char(d)) == d,
        is_hex_digit(hex_char(d)),
{
    if d < 10 {
        lemma_digit_char_val(d);
    } else if d == 10 {
        assert(('a' as u32) == 97);
    } else if d == 11 {
        assert(('b' as u32) == 98);
    } else if d == 12 {
        assert(('c' as u32) == 99);
    } else if d == 13 {
        assert(('d' as u32) == 100);
    } else if d == 14 {
        assert(('e' as u32) == 101);
    } else {
        assert(('f' as u32) == 102);
    }
}

pub proof fn lemma_ctrl_char_of(c: char)
    requires
        (c as u32) < 32,
    ensures
        ctrl_char((c as u32) as int) == c,
{
    let v = (c as u32) as int;
    assert(('\u{0}' as u32) == 0);
    assert(('\u{1}' as u32) == 1);
    assert(('\u{2}' as u32) == 2);
    assert(('\u{3}' as u32) == 3);
    assert(('\u{4}' as u32) == 4);
    assert(('\u{5}' as u32) == 5);
    assert(('\u{6}' as u32) == 6);
    assert(('\u{7}' as u32) == 7);
    assert(('\u{8}' as u32) == 8);
    assert(('\u{9}' as u32) == 9);
    assert(('\u{a}' as u32) == 10);
    assert(('\u{b}' as u32) == 11);
    assert(('\u{c}' as u32) == 12);
    assert(('\u{d}' as u32) == 13);
    assert(('\u{e}' as u32) == 14);
    assert(('\u{f}' as u32) == 15);
    assert(('\u{10}' as u32) == 16);
    assert(('\u{11}' as u32) == 17);
    assert(('\u{12}' as u32) == 18);
    assert(('\u{13}' as u32) == 19);
    assert(('\u{14}' as u32) == 20);
    assert(('\u{15}' as u32) == 21);
    assert(('\u{16}' as u32) == 22);
    assert(('\u{17}' as u32) == 23);
    assert(('\u{18}' as u32) == 24);
    assert(('\u{19}' as u32) == 25);
    assert(('\u{1a}' as u32) == 26);
    assert(('\u{1b}' as u32) == 27);
    assert(('\u{1c}' as u32) == 28);
    assert(('\u{1d}' as u32) == 29);
    assert(('\u{1e}' as u32) == 30);
    assert(('\u{1f}' as u32) == 31);
}

/// One escape sequence at `i` parses back to its character, and the parse
/// of the rest continues right after it.
proof fn lemma_parse_esc_at(c: char, s: Seq<char>, i: int, tail: Seq<char>)
    requires
        0 <= i <= s.len(),
        s.subrange(i, s.len() as int) == esc_char(c) + tail,
    ensures
        parse_str_body(s, i) == prepend(c, parse_str_body(s, i + esc_char(c).len())),
        s.subrange(i + esc_char(c).len(), s.len() as int) == tail,
{
    lemma_peel(s, i, esc_char(c), tail);
    if c == '"' || c == '\\' {
        assert(s[i + 0] == '\\');
        assert(s[i + 1] == c);
        assert(('\\' as u32) == 92 && ('"' as u32) == 34);
    } else if c == '\n' {
        assert(s[i + 0] == '\\');
        assert(s[i + 1] == 'n');
    } else if c == '\r' {
        assert(s[i + 0] == '\\');
        assert(s[i + 1] == 'r');
    } else if c == '\t' {
        assert(s[i + 0] == '\\');
        assert(s[i + 1] == 't');
    } else if (c as u32) < 32 {
        let v = (c as u32) as int;
        assert(s[i + 0] == '\\');
        assert(s[i + 1] == 'u');
        assert(s[i + 2] == '0');
        assert(s[i + 3] == '0');
        assert(s[i + 4] == hex_char(v / 16));
        assert(s[i + 5] == hex_char(v % 16));
        lemma_hex_char_val(v / 16);
        lemma_hex_char_val(v % 16);
        lemma_ctrl_char_of(c);
        assert(hex_val(s[i + 4]) * 16 + hex_val(s[i + 5]) == v);
        assert(('\\' as u32) == 92 && ('"' as u32) == 34);
        assert(('u' as u32) == 117);
        assert(('n' as u32) == 110 && ('r' as u32) == 114 && ('t' as u32) == 116);
    } else {
        assert(s[i + 0] == c);
        assert(('"' as u32) == 34 && ('\\' as u32) == 92);
    }
}

/// The escaped body of a string, followed by its closing quote, parses back
/// to exactly the original characters.
pub proof fn lemma_parse_str_body_at(v: Seq<char>, s: Seq<char>, i: int, tail: Seq<char>)
    requires
        0 <= i <= s.len(),
        s.subrange(i, s.len() as int) == escape(v) + seq!['"'] + tail,
    ensures
        parse_str_body(s, i) == Some((v, i + escape(v).len() + 1)),
        s.subrange(i + escape(v).len() + 1, s.len() as int) == tail,
    decreases v.len(),
{
    if v.len() == 0 {
        assert(escape(v) + seq!['"'] + tail =~= seq!['"'] + tail);
        lemma_peel(s, i, seq!['"'], tail);
        assert(s[i] == '"');
        assert(parse_str_body(s, i) == Some((Seq::<char>::empty(), i + 1)));
        assert(v =~= Seq::<char>::empty());
    } else {
        let c = v[0];
        let rest = v.drop_first();
        assert(escape(v) == esc_char(c) + escape(rest));
        assert(escape(v) + seq!['"'] + tail =~= esc_char(c) + (escape(rest) + seq!['"'] + tail));
        lemma_parse_esc_at(c, s, i, escape(rest) + seq!['"'] + tail);
        lemma_parse_str_body_at(rest, s, i + esc_char(c).len(), tail);
        assert(seq![c] + rest =~= v);
        assert(parse_str_body(s, i) == Some((v, i + escape(v).len() + 1)));
        assert(s.subrange(i + escape(v).len() + 1, s.len() as int) == tail);
    }
}

/// A rendered string token parses back to exactly its characters.
pub proof fn lemma_parse_string_at(v: Seq<char>, s: Seq<char>, i: int, tail: Seq<char>)
    requires
        0 <= i <= s.len(),
        s.subrange(i, s.len() as int) == crate::json::json_string(v) + tail,
    ensures
        parse_string(s, i) == Some((v, i + crate::json::json_string(v).len())),
        s.subrange(i + crate::json::json_string(v).len(), s.len() as int) == tail,
{
    assert(crate::json::json_string(v) + tail =~= seq!['"'] + (escape(v) + seq!['"'] + tail));
    lemma_peel(s, i, seq!['"'], escape(v) + seq!['"'] + tail);
    assert(s[i] == '"');
    lemma_parse_str_body_at(v, s, i + 1, tail);
}

pub proof fn lemma_parse_bool_at(v: bool, s: Seq<char>, i: int, b: Seq<char>)
    requires
        0 <= i <= s.len(),
        s.subrange(i, s.len() as int) == crate::json::bool_lit(v) + b,
    ensures
        parse_bool(s, i) == Some((v, i + crate::json::bool_lit(v).len())),
        s.subrange(i + crate::json::bool_lit(v).len(), s.len() as int) == b,
{
    reveal_strlit("true");
    reveal_strlit("false");
    lemma_peel(s, i, crate::json::bool_lit(v), b);
    if v {
        assert(parse_lit(s, i, "true"@) == Some(i + 4));
    } else {
        assert(s[i] == 'f');
        assert(('f' as u32) == 102 && ('t' as u32) == 116);
        if i + 4 <= s.len() && s.subrange(i, i + 4) == "true"@ {
            assert(s.subrange(i, i + 4)[0] == s[i]);
            assert(false);
        }
        assert(parse_lit(s, i, "true"@) is None);
        assert(parse_lit(s, i, "false"@) == Some(i + 5));
    }
}

} // verus!
