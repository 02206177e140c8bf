//! The slice of JSON that this crate owns.
//!
//! Tool arguments arrive as a JSON object of string (or simple scalar)
//! members, and tool results leave as a JSON object with one string
//! member; the conversation log is framed as a JSON array when its size
//! is measured.  Both directions are defined here, over character
//! sequences, so that every contract about the wire format is exact.

use vstd::prelude::*;

use crate::text::{chars_to_string, opt_view, push_str_chars};

verus! {

/// The hexadecimal digit character for the low four bits of `d`.
pub open spec fn hex_digit(d: int) -> char {
    let v = d % 16;
    if v < 10 {
        ((v + 0x30) as u8) as char
    } else {
        ((v - 10 + 0x61) as u8) as char
    }
}

/// How one character is written inside a JSON string literal: quote and
/// backslash take an escape, control characters take a `\u` sequence with
/// short forms for newline, carriage return and tab, and everything else
/// stands as itself.
pub open spec fn escape_char(c: char) -> Seq<char> {
    if c == '"' {
        seq!['\\', '"']
    } else if c == '\\' {
        seq!['\\', '\\']
    } else if c == '\n' {
        seq!['\\', 'n']
    } else if c == '\r' {
        seq!['\\', 'r']
    } else if c == '\t' {
        seq!['\\', 't']
    } else if (c as u32) < 0x20 {
        seq!['\\', 'u', '0', '0', hex_digit(c as u32 as int / 16), hex_digit(c as u32 as int)]
    } else {
        seq![c]
    }
}

/// The body of a JSON string literal for the text `s`.
pub open spec fn escaped(s: Seq<char>) -> Seq<char>
    decreases s.len(),
{
    if s.len() == 0 {
        Seq::empty()
    } else {
        escape_char(s[0]) + escaped(s.drop_first())
    }
}

/// The JSON string literal for the text `s`, quotes included.
pub open spec fn quoted(s: Seq<char>) -> Seq<char> {
    seq!['"'] + escaped(s) + seq!['"']
}

/// A string literal never renders shorter than the two quotes of the
/// empty one.
pub proof fn lemma_quoted_min_len(s: Seq<char>)
    ensures
        quoted(s).len() >= 2,
        quoted(Seq::<char>::empty()).len() == 2,
{
    assert(escaped(Seq::<char>::empty()) =~= Seq::<char>::empty());
}

proof fn lemma_escaped_snoc(s: Seq<char>, c: char)
    ensures
        escaped(s + seq![c]) == escaped(s) + escape_char(c),
    decreases s.len(),
{
    if s.len() == 0 {
        reveal_with_fuel(escaped, 3);
        assert(s + seq![c] =~= seq![c]);
        assert((seq![c]).drop_first() =~= Seq::<char>::empty());
        assert(escaped(s) =~= Seq::<char>::empty());
        assert(escape_char(c) + Seq::<char>::empty() =~= escape_char(c));
        assert(escaped(seq![c]) =~= escape_char(c));
    } else {
        assert((s + seq![c]).drop_first() =~= s.drop_first() + seq![c]);
        lemma_escaped_snoc(s.drop_first(), c);
        assert(escaped(s + seq![c]) =~= escaped(s) + escape_char(c));
    }
}

/// Append `escape_char(c)` to `out`.
fn push_escaped_char(out: &mut Vec<char>, c: char)
    ensures
        final(out)@ == old(out)@ + escape_char(c),
{
    if c == '"' {
        out.push('\\');
        out.push('"');
    } else if c == '\\' {
        out.push('\\');
        out.push('\\');
    } else if c == '\n' {
        out.push('\\');
        out.push('n');
    } else if c == '\r' {
        out.push('\\');
        out.push('r');
    } else if c == '\t' {
        out.push('\\');
        out.push('t');
    } else if (c as u32) < 0x20 {
        out.push('\\');
        out.push('u');
        out.push('0');
        out.push('0');
        let v = c as u32;
        let hi = (v / 16) as u8;
        let lo = (v % 16) as u8;
        out.push(if hi < 10 {
            (hi + 0x30) as char
        } else {
            (hi - 10 + 0x61) as char
        });
        out.push(if lo < 10 {
            (lo + 0x30) as char
        } else {
            (lo - 10 + 0x61) as char
        });
    } else {
        out.push(c);
    }
    proof {
        assert(final(out)@ =~= old(out)@ + escape_char(c));
    }
}

/// Append the JSON string literal for `s` to `out`.
pub fn push_quoted(out: &mut Vec<char>, s: &str)
    ensures
        final(out)@ == old(out)@ + quoted(s@),
{
    out.push('"');
    let n = s.unicode_len();
    let mut i: usize = 0;
    while i < n
        invariant
            n == s@.len(),
            0 <= i <= n,
            out@ == old(out)@ + seq!['"'] + escaped(s@.take(i as int)),
        decreases n - i,
    {
        let c = s.get_char(i);
        push_escaped_char(out, c);
        proof {
            assert(s@.take(i + 1) =~= s@.take(i as int) + seq![s@[i as int]]);
            lemma_escaped_snoc(s@.take(i as int), s@[i as int]);
        }
        i += 1;
    }
    out.push('"');
    proof {
        assert(s@.take(n as int) =~= s@);
        assert(final(out)@ =~= old(out)@ + quoted(s@));
    }
}

/// A one-member JSON object, `{"<key>": <literal for text>}`, as every
/// tool outcome is framed.
pub open spec fn keyed_object(key: Seq<char>, text: Seq<char>) -> Seq<char> {
    seq!['{'] + quoted(key) + seq![':'] + quoted(text) + seq!['}']
}

/// Render `{"<key>": <text>}`.
pub fn render_keyed_object(key: &str, text: &str) -> (r: String)
    ensures
        r@ == keyed_object(key@, text@),
{
    let mut out: Vec<char> = Vec::new();
    out.push('{');
    push_quoted(&mut out, key);
    out.push(':');
    push_quoted(&mut out, text);
    out.push('}');
    proof {
        assert(out@ =~= keyed_object(key@, text@));
    }
    chars_to_string(&out)
}



// ---------------------------------------------------------------------------
// Parsing tool arguments: a flat JSON object whose members are strings or
// bare scalars (numbers, booleans, null).  String members are decoded,
// with the single-character escapes and `\u` sequences for scalar
// values (surrogate pairs for characters beyond the basic plane are not
// paired up); scalar members, and members holding whole objects or
// arrays, are recorded without a value.
// ---------------------------------------------------------------------------

/// JSON insignificant whitespace.
pub open spec fn is_ws(c: char) -> bool {
    c == ' ' || c == '\t' || c == '\n' || c == '\r'
}

/// First index at or after `i` whose character is not whitespace.
pub open spec fn skip_ws(s: Seq<char>, i: int) -> int
    decreases s.len() - i,
{
    if 0 <= i < s.len() && is_ws(s[i]) {
        skip_ws(s, i + 1)
    } else {
        i
    }
}

pub proof fn lemma_skip_ws_bounds(s: Seq<char>, i: int)
    ensures
        i <= skip_ws(s, i),
        i <= s.len() ==> skip_ws(s, i) <= s.len(),
    decreases s.len() - i,
{
    if 0 <= i < s.len() && is_ws(s[i]) {
        lemma_skip_ws_bounds(s, i + 1);
    }
}

/// What a backslash escape in a string literal stands for.
pub open spec fn unescape(c: char) -> Option<char> {
    if c == '"' {
        Some('"')
    } else if c == '\\' {
        Some('\\')
    } else if c == '/' {
        Some('/')
    } else if c == 'n' {
        Some('\n')
    } else if c == 't' {
        Some('\t')
    } else if c == 'r' {
        Some('\r')
    } else if c == 'b' {
        Some('\u{8}')
    } else if c == 'f' {
        Some('\u{c}')
    } else {
        None
    }
}

/// Relies on `char::from_u32`, whose documentation promises the
/// character for every valid Unicode scalar value and nothing for
/// surrogates or values past the last code point.
pub assume_specification[ char::from_u32 ](v: u32) -> (r: Option<char>)
    ensures
        r is Some <==> vstd::utf8::is_scalar(v),
        r matches Some(c) ==> c as u32 == v,
;

/// The value of a hexadecimal digit character, or a negative marker
/// for any other character.
pub open spec fn hex_val(c: char) -> int {
    let v = (c as u32) as int;
    if 0x30 <= v && v <= 0x39 {
        v - 0x30
    } else if 0x61 <= v && v <= 0x66 {
        v - 0x61 + 10
    } else if 0x41 <= v && v <= 0x46 {
        v - 0x41 + 10
    } else {
        -1
    }
}

fn hex_val_exec(c: char) -> (r: i32)
    ensures
        r as int == hex_val(c),
{
    let v = c as u32;
    if 0x30 <= v && v <= 0x39 {
        (v - 0x30) as i32
    } else if 0x61 <= v && v <= 0x66 {
        (v - 0x61 + 10) as i32
    } else if 0x41 <= v && v <= 0x46 {
        (v - 0x41 + 10) as i32
    } else {
        -1
    }
}

/// The scalar value of the four hexadecimal digits at `i`, or a
/// negative marker when any of them is not a digit.
pub open spec fn hex4_val(s: Seq<char>, i: int) -> int {
    if hex_val(s[i]) < 0 || hex_val(s[i + 1]) < 0 || hex_val(s[i + 2]) < 0 || hex_val(s[i + 3])
        < 0 {
        -1
    } else {
        hex_val(s[i]) * 0x1000 + hex_val(s[i + 1]) * 0x100 + hex_val(s[i + 2]) * 0x10 + hex_val(
            s[i + 3],
        )
    }
}

/// Scan a string literal body from `i` (just after the opening quote):
/// the decoded text and the index just after the closing quote.
pub open spec fn scan_string(s: Seq<char>, i: int) -> Option<(Seq<char>, int)>
    decreases s.len() - i,
{
    if i < 0 || i >= s.len() {
        None
    } else if s[i] == '"' {
        Some((Seq::empty(), i + 1))
    } else if s[i] == '\\' {
        if i + 1 >= s.len() {
            None
        } else if s[i + 1] == 'u' {
            if i + 5 >= s.len() {
                None
            } else {
                let v = hex4_val(s, i + 2);
                if v < 0 || (0xD800 <= v && v < 0xE000) {
                    None
                } else {
                    match scan_string(s, i + 6) {
                        None => None,
                        Some(p) => Some((seq![((v as u32) as char)] + p.0, p.1)),
                    }
                }
            }
        } else {
            match unescape(s[i + 1]) {
                None => None,
                Some(c) => match scan_string(s, i + 2) {
                    None => None,
                    Some(p) => Some((seq![c] + p.0, p.1)),
                },
            }
        }
    } else if (s[i] as u32) < 0x20 {
        None
    } else {
        match scan_string(s, i + 1) {
            None => None,
            Some(p) => Some((seq![s[i]] + p.0, p.1)),
        }
    }
}

pub proof fn lemma_scan_string_bounds(s: Seq<char>, i: int)
    ensures
        scan_string(s, i) matches Some(p) ==> i < p.1 <= s.len(),
    decreases s.len() - i,
{
    if 0 <= i < s.len() {
        if s[i] == '\\' {
            if i + 1 < s.len() {
                if s[i + 1] == 'u' {
                    if i + 5 < s.len() {
                        lemma_scan_string_bounds(s, i + 6);
                    }
                } else {
                    lemma_scan_string_bounds(s, i + 2);
                }
            }
        } else {
            lemma_scan_string_bounds(s, i + 1);
        }
    }
}

/// A character that may stand in a bare scalar: enough for numbers,
/// booleans and null.
pub open spec fn is_scalar_char(c: char) -> bool {
    (0x30 <= c as u32 && c as u32 <= 0x39) || (0x61 <= c as u32 && c as u32 <= 0x7a) || (0x41
        <= c as u32 && c as u32 <= 0x5a) || c == '+' || c == '-' || c == '.'
}

/// First index at or after `i` whose character cannot stand in a scalar.
pub open spec fn skip_scalar(s: Seq<char>, i: int) -> int
    decreases s.len() - i,
{
    if 0 <= i < s.len() && is_scalar_char(s[i]) {
        skip_scalar(s, i + 1)
    } else {
        i
    }
}

pub proof fn lemma_skip_scalar_bounds(s: Seq<char>, i: int)
    ensures
        i <= skip_scalar(s, i),
        i <= s.len() ==> skip_scalar(s, i) <= s.len(),
    decreases s.len() - i,
{
    if 0 <= i < s.len() && is_scalar_char(s[i]) {
        lemma_skip_scalar_bounds(s, i + 1);
    }
}

/// The index just after the whole JSON value starting at `i`, when one
/// is there: a string, a bare scalar, or an object or array skipped
/// recursively.  Such a value carries no text for the caller; it only
/// has an extent.
pub open spec fn skip_json_value(s: Seq<char>, i: int) -> Option<int>
    decreases s.len() - i, 0int,
    via skip_json_value_decreases
{
    if !(0 <= i < s.len()) {
        None
    } else if s[i] == '"' {
        match scan_string(s, i + 1) {
            None => None,
            Some(p) => Some(p.1),
        }
    } else if s[i] == '{' {
        skip_object_rest(s, i + 1)
    } else if s[i] == '[' {
        skip_array_rest(s, i + 1)
    } else if skip_scalar(s, i) > i {
        Some(skip_scalar(s, i))
    } else {
        None
    }
}

/// The index just after the `}` that closes an object whose `{` stood
/// just before `i`: either the close comes at once, or members follow.
pub open spec fn skip_object_rest(s: Seq<char>, i: int) -> Option<int>
    decreases s.len() - i, 2int,
    via skip_object_rest_decreases
{
    let j = skip_ws(s, i);
    if 0 <= j < s.len() && s[j] == '}' {
        Some(j + 1)
    } else {
        skip_member_chain(s, i)
    }
}

/// One skipped member and its successors, from just after `{` or `,`.
pub open spec fn skip_member_chain(s: Seq<char>, i: int) -> Option<int>
    decreases s.len() - i, 1int,
    via skip_member_chain_decreases
{
    if i < 0 || i > s.len() {
        None
    } else {
        let j = skip_ws(s, i);
        if !(0 <= j < s.len() && s[j] == '"') {
            None
        } else {
            match scan_string(s, j + 1) {
                None => None,
                Some(kp) => {
                    let b = skip_ws(s, kp.1);
                    if !(b < s.len() && s[b] == ':') {
                        None
                    } else {
                        match skip_json_value(s, skip_ws(s, b + 1)) {
                            None => None,
                            Some(d) => {
                                let e = skip_ws(s, d);
                                if e < s.len() && s[e] == ',' {
                                    // The next index provably advances
                                    // past `i`; the guard only makes
                                    // that visible to the termination
                                    // check.
                                    if i < e + 1 {
                                        skip_member_chain(s, e + 1)
                                    } else {
                                        None
                                    }
                                } else if e < s.len() && s[e] == '}' {
                                    Some(e + 1)
                                } else {
                                    None
                                }
                            },
                        }
                    }
                },
            }
        }
    }
}

/// The index just after the `]` that closes an array whose `[` stood
/// just before `i`.
pub open spec fn skip_array_rest(s: Seq<char>, i: int) -> Option<int>
    decreases s.len() - i, 2int,
    via skip_array_rest_decreases
{
    let j = skip_ws(s, i);
    if 0 <= j < s.len() && s[j] == ']' {
        Some(j + 1)
    } else {
        skip_item_chain(s, i)
    }
}

/// One skipped array item and its successors, from just after `[` or
/// `,`.
pub open spec fn skip_item_chain(s: Seq<char>, i: int) -> Option<int>
    decreases s.len() - i, 1int,
    via skip_item_chain_decreases
{
    if i < 0 || i > s.len() {
        None
    } else {
        let c = skip_ws(s, i);
        match skip_json_value(s, c) {
            None => None,
            Some(d) => {
                let e = skip_ws(s, d);
                if e < s.len() && s[e] == ',' {
                    // As above: the next index provably advances past
                    // `i`.
                    if i < e + 1 {
                        skip_item_chain(s, e + 1)
                    } else {
                        None
                    }
                } else if e < s.len() && s[e] == ']' {
                    Some(e + 1)
                } else {
                    None
                }
            },
        }
    }
}

#[via_fn]
proof fn skip_json_value_decreases(s: Seq<char>, i: int) {
}

#[via_fn]
proof fn skip_object_rest_decreases(s: Seq<char>, i: int) {
    lemma_skip_ws_bounds(s, i);
}

#[via_fn]
proof fn skip_member_chain_decreases(s: Seq<char>, i: int) {
    lemma_skip_ws_bounds(s, i);
    let j = skip_ws(s, i);
    if 0 <= j < s.len() {
        lemma_scan_string_bounds(s, j + 1);
        if let Some(kp) = scan_string(s, j + 1) {
            lemma_skip_ws_bounds(s, kp.1);
            let b = skip_ws(s, kp.1);
            lemma_skip_ws_bounds(s, b + 1);
        }
    }
}

#[via_fn]
proof fn skip_array_rest_decreases(s: Seq<char>, i: int) {
    lemma_skip_ws_bounds(s, i);
}

#[via_fn]
proof fn skip_item_chain_decreases(s: Seq<char>, i: int) {
    lemma_skip_ws_bounds(s, i);
}

proof fn lemma_skip_json_value_bounds(s: Seq<char>, i: int)
    ensures
        skip_json_value(s, i) matches Some(d) ==> i < d <= s.len(),
    decreases s.len() - i, 0int,
{
    if 0 <= i < s.len() {
        if s[i] == '"' {
            lemma_scan_string_bounds(s, i + 1);
        } else if s[i] == '{' {
            lemma_skip_object_rest_bounds(s, i + 1);
        } else if s[i] == '[' {
            lemma_skip_array_rest_bounds(s, i + 1);
        } else {
            lemma_skip_scalar_bounds(s, i);
        }
    }
}

proof fn lemma_skip_object_rest_bounds(s: Seq<char>, i: int)
    ensures
        skip_object_rest(s, i) matches Some(d) ==> i < d <= s.len(),
    decreases s.len() - i, 2int,
{
    lemma_skip_ws_bounds(s, i);
    lemma_skip_member_chain_bounds(s, i);
}

proof fn lemma_skip_member_chain_bounds(s: Seq<char>, i: int)
    ensures
        skip_member_chain(s, i) matches Some(d) ==> i < d <= s.len(),
    decreases s.len() - i, 1int,
{
    lemma_skip_ws_bounds(s, i);
    let j = skip_ws(s, i);
    if 0 <= j < s.len() && s[j] == '"' {
        lemma_scan_string_bounds(s, j + 1);
        if let Some(kp) = scan_string(s, j + 1) {
            lemma_skip_ws_bounds(s, kp.1);
            let b = skip_ws(s, kp.1);
            if b < s.len() && s[b] == ':' {
                lemma_skip_ws_bounds(s, b + 1);
                lemma_skip_json_value_bounds(s, skip_ws(s, b + 1));
                if let Some(d) = skip_json_value(s, skip_ws(s, b + 1)) {
                    lemma_skip_ws_bounds(s, d);
                    let e = skip_ws(s, d);
                    if e < s.len() && s[e] == ',' && i < e + 1 {
                        lemma_skip_member_chain_bounds(s, e + 1);
                    }
                }
            }
        }
    }
}

proof fn lemma_skip_array_rest_bounds(s: Seq<char>, i: int)
    ensures
        skip_array_rest(s, i) matches Some(d) ==> i < d <= s.len(),
    decreases s.len() - i, 2int,
{
    lemma_skip_ws_bounds(s, i);
    lemma_skip_item_chain_bounds(s, i);
}

proof fn lemma_skip_item_chain_bounds(s: Seq<char>, i: int)
    ensures
        skip_item_chain(s, i) matches Some(d) ==> i < d <= s.len(),
    decreases s.len() - i, 1int,
{
    lemma_skip_ws_bounds(s, i);
    let c = skip_ws(s, i);
    lemma_skip_json_value_bounds(s, c);
    if let Some(d) = skip_json_value(s, c) {
        lemma_skip_ws_bounds(s, d);
        let e = skip_ws(s, d);
        if e < s.len() && s[e] == ',' && i < e + 1 {
            lemma_skip_item_chain_bounds(s, e + 1);
        }
    }
}

fn skip_value_exec(s: &str, n: usize, i: usize) -> (r: Option<usize>)
    requires
        n == s@.len(),
        i <= n,
    ensures
        r is Some <==> skip_json_value(s@, i as int) is Some,
        r matches Some(d) ==> skip_json_value(s@, i as int) == Some(d as int) && i < d <= n,
    decreases n - i, 0int,
{
    if i >= n {
        return None;
    }
    let c = s.get_char(i);
    if c == '"' {
        match scan_string_exec(s, n, i + 1) {
            None => None,
            Some((_, d)) => Some(d),
        }
    } else if c == '{' {
        skip_object_rest_exec(s, n, i + 1)
    } else if c == '[' {
        skip_array_rest_exec(s, n, i + 1)
    } else {
        let d = skip_scalar_exec(s, n, i);
        if d > i {
            Some(d)
        } else {
            None
        }
    }
}

fn skip_object_rest_exec(s: &str, n: usize, i: usize) -> (r: Option<usize>)
    requires
        n == s@.len(),
        i <= n,
    ensures
        r is Some <==> skip_object_rest(s@, i as int) is Some,
        r matches Some(d) ==> skip_object_rest(s@, i as int) == Some(d as int) && i < d <= n,
    decreases n - i, 2int,
{
    let j = skip_ws_exec(s, n, i);
    if j < n && s.get_char(j) == '}' {
        Some(j + 1)
    } else {
        skip_member_chain_exec(s, n, i)
    }
}

fn skip_member_chain_exec(s: &str, n: usize, i: usize) -> (r: Option<usize>)
    requires
        n == s@.len(),
        i <= n,
    ensures
        r is Some <==> skip_member_chain(s@, i as int) is Some,
        r matches Some(d) ==> skip_member_chain(s@, i as int) == Some(d as int) && i < d <= n,
    decreases n - i, 1int,
{
    let j = skip_ws_exec(s, n, i);
    if j >= n {
        return None;
    }
    if s.get_char(j) != '"' {
        return None;
    }
    match scan_string_exec(s, n, j + 1) {
        None => None,
        Some((_, a)) => {
            let b = skip_ws_exec(s, n, a);
            if b >= n {
                return None;
            }
            if s.get_char(b) != ':' {
                return None;
            }
            let c = skip_ws_exec(s, n, b + 1);
            match skip_value_exec(s, n, c) {
                None => None,
                Some(d) => {
                    let e = skip_ws_exec(s, n, d);
                    if e < n && s.get_char(e) == ',' {
                        proof {
                            assert(i < e + 1);
                        }
                        skip_member_chain_exec(s, n, e + 1)
                    } else if e < n && s.get_char(e) == '}' {
                        Some(e + 1)
                    } else {
                        None
                    }
                },
            }
        },
    }
}

fn skip_array_rest_exec(s: &str, n: usize, i: usize) -> (r: Option<usize>)
    requires
        n == s@.len(),
        i <= n,
    ensures
        r is Some <==> skip_array_rest(s@, i as int) is Some,
        r matches Some(d) ==> skip_array_rest(s@, i as int) == Some(d as int) && i < d <= n,
    decreases n - i, 2int,
{
    let j = skip_ws_exec(s, n, i);
    if j < n && s.get_char(j) == ']' {
        Some(j + 1)
    } else {
        skip_item_chain_exec(s, n, i)
    }
}

fn skip_item_chain_exec(s: &str, n: usize, i: usize) -> (r: Option<usize>)
    requires
        n == s@.len(),
        i <= n,
    ensures
        r is Some <==> skip_item_chain(s@, i as int) is Some,
        r matches Some(d) ==> skip_item_chain(s@, i as int) == Some(d as int) && i < d <= n,
    decreases n - i, 1int,
{
    let c = skip_ws_exec(s, n, i);
    match skip_value_exec(s, n, c) {
        None => None,
        Some(d) => {
            let e = skip_ws_exec(s, n, d);
            if e < n && s.get_char(e) == ',' {
                proof {
                    assert(i < e + 1);
                }
                skip_item_chain_exec(s, n, e + 1)
            } else if e < n && s.get_char(e) == ']' {
                Some(e + 1)
            } else {
                None
            }
        },
    }
}

/// Scan one member value at `i`: a string yields its text, a bare scalar
/// yields no text; anything else is outside the grammar.
pub open spec fn scan_value(s: Seq<char>, i: int) -> Option<(Option<Seq<char>>, int)> {
    if 0 <= i < s.len() && s[i] == '"' {
        match scan_string(s, i + 1) {
            None => None,
            Some(p) => Some((Some(p.0), p.1)),
        }
    } else if 0 <= i < s.len() && (s[i] == '{' || s[i] == '[') {
        match skip_json_value(s, i) {
            None => None,
            Some(d) => Some((None, d)),
        }
    } else if skip_scalar(s, i) > i {
        Some((None, skip_scalar(s, i)))
    } else {
        None
    }
}

pub proof fn lemma_scan_value_bounds(s: Seq<char>, i: int)
    ensures
        scan_value(s, i) matches Some(p) ==> i < p.1 <= s.len(),
{
    lemma_scan_string_bounds(s, i + 1);
    lemma_skip_json_value_bounds(s, i);
    lemma_skip_scalar_bounds(s, i);
}

/// One member and its successors, from `i` (just after `{` or `,`):
/// whitespace, a quoted key, `:`, a value, then either `,` and further
/// members or the closing `}`.  Yields the members and the index just
/// after the `}`.
pub open spec fn scan_members(s: Seq<char>, i: int) -> Option<
    (Seq<(Seq<char>, Option<Seq<char>>)>, int),
>
    decreases s.len() - i,
    via scan_members_decreases
{
    let j = skip_ws(s, i);
    if !(0 <= j < s.len() && s[j] == '"') {
        None
    } else {
        match scan_string(s, j + 1) {
            None => None,
            Some(kp) => {
                let b = skip_ws(s, kp.1);
                if !(b < s.len() && s[b] == ':') {
                    None
                } else {
                    match scan_value(s, skip_ws(s, b + 1)) {
                        None => None,
                        Some(vp) => {
                            let e = skip_ws(s, vp.1);
                            if e < s.len() && s[e] == ',' {
                                match scan_members(s, e + 1) {
                                    None => None,
                                    Some(rp) => Some((seq![(kp.0, vp.0)] + rp.0, rp.1)),
                                }
                            } else if e < s.len() && s[e] == '}' {
                                Some((seq![(kp.0, vp.0)], e + 1))
                            } else {
                                None
                            }
                        },
                    }
                }
            },
        }
    }
}

#[via_fn]
proof fn scan_members_decreases(s: Seq<char>, i: int) {
    lemma_skip_ws_bounds(s, i);
    let j = skip_ws(s, i);
    if 0 <= j < s.len() {
        lemma_scan_string_bounds(s, j + 1);
        if let Some(kp) = scan_string(s, j + 1) {
            lemma_skip_ws_bounds(s, kp.1);
            let b = skip_ws(s, kp.1);
            lemma_skip_ws_bounds(s, b + 1);
            lemma_scan_value_bounds(s, skip_ws(s, b + 1));
            if let Some(vp) = scan_value(s, skip_ws(s, b + 1)) {
                lemma_skip_ws_bounds(s, vp.1);
            }
        }
    }
}

pub proof fn lemma_scan_members_bounds(s: Seq<char>, i: int)
    ensures
        scan_members(s, i) matches Some(p) ==> i < p.1 <= s.len(),
    decreases s.len() - i,
{
    lemma_skip_ws_bounds(s, i);
    let j = skip_ws(s, i);
    if 0 <= j < s.len() {
        lemma_scan_string_bounds(s, j + 1);
        if let Some(kp) = scan_string(s, j + 1) {
            lemma_skip_ws_bounds(s, kp.1);
            let b = skip_ws(s, kp.1);
            lemma_skip_ws_bounds(s, b + 1);
            lemma_scan_value_bounds(s, skip_ws(s, b + 1));
            if let Some(vp) = scan_value(s, skip_ws(s, b + 1)) {
                lemma_skip_ws_bounds(s, vp.1);
            }
        }
    }
    if 0 <= j < s.len() && s[j] == '"' {
        if let Some(kp) = scan_string(s, j + 1) {
            let b = skip_ws(s, kp.1);
            if b < s.len() && s[b] == ':' {
                if let Some(vp) = scan_value(s, skip_ws(s, b + 1)) {
                    let e = skip_ws(s, vp.1);
                    if e < s.len() && s[e] == ',' {
                        lemma_scan_members_bounds(s, e + 1);
                    }
                }
            }
        }
    }
}

/// The members of the whole argument text, when it is one flat object
/// with nothing but whitespace around it.
pub open spec fn spec_parse_arguments(s: Seq<char>) -> Option<
    Seq<(Seq<char>, Option<Seq<char>>)>,
> {
    let j = skip_ws(s, 0);
    if !(0 <= j < s.len() && s[j] == '{') {
        None
    } else {
        let k = skip_ws(s, j + 1);
        if k < s.len() && s[k] == '}' {
            if skip_ws(s, k + 1) == s.len() {
                Some(Seq::empty())
            } else {
                None
            }
        } else {
            match scan_members(s, j + 1) {
                None => None,
                Some(p) => if skip_ws(s, p.1) == s.len() {
                    Some(p.0)
                } else {
                    None
                },
            }
        }
    }
}

/// The value of the first member named `key`: `Some(Some(text))` for a
/// string member, `Some(None)` for a scalar one, `None` when absent.
pub open spec fn lookup_field(
    fields: Seq<(Seq<char>, Option<Seq<char>>)>,
    key: Seq<char>,
) -> Option<Option<Seq<char>>>
    decreases fields.len(),
{
    if fields.len() == 0 {
        None
    } else if fields[0].0 == key {
        Some(fields[0].1)
    } else {
        lookup_field(fields.drop_first(), key)
    }
}

/// The text of string member `key`, when the arguments parse and carry
/// it.
pub open spec fn spec_string_argument(s: Seq<char>, key: Seq<char>) -> Option<Seq<char>> {
    match spec_parse_arguments(s) {
        None => None,
        Some(fields) => match lookup_field(fields, key) {
            Some(Some(v)) => Some(v),
            _ => None,
        },
    }
}


/// The view of one parsed member.
pub open spec fn field_view(p: (String, Option<String>)) -> (Seq<char>, Option<Seq<char>>) {
    (p.0@, opt_view(p.1))
}

/// The view of a parsed member list.
pub open spec fn fields_view(v: Seq<(String, Option<String>)>) -> Seq<
    (Seq<char>, Option<Seq<char>>),
> {
    v.map_values(|p: (String, Option<String>)| field_view(p))
}

fn is_ws_exec(c: char) -> (r: bool)
    ensures
        r == is_ws(c),
{
    c == ' ' || c == '\t' || c == '\n' || c == '\r'
}

fn is_scalar_char_exec(c: char) -> (r: bool)
    ensures
        r == is_scalar_char(c),
{
    let v = c as u32;
    (0x30 <= v && v <= 0x39) || (0x61 <= v && v <= 0x7a) || (0x41 <= v && v <= 0x5a) || c == '+'
        || c == '-' || c == '.'
}

fn skip_ws_exec(s: &str, n: usize, i: usize) -> (r: usize)
    requires
        n == s@.len(),
        i <= n,
    ensures
        r as int == skip_ws(s@, i as int),
        i <= r <= n,
{
    let mut j = i;
    while j < n && is_ws_exec(s.get_char(j))
        invariant
            n == s@.len(),
            i <= j <= n,
            skip_ws(s@, i as int) == skip_ws(s@, j as int),
        decreases n - j,
    {
        j += 1;
    }
    j
}

fn skip_scalar_exec(s: &str, n: usize, i: usize) -> (r: usize)
    requires
        n == s@.len(),
        i <= n,
    ensures
        r as int == skip_scalar(s@, i as int),
        i <= r <= n,
{
    let mut j = i;
    while j < n && is_scalar_char_exec(s.get_char(j))
        invariant
            n == s@.len(),
            i <= j <= n,
            skip_scalar(s@, i as int) == skip_scalar(s@, j as int),
        decreases n - j,
    {
        j += 1;
    }
    j
}

fn unescape_exec(c: char) -> (r: Option<char>)
    ensures
        r == unescape(c),
{
    if c == '"' {
        Some('"')
    } else if c == '\\' {
        Some('\\')
    } else if c == '/' {
        Some('/')
    } else if c == 'n' {
        Some('\n')
    } else if c == 't' {
        Some('\t')
    } else if c == 'r' {
        Some('\r')
    } else if c == 'b' {
        Some('\u{8}')
    } else if c == 'f' {
        Some('\u{c}')
    } else {
        None
    }
}

fn scan_string_exec(s: &str, n: usize, i: usize) -> (r: Option<(String, usize)>)
    requires
        n == s@.len(),
        i <= n,
    ensures
        r is Some <==> scan_string(s@, i as int) is Some,
        r matches Some(p) ==> scan_string(s@, i as int) == Some((p.0@, p.1 as int)) && i < p.1
            <= n,
{
    let mut out: Vec<char> = Vec::new();
    let mut j = i;
    proof {
        lemma_scan_string_bounds(s@, i as int);
    }
    loop
        invariant
            n == s@.len(),
            i <= j <= n,
            (match scan_string(s@, j as int) {
                None => scan_string(s@, i as int) is None,
                Some(p) => scan_string(s@, i as int) == Some((out@ + p.0, p.1)),
            }),
        decreases n - j,
    {
        if j >= n {
            return None;
        }
        let c = s.get_char(j);
        if c == '"' {
            proof {
                assert(out@ + Seq::<char>::empty() =~= out@);
            }
            let text = chars_to_string(&out);
            return Some((text, j + 1));
        }
        if c == '\\' {
            if j + 1 >= n {
                return None;
            }
            let e = s.get_char(j + 1);
            if e == 'u' {
                if n - j <= 5 {
                    return None;
                }
                let h0 = hex_val_exec(s.get_char(j + 2));
                let h1 = hex_val_exec(s.get_char(j + 3));
                let h2 = hex_val_exec(s.get_char(j + 4));
                let h3 = hex_val_exec(s.get_char(j + 5));
                if h0 < 0 || h1 < 0 || h2 < 0 || h3 < 0 {
                    return None;
                }
                proof {
                    assert(hex_val(s@[j + 2]) <= 15);
                    assert(hex_val(s@[j + 3]) <= 15);
                    assert(hex_val(s@[j + 4]) <= 15);
                    assert(hex_val(s@[j + 5]) <= 15);
                }
                let v = (h0 as u32) * 0x1000 + (h1 as u32) * 0x100 + (h2 as u32) * 0x10 + (
                h3 as u32);
                proof {
                    assert(v as int == hex4_val(s@, j + 2));
                }
                if 0xD800 <= v && v < 0xE000 {
                    return None;
                }
                let u = match char::from_u32(v) {
                    Some(u) => u,
                    None => {
                        proof {
                            assert(vstd::utf8::is_scalar(v));
                            assert(false);
                        }
                        return None;
                    },
                };
                let ghost out0 = out@;
                out.push(u);
                proof {
                    vstd::utf8::char_u32_cast(u, v);
                    assert(((v as u32) as char) == u);
                    if let Some(p) = scan_string(s@, j + 6) {
                        assert(scan_string(s@, j as int) == Some((seq![u] + p.0, p.1)));
                        assert(out0 + (seq![u] + p.0) =~= out@ + p.0);
                    }
                }
                j += 6;
                continue;
            }
            match unescape_exec(e) {
                None => {
                    return None;
                },
                Some(u) => {
                    let ghost out0 = out@;
                    out.push(u);
                    proof {
                        if let Some(p) = scan_string(s@, j + 2) {
                            assert(scan_string(s@, j as int) == Some((seq![u] + p.0, p.1)));
                            assert(out0 + (seq![u] + p.0) =~= out@ + p.0);
                        }
                    }
                    j += 2;
                },
            }
        } else if (c as u32) < 0x20 {
            return None;
        } else {
            let ghost out0 = out@;
            out.push(c);
            proof {
                if let Some(p) = scan_string(s@, j + 1) {
                    assert(scan_string(s@, j as int) == Some((seq![c] + p.0, p.1)));
                    assert(out0 + (seq![c] + p.0) =~= out@ + p.0);
                }
            }
            j += 1;
        }
    }
}

fn scan_value_exec(s: &str, n: usize, i: usize) -> (r: Option<(Option<String>, usize)>)
    requires
        n == s@.len(),
        i <= n,
    ensures
        r is Some <==> scan_value(s@, i as int) is Some,
        r matches Some(p) ==> scan_value(s@, i as int) == Some((opt_view(p.0), p.1 as int)) && i
            < p.1 <= n,
{
    if i < n && s.get_char(i) == '"' {
        match scan_string_exec(s, n, i + 1) {
            None => None,
            Some((text, j)) => Some((Some(text), j)),
        }
    } else if i < n && (s.get_char(i) == '{' || s.get_char(i) == '[') {
        match skip_value_exec(s, n, i) {
            None => None,
            Some(d) => Some((None, d)),
        }
    } else {
        let j = skip_scalar_exec(s, n, i);
        if j > i {
            Some((None, j))
        } else {
            None
        }
    }
}

fn scan_members_exec(s: &str, n: usize, i: usize) -> (r: Option<
    (Vec<(String, Option<String>)>, usize),
>)
    requires
        n == s@.len(),
        i <= n,
    ensures
        r is Some <==> scan_members(s@, i as int) is Some,
        r matches Some(p) ==> scan_members(s@, i as int) == Some((fields_view(p.0@), p.1 as int))
            && i < p.1 <= n,
    decreases n - i,
{
    let j = skip_ws_exec(s, n, i);
    if j >= n {
        return None;
    }
    if s.get_char(j) != '"' {
        return None;
    }
    match scan_string_exec(s, n, j + 1) {
        None => None,
        Some((key, a)) => {
            let b = skip_ws_exec(s, n, a);
            if b >= n {
                return None;
            }
            if s.get_char(b) != ':' {
                return None;
            }
            let c = skip_ws_exec(s, n, b + 1);
            match scan_value_exec(s, n, c) {
                None => None,
                Some((v, d)) => {
                    let e = skip_ws_exec(s, n, d);
                    if e < n && s.get_char(e) == ',' {
                        match scan_members_exec(s, n, e + 1) {
                            None => None,
                            Some((rest, f)) => {
                                let ghost rest0 = rest@;
                                let mut rest = rest;
                                rest.insert(0, (key, v));
                                proof {
                                    assert(rest@ =~= seq![(rest@[0])] + rest0);
                                    assert(fields_view(rest@) =~= seq![field_view(rest@[0])]
                                        + fields_view(rest0));
                                }
                                Some((rest, f))
                            },
                        }
                    } else if e < n && s.get_char(e) == '}' {
                        let mut one: Vec<(String, Option<String>)> = Vec::new();
                        one.push((key, v));
                        proof {
                            assert(fields_view(one@) =~= seq![field_view(one@[0])]);
                        }
                        Some((one, e + 1))
                    } else {
                        None
                    }
                },
            }
        },
    }
}

/// Parse a whole argument text as a flat JSON object.
pub fn parse_arguments(s: &str) -> (r: Option<Vec<(String, Option<String>)>>)
    ensures
        r is Some <==> spec_parse_arguments(s@) is Some,
        r matches Some(v) ==> spec_parse_arguments(s@) == Some(fields_view(v@)),
{
    let n = s.unicode_len();
    let j = skip_ws_exec(s, n, 0);
    if j >= n {
        return None;
    }
    if s.get_char(j) != '{' {
        return None;
    }
    let k = skip_ws_exec(s, n, j + 1);
    if k < n && s.get_char(k) == '}' {
        if skip_ws_exec(s, n, k + 1) == n {
            let empty: Vec<(String, Option<String>)> = Vec::new();
            proof {
                assert(fields_view(empty@) =~= Seq::<(Seq<char>, Option<Seq<char>>)>::empty());
            }
            Some(empty)
        } else {
            None
        }
    } else {
        match scan_members_exec(s, n, j + 1) {
            None => None,
            Some((fields, e)) => {
                if skip_ws_exec(s, n, e) == n {
                    Some(fields)
                } else {
                    None
                }
            },
        }
    }
}

/// Find the first member named `key` among parsed members.
pub fn lookup_string_field(fields: &Vec<(String, Option<String>)>, key: &str) -> (r: Option<
    Option<String>,
>)
    ensures
        r is Some <==> lookup_field(fields_view(fields@), key@) is Some,
        r matches Some(v) ==> lookup_field(fields_view(fields@), key@) == Some(opt_view(v)),
{
    let ghost all = fields_view(fields@);
    let mut idx: usize = 0;
    proof {
        assert(all.skip(0) =~= all);
    }
    while idx < fields.len()
        invariant
            all == fields_view(fields@),
            0 <= idx <= fields@.len(),
            all.len() == fields@.len(),
            lookup_field(all, key@) == lookup_field(all.skip(idx as int), key@),
        decreases fields@.len() - idx,
    {
        let hit = crate::text::str_eq(fields[idx].0.as_str(), key);
        proof {
            assert(all.skip(idx as int)[0] == field_view(fields@[idx as int]));
        }
        if hit {
            let value = match &fields[idx].1 {
                Some(v) => Some(v.clone()),
                None => None,
            };
            return Some(value);
        }
        proof {
            assert(all.skip(idx as int).drop_first() =~= all.skip(idx + 1));
        }
        idx += 1;
    }
    proof {
        assert(all.skip(idx as int) =~= Seq::<(Seq<char>, Option<Seq<char>>)>::empty());
    }
    None
}


/// The complaint when the argument text is not one flat object.
pub open spec fn err_malformed_args() -> Seq<char> {
    "arguments are not a flat JSON object"@
}

/// The complaint when a required string member is absent (or not a
/// string).
pub open spec fn err_missing_arg(key: Seq<char>) -> Seq<char> {
    "missing string argument `"@ + key + "`"@
}

/// What extracting string member `key` from an argument text yields:
/// the member's text, or the exact complaint.
pub open spec fn string_arg_outcome(args: Seq<char>, key: Seq<char>) -> Result<Seq<char>, Seq<char>> {
    match spec_parse_arguments(args) {
        None => Err(err_malformed_args()),
        Some(fields) => match lookup_field(fields, key) {
            Some(Some(v)) => Ok(v),
            _ => Err(err_missing_arg(key)),
        },
    }
}

/// Extract string member `key` from an argument text.
pub fn string_argument(arguments: &str, key: &str) -> (r: Result<String, String>)
    ensures
        r matches Ok(v) ==> string_arg_outcome(arguments@, key@) == Ok::<Seq<char>, Seq<char>>(v@),
        r matches Err(m) ==> string_arg_outcome(arguments@, key@) == Err::<Seq<char>, Seq<char>>(
            m@,
        ),
{
    let fields = match parse_arguments(arguments) {
        None => {
            return Err(String::from_str("arguments are not a flat JSON object"));
        },
        Some(f) => f,
    };
    match lookup_string_field(&fields, key) {
        Some(Some(v)) => Ok(v),
        _ => {
            let mut msg: Vec<char> = Vec::new();
            push_str_chars(&mut msg, "missing string argument `");
            push_str_chars(&mut msg, key);
            push_str_chars(&mut msg, "`");
            proof {
                assert(msg@ =~= err_missing_arg(key@));
            }
            Err(chars_to_string(&msg))
        },
    }
}

} // verus!
