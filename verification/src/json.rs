//! The lexical layer of the registry and identity documents.
//!
//! Both documents are JSON texts.  Strings carry the full set of JSON
//! escapes, including `\uXXXX` with surrogate pairs, and reject raw control
//! characters; the values of members the reader does not know are only
//! checked for balanced structure, not parsed.  Two deliberate loosenings,
//! both on the accepting side: a trailing comma before a closing bracket is
//! tolerated, and a repeated known member's last occurrence wins.  Every
//! accepting function is defined twice: a spec function that is the grammar,
//! and an executable parser proved to return exactly what the spec function
//! says.
//!
//! Positions are character indices; a parse result is the index just past
//! what was consumed.

use vstd::prelude::*;

use crate::text::{is_digit_char, is_ws, is_ws_char};

verus! {

/// Characters left from position `i`; the termination measure of every
/// recursive function of the grammar.
pub open spec fn rem(s: Seq<char>, i: nat) -> int {
    if i <= s.len() {
        s.len() - i
    } else {
        0
    }
}

/// `q`, but never below `lo`.  Every parser consumes at least one character,
/// so clamping its end position this way changes nothing; it only makes that
/// fact plain to the termination checker.
pub open spec fn at_least(q: nat, lo: nat) -> nat {
    if q < lo {
        lo
    } else {
        q
    }
}

/// Count of consecutive whitespace characters at `i`.
pub open spec fn spec_ws(s: Seq<char>, i: nat) -> nat
    decreases rem(s, i), 0nat,
{
    if i < s.len() && is_ws_char(s[i as int]) {
        (1 + spec_ws(s, (i + 1) as nat)) as nat
    } else {
        0
    }
}

/// Skips whitespace.
pub fn skip_ws(s: &str, n: usize, i: usize) -> (r: usize)
    requires
        n == s@.len(),
        i <= n,
    ensures
        r == i + spec_ws(s@, i as nat),
        i <= r <= n,
{
    let mut j: usize = i;
    while j < n && is_ws(s.get_char(j))
        invariant
            n == s@.len(),
            i <= j <= n,
            spec_ws(s@, i as nat) == j - i + spec_ws(s@, j as nat),
        decreases n - j,
    {
        j += 1;
    }
    j
}

/// Whether `c` is a hexadecimal digit.
pub open spec fn is_hex_char(c: char) -> bool {
    ('0' <= c && c <= '9') || ('a' <= c && c <= 'f') || ('A' <= c && c <= 'F')
}

/// The numeric value of a hexadecimal digit.
pub open spec fn hex_digit_val(c: char) -> int {
    if '0' <= c && c <= '9' {
        c as u32 - '0' as u32
    } else if 'a' <= c && c <= 'f' {
        c as u32 - 'a' as u32 + 10
    } else {
        c as u32 - 'A' as u32 + 10
    }
}

/// The value of the four hexadecimal digits at `i`, if four stand there.
pub open spec fn spec_hex4(s: Seq<char>, i: nat) -> Option<u32> {
    if i + 4 <= s.len() && is_hex_char(s[i as int]) && is_hex_char(s[i as int + 1]) && is_hex_char(
        s[i as int + 2],
    ) && is_hex_char(s[i as int + 3]) {
        Some(
            (hex_digit_val(s[i as int]) * 0x1000 + hex_digit_val(s[i as int + 1]) * 0x100
                + hex_digit_val(s[i as int + 2]) * 0x10 + hex_digit_val(s[i as int + 3])) as u32,
        )
    } else {
        None
    }
}

/// The character a `\uXXXX` escape pair with high surrogate `v` and low
/// surrogate `w` names.
pub open spec fn spec_surrogate_pair(v: u32, w: u32) -> char {
    (((0x10000 + (v - 0xD800) * 0x400 + (w - 0xDC00)) as u32) as char)
}

/// The decoded character and consumed length of the escape sequence starting
/// at `i` (a backslash): the short escapes, or `\uXXXX`, where a high
/// surrogate must be followed by a low-surrogate escape and a lone surrogate
/// is invalid.
pub open spec fn spec_escape(s: Seq<char>, i: nat) -> Option<(char, nat)> {
    if i + 1 < s.len() {
        let c = s[i as int + 1];
        if c == '"' {
            Some(('"', 2))
        } else if c == '\\' {
            Some(('\\', 2))
        } else if c == '/' {
            Some(('/', 2))
        } else if c == 'b' {
            Some(('\u{0008}', 2))
        } else if c == 'f' {
            Some(('\u{000C}', 2))
        } else if c == 'n' {
            Some(('\n', 2))
        } else if c == 'r' {
            Some(('\r', 2))
        } else if c == 't' {
            Some(('\t', 2))
        } else if c == 'u' {
            match spec_hex4(s, (i + 2) as nat) {
                None => None,
                Some(v) => if 0xD800 <= v && v <= 0xDBFF {
                    if i + 8 <= s.len() && s[i as int + 6] == '\\' && s[i as int + 7] == 'u' {
                        match spec_hex4(s, (i + 8) as nat) {
                            None => None,
                            Some(w) => if 0xDC00 <= w && w <= 0xDFFF {
                                Some((spec_surrogate_pair(v, w), 12))
                            } else {
                                None
                            },
                        }
                    } else {
                        None
                    }
                } else if 0xDC00 <= v && v <= 0xDFFF {
                    None
                } else {
                    Some((v as char, 6))
                },
            }
        } else {
            None
        }
    } else {
        None
    }
}

/// The decoded content of string characters from `i` up to a closing quote,
/// and the position past that quote.  Escapes decode to the character they
/// name; a raw control character, a bad escape or a missing quote make the
/// string invalid.
pub open spec fn spec_str_content(s: Seq<char>, i: nat) -> Option<(Seq<char>, nat)>
    decreases rem(s, i),
{
    if i < s.len() {
        if s[i as int] == '"' {
            Some((Seq::empty(), (i + 1) as nat))
        } else if s[i as int] == '\\' {
            match spec_escape(s, i) {
                None => None,
                Some((c, k)) => match spec_str_content(s, (i + at_least(k, 2)) as nat) {
                    None => None,
                    Some((rest, e)) => Some((seq![c] + rest, e)),
                },
            }
        } else if (s[i as int] as u32) < 0x20 {
            None
        } else {
            match spec_str_content(s, (i + 1) as nat) {
                None => None,
                Some((rest, e)) => Some((seq![s[i as int]] + rest, e)),
            }
        }
    } else {
        None
    }
}

/// A JSON string value at `i`: its decoded content and the position past the
/// closing quote.
pub open spec fn spec_pstring(s: Seq<char>, i: nat) -> Option<(Seq<char>, nat)> {
    if i < s.len() && s[i as int] == '"' {
        spec_str_content(s, (i + 1) as nat)
    } else {
        None
    }
}

/// Relies on `char::from_u32`: it returns the character of the given value,
/// and returns nothing exactly when the value is a surrogate or larger than
/// the largest character.
pub assume_specification[ char::from_u32 ](v: u32) -> (r: Option<char>)
    ensures
        (r matches Some(c) ==> c as u32 == v),
        (r is Some) <==> (v < 0xD800 || (0xE000 <= v && v <= 0x10FFFF)),
;

/// Relies on `String::from` for a `char`: the one-character string of it.
#[verifier::external_body]
fn char_string(c: char) -> (r: String)
    ensures
        r@ == seq![c],
{
    String::from(c)
}

/// Reads one hexadecimal digit.
fn hex_digit(c: char) -> (r: Option<u32>)
    ensures
        match r {
            Some(d) => is_hex_char(c) && d == hex_digit_val(c) && d < 16,
            None => !is_hex_char(c),
        },
{
    if '0' <= c && c <= '9' {
        Some((c as u32) - ('0' as u32))
    } else if 'a' <= c && c <= 'f' {
        Some((c as u32) - ('a' as u32) + 10)
    } else if 'A' <= c && c <= 'F' {
        Some((c as u32) - ('A' as u32) + 10)
    } else {
        None
    }
}

/// Reads the four hexadecimal digits at `i`.
fn hex4(s: &str, n: usize, i: usize) -> (r: Option<u32>)
    requires
        n == s@.len(),
        i <= n,
    ensures
        match r {
            Some(v) => spec_hex4(s@, i as nat) == Some(v) && i + 4 <= n,
            None => spec_hex4(s@, i as nat) is None,
        },
{
    if n - i < 4 {
        return None;
    }
    let r0 = hex_digit(s.get_char(i));
    let r1 = hex_digit(s.get_char(i + 1));
    let r2 = hex_digit(s.get_char(i + 2));
    let r3 = hex_digit(s.get_char(i + 3));
    match (r0, r1, r2, r3) {
        (Some(d0), Some(d1), Some(d2), Some(d3)) => Some(
            d0 * 0x1000 + d1 * 0x100 + d2 * 0x10 + d3,
        ),
        _ => None,
    }
}

/// Decodes the escape sequence at `i`.
fn escape(s: &str, n: usize, i: usize) -> (r: Option<(char, usize)>)
    requires
        n == s@.len(),
        i <= n,
    ensures
        match r {
            Some(v) => spec_escape(s@, i as nat) == Some((v.0, v.1 as nat)) && 2 <= v.1 && i + v.1
                <= n,
            None => spec_escape(s@, i as nat) is None,
        },
{
    if n - i < 2 {
        return None;
    }
    let c = s.get_char(i + 1);
    if c == '"' {
        Some(('"', 2))
    } else if c == '\\' {
        Some(('\\', 2))
    } else if c == '/' {
        Some(('/', 2))
    } else if c == 'b' {
        Some(('\u{0008}', 2))
    } else if c == 'f' {
        Some(('\u{000C}', 2))
    } else if c == 'n' {
        Some(('\n', 2))
    } else if c == 'r' {
        Some(('\r', 2))
    } else if c == 't' {
        Some(('\t', 2))
    } else if c == 'u' {
        match hex4(s, n, i + 2) {
            None => None,
            Some(v) => {
                if 0xD800 <= v && v <= 0xDBFF {
                    if n - i >= 8 && s.get_char(i + 6) == '\\' && s.get_char(i + 7) == 'u' {
                        match hex4(s, n, i + 8) {
                            None => None,
                            Some(w) => {
                                if 0xDC00 <= w && w <= 0xDFFF {
                                    let code: u32 = 0x10000 + (v - 0xD800) * 0x400 + (w - 0xDC00);
                                    match char::from_u32(code) {
                                        Some(ch) => {
                                            proof {
                                                vstd::utf8::char_u32_cast(ch, code);
                                            }
                                            Some((ch, 12))
                                        },
                                        None => None,
                                    }
                                } else {
                                    None
                                }
                            },
                        }
                    } else {
                        None
                    }
                } else if 0xDC00 <= v && v <= 0xDFFF {
                    None
                } else {
                    match char::from_u32(v) {
                        Some(ch) => {
                            proof {
                                vstd::utf8::char_u32_cast(ch, v);
                            }
                            Some((ch, 6))
                        },
                        None => None,
                    }
                }
            },
        }
    } else {
        None
    }
}

/// Parses a JSON string value, decoding its escapes.
pub fn pstring(s: &str, n: usize, i: usize) -> (r: Option<(String, usize)>)
    requires
        n == s@.len(),
        i <= n,
    ensures
        match r {
            Some(v) => spec_pstring(s@, i as nat) == Some((v.0@, v.1 as nat)) && i < v.1 <= n,
            None => spec_pstring(s@, i as nat) is None,
        },
{
    if !(i < n && s.get_char(i) == '"') {
        return None;
    }
    let mut out = String::new();
    let mut p: usize = i + 1;
    proof {
        assert(out@ =~= Seq::<char>::empty());
        assert forall|re: (Seq<char>, nat)| out@ + re.0 =~= re.0 by {}
    }
    loop
        invariant
            n == s@.len(),
            i + 1 <= p <= n,
            spec_pstring(s@, i as nat) == (match spec_str_content(s@, p as nat) {
                Some(re) => Some((out@ + re.0, re.1)),
                None => None::<(Seq<char>, nat)>,
            }),
        decreases n - p,
    {
        if p >= n {
            return None;
        }
        let c = s.get_char(p);
        if c == '"' {
            proof {
                assert(out@ + Seq::<char>::empty() =~= out@);
            }
            return Some((out, p + 1));
        }
        if c == '\\' {
            match escape(s, n, p) {
                None => {
                    return None;
                },
                Some((ch, k)) => {
                    proof {
                        assert(at_least(k as nat, 2) == k as nat);
                    }
                    let cs = char_string(ch);
                    let ghost old_out = out@;
                    out.append(cs.as_str());
                    proof {
                        assert(out@ =~= old_out + seq![ch]);
                        assert forall|rest: Seq<char>| #[trigger] (out@ + rest) =~= old_out + (
                        seq![ch] + rest) by {}
                    }
                    p = p + k;
                },
            }
        } else {
            if (c as u32) < 0x20 {
                return None;
            }
            let piece = s.substring_char(p, p + 1);
            proof {
                assert(piece@ =~= seq![s@[p as int]]);
            }
            let ghost old_out = out@;
            out.append(piece);
            proof {
                assert(out@ =~= old_out + seq![c]);
                assert forall|rest: Seq<char>| #[trigger] (out@ + rest) =~= old_out + (seq![c]
                    + rest) by {}
            }
            p = p + 1;
        }
    }
}

/// Count of consecutive number-token characters at `i`: digits, sign,
/// decimal point, exponent mark.  Unknown members' numbers are only skipped,
/// so their inner form is not checked further.
pub open spec fn is_num_char(c: char) -> bool {
    is_digit_char(c) || c == '-' || c == '+' || c == '.' || c == 'e' || c == 'E'
}

pub fn is_num(c: char) -> (r: bool)
    ensures
        r == is_num_char(c),
{
    ('0' <= c && c <= '9') || c == '-' || c == '+' || c == '.' || c == 'e' || c == 'E'
}

pub open spec fn spec_num_len(s: Seq<char>, i: nat) -> nat
    decreases rem(s, i), 0nat,
{
    if i < s.len() && is_num_char(s[i as int]) {
        (1 + spec_num_len(s, (i + 1) as nat)) as nat
    } else {
        0
    }
}

/// Skips number-token characters.
pub fn skip_num(s: &str, n: usize, i: usize) -> (r: usize)
    requires
        n == s@.len(),
        i <= n,
    ensures
        r == i + spec_num_len(s@, i as nat),
        i <= r <= n,
{
    let mut j: usize = i;
    while j < n && is_num(s.get_char(j))
        invariant
            n == s@.len(),
            i <= j <= n,
            spec_num_len(s@, i as nat) == j - i + spec_num_len(s@, j as nat),
        decreases n - j,
    {
        j += 1;
    }
    j
}

/// Whether the literal word (`true`, `false`, `null`) stands at `i`.
pub open spec fn spec_lit_at(s: Seq<char>, i: nat, w: Seq<char>) -> bool {
    i + w.len() <= s.len() && s.subrange(i as int, (i + w.len()) as int) == w
}

/// End of one JSON value starting at `i` (no leading whitespace), if the
/// text from `i` begins with a structurally valid value.
pub open spec fn spec_skip_value(s: Seq<char>, i: nat) -> Option<nat>
    decreases rem(s, i), 1nat,
{
    if i >= s.len() {
        None
    } else if s[i as int] == '"' {
        match spec_pstring(s, i) {
            Some(ce) => Some(ce.1),
            None => None,
        }
    } else if s[i as int] == '[' {
        spec_skip_items(s, (i + 1) as nat, true)
    } else if s[i as int] == '{' {
        spec_skip_items(s, (i + 1) as nat, false)
    } else if s[i as int] == 't' {
        if spec_lit_at(s, i, "true"@) {
            Some((i + 4) as nat)
        } else {
            None
        }
    } else if s[i as int] == 'f' {
        if spec_lit_at(s, i, "false"@) {
            Some((i + 5) as nat)
        } else {
            None
        }
    } else if s[i as int] == 'n' {
        if spec_lit_at(s, i, "null"@) {
            Some((i + 4) as nat)
        } else {
            None
        }
    } else if s[i as int] == '-' || is_digit_char(s[i as int]) {
        Some((i + at_least(spec_num_len(s, i), 1)) as nat)
    } else {
        None
    }
}

/// End of the items of an array (`arr` true) or the members of an object
/// (`arr` false), starting just after the opening bracket, up to and past
/// the closing one.
pub open spec fn spec_skip_items(s: Seq<char>, i: nat, arr: bool) -> Option<nat>
    decreases rem(s, i), 3nat,
{
    let p = (i + spec_ws(s, i)) as nat;
    let close = if arr {
        ']'
    } else {
        '}'
    };
    if p < s.len() && s[p as int] == close {
        Some((p + 1) as nat)
    } else {
        match spec_skip_entry(s, p, arr) {
            None => None,
            Some(q0) => {
                let q = at_least(q0, (p + 1) as nat);
                let p2 = (q + spec_ws(s, q)) as nat;
                if p2 < s.len() && s[p2 as int] == ',' {
                    spec_skip_items(s, (p2 + 1) as nat, arr)
                } else if p2 < s.len() && s[p2 as int] == close {
                    Some((p2 + 1) as nat)
                } else {
                    None
                }
            },
        }
    }
}

/// End of one array item (a value) or one object member (a string key, a
/// colon, a value), starting at `i` with no leading whitespace.
pub open spec fn spec_skip_entry(s: Seq<char>, i: nat, arr: bool) -> Option<nat>
    decreases rem(s, i), 2nat,
{
    if arr {
        spec_skip_value(s, i)
    } else {
        if i < s.len() && s[i as int] == '"' {
            match spec_pstring(s, i) {
                None => None,
                Some(ce) => {
                    let e = at_least(ce.1, (i + 1) as nat);
                    let p = (e + spec_ws(s, e)) as nat;
                    if p < s.len() && s[p as int] == ':' {
                        let p2 = ((p + 1) + spec_ws(s, (p + 1) as nat)) as nat;
                        spec_skip_value(s, p2)
                    } else {
                        None
                    }
                },
            }
        } else {
            None
        }
    }
}

/// Skips one JSON value.
pub fn skip_value(s: &str, n: usize, i: usize) -> (r: Option<usize>)
    requires
        n == s@.len(),
        i <= n,
    ensures
        match r {
            Some(j) => spec_skip_value(s@, i as nat) == Some(j as nat) && i < j <= n,
            None => spec_skip_value(s@, i as nat) is None,
        },
    decreases rem(s@, i as nat), 1nat,
{
    if i >= n {
        return None;
    }
    let c = s.get_char(i);
    if c == '"' {
        match pstring(s, n, i) {
            Some((_, e)) => Some(e),
            None => None,
        }
    } else if c == '[' {
        skip_items(s, n, i + 1, true)
    } else if c == '{' {
        skip_items(s, n, i + 1, false)
    } else if c == 't' {
        proof {
            reveal_strlit("true");
        }
        if lit_at(s, n, i, "true") {
            Some(i + 4)
        } else {
            None
        }
    } else if c == 'f' {
        proof {
            reveal_strlit("false");
        }
        if lit_at(s, n, i, "false") {
            Some(i + 5)
        } else {
            None
        }
    } else if c == 'n' {
        proof {
            reveal_strlit("null");
        }
        if lit_at(s, n, i, "null") {
            Some(i + 4)
        } else {
            None
        }
    } else if c == '-' || ('0' <= c && c <= '9') {
        let j = skip_num(s, n, i);
        proof {
            assert(spec_num_len(s@, i as nat) >= 1);
        }
        Some(j)
    } else {
        None
    }
}

/// Whether the literal word stands at `i`.
pub fn lit_at(s: &str, n: usize, i: usize, w: &str) -> (r: bool)
    requires
        n == s@.len(),
        i <= n,
    ensures
        r == spec_lit_at(s@, i as nat, w@),
{
    let wn = w.unicode_len();
    if wn > n - i {
        return false;
    }
    let mut k: usize = 0;
    while k < wn
        invariant
            n == s@.len(),
            wn == w@.len(),
            i + wn <= n,
            0 <= k <= wn,
            forall|t: int| 0 <= t < k ==> s@[i + t] == w@[t],
        decreases wn - k,
    {
        if s.get_char(i + k) != w.get_char(k) {
            proof {
                assert(s@.subrange(i as int, i + wn) != w@) by {
                    assert(s@.subrange(i as int, i + wn)[k as int] == s@[i + k]);
                }
            }
            return false;
        }
        k += 1;
    }
    proof {
        assert(s@.subrange(i as int, i + wn) =~= w@);
    }
    true
}

/// Skips the rest of an array or object after the opening bracket.
fn skip_items(s: &str, n: usize, i: usize, arr: bool) -> (r: Option<usize>)
    requires
        n == s@.len(),
        i <= n,
    ensures
        match r {
            Some(j) => spec_skip_items(s@, i as nat, arr) == Some(j as nat) && i < j <= n,
            None => spec_skip_items(s@, i as nat, arr) is None,
        },
    decreases rem(s@, i as nat), 3nat,
{
    let p = skip_ws(s, n, i);
    let close = if arr {
        ']'
    } else {
        '}'
    };
    if p < n && s.get_char(p) == close {
        return Some(p + 1);
    }
    match skip_entry(s, n, p, arr) {
        None => None,
        Some(q) => {
            proof {
                assert(at_least(q as nat, (p + 1) as nat) == q as nat);
            }
            let p2 = skip_ws(s, n, q);
            if p2 < n && s.get_char(p2) == ',' {
                skip_items(s, n, p2 + 1, arr)
            } else if p2 < n && s.get_char(p2) == close {
                Some(p2 + 1)
            } else {
                None
            }
        },
    }
}

/// Skips one array item or one object member.
fn skip_entry(s: &str, n: usize, i: usize, arr: bool) -> (r: Option<usize>)
    requires
        n == s@.len(),
        i <= n,
    ensures
        match r {
            Some(j) => spec_skip_entry(s@, i as nat, arr) == Some(j as nat) && i < j <= n,
            None => spec_skip_entry(s@, i as nat, arr) is None,
        },
    decreases rem(s@, i as nat), 2nat,
{
    if arr {
        skip_value(s, n, i)
    } else {
        if i < n && s.get_char(i) == '"' {
            match pstring(s, n, i) {
                None => None,
                Some((_, e)) => {
                    proof {
                        assert(at_least(e as nat, (i + 1) as nat) == e as nat);
                    }
                    let p = skip_ws(s, n, e);
                    if p < n && s.get_char(p) == ':' {
                        let p2 = skip_ws(s, n, p + 1);
                        skip_value(s, n, p2)
                    } else {
                        None
                    }
                },
            }
        } else {
            None
        }
    }
}

} // verus!
