//! Verified text utilities: whitespace trimming, splitting on a separator,
//! first-token extraction, and decimal parsing.
//!
//! The backend's remote console answers with line-oriented text, and the
//! identity provider writes identifiers as decimal strings; these functions
//! give both an exact mathematical meaning.

use vstd::prelude::*;

verus! {

/// The whitespace characters recognized when trimming.
pub open spec fn is_ws_char(c: char) -> bool {
    c == ' ' || c == '\t' || c == '\r' || c == '\n'
}

pub fn is_ws(c: char) -> (r: bool)
    ensures
        r == is_ws_char(c),
{
    c == ' ' || c == '\t' || c == '\r' || c == '\n'
}

/// The sequence with its leading whitespace dropped.
pub open spec fn spec_trim_start(s: Seq<char>) -> Seq<char>
    decreases s.len(),
{
    if s.len() > 0 && is_ws_char(s[0]) {
        spec_trim_start(s.drop_first())
    } else {
        s
    }
}

/// The sequence with its trailing whitespace dropped.
pub open spec fn spec_trim_end(s: Seq<char>) -> Seq<char>
    decreases s.len(),
{
    if s.len() > 0 && is_ws_char(s.last()) {
        spec_trim_end(s.drop_last())
    } else {
        s
    }
}

/// The sequence with leading and trailing whitespace dropped.
pub open spec fn spec_trim(s: Seq<char>) -> Seq<char> {
    spec_trim_end(spec_trim_start(s))
}

proof fn lemma_trim_start_skip(s: Seq<char>, a: int)
    requires
        0 <= a <= s.len(),
        forall|k: int| 0 <= k < a ==> is_ws_char(s[k]),
        a == s.len() || !is_ws_char(s[a]),
    ensures
        spec_trim_start(s) == s.skip(a),
    decreases a,
{
    if a == 0 {
        assert(s.skip(0) =~= s);
    } else {
        assert(is_ws_char(s[0]));
        let t = s.drop_first();
        assert(t =~= s.skip(1));
        assert(forall|k: int| 0 <= k < a - 1 ==> is_ws_char(#[trigger] t[k]));
        assert(a - 1 == t.len() || !is_ws_char(t[a - 1]));
        lemma_trim_start_skip(t, a - 1);
        assert(t.skip(a - 1) =~= s.skip(a));
    }
}

proof fn lemma_trim_end_take(s: Seq<char>, b: int)
    requires
        0 <= b <= s.len(),
        forall|k: int| b <= k < s.len() ==> is_ws_char(s[k]),
        b == 0 || !is_ws_char(s[b - 1]),
    ensures
        spec_trim_end(s) == s.take(b),
    decreases s.len(),
{
    if b == s.len() {
        if s.len() > 0 {
            assert(!is_ws_char(s.last()));
        }
        assert(s.take(b) =~= s);
    } else {
        assert(is_ws_char(s.last()));
        let t = s.drop_last();
        assert(forall|k: int| b <= k < t.len() ==> is_ws_char(#[trigger] t[k]));
        lemma_trim_end_take(t, b);
        assert(t.take(b) =~= s.take(b));
    }
}

/// Trims leading and trailing whitespace.
pub fn trim(s: &str) -> (r: String)
    ensures
        r@ == spec_trim(s@),
{
    let n = s.unicode_len();
    let mut a: usize = 0;
    while a < n && is_ws(s.get_char(a))
        invariant
            n == s@.len(),
            0 <= a <= n,
            forall|k: int| 0 <= k < a ==> is_ws_char(s@[k]),
        decreases n - a,
    {
        a += 1;
    }
    let mut b: usize = n;
    while b > a && is_ws(s.get_char(b - 1))
        invariant
            n == s@.len(),
            a <= b <= n,
            forall|k: int| b <= k < n ==> is_ws_char(s@[k]),
        decreases b,
    {
        b -= 1;
    }
    let sub = s.substring_char(a, b);
    let r = sub.to_owned();
    proof {
        lemma_trim_start_skip(s@, a as int);
        let t = s@.skip(a as int);
        assert(forall|k: int|
            b - a <= k < t.len() ==> is_ws_char(#[trigger] t[k]) && t[k] == s@[k + a]) by {
            assert(forall|k: int| 0 <= k < t.len() ==> #[trigger] t[k] == s@[k + a]);
        }
        assert(b - a == 0 || !is_ws_char(t[b - a - 1]));
        lemma_trim_end_take(t, b - a);
        assert(t.take(b - a) =~= s@.subrange(a as int, b as int));
    }
    r
}

/// Index of the first occurrence of `sep`, or the length if none occurs.
pub open spec fn spec_find(s: Seq<char>, sep: char) -> nat
    decreases s.len(),
{
    if s.len() == 0 {
        0
    } else if s[0] == sep {
        0
    } else {
        1 + spec_find(s.drop_first(), sep)
    }
}

pub proof fn lemma_find_props(s: Seq<char>, sep: char)
    ensures
        spec_find(s, sep) <= s.len(),
        forall|k: int| 0 <= k < spec_find(s, sep) ==> s[k] != sep,
        spec_find(s, sep) < s.len() ==> s[spec_find(s, sep) as int] == sep,
    decreases s.len(),
{
    if s.len() > 0 && s[0] != sep {
        let t = s.drop_first();
        lemma_find_props(t, sep);
        assert(forall|k: int| 0 <= k < t.len() ==> #[trigger] t[k] == s[k + 1]);
        assert forall|k: int| 0 <= k < spec_find(s, sep) implies s[k] != sep by {
            if k >= 1 {
                assert(t[k - 1] == s[k]);
                assert(t[k - 1] != sep);
            }
        }
    }
}

/// The pieces of `s` between occurrences of `sep`, in order.  There is always
/// at least one piece; separators at the ends yield empty pieces.
pub open spec fn spec_split(s: Seq<char>, sep: char) -> Seq<Seq<char>>
    decreases s.len(),
{
    let i = spec_find(s, sep);
    if i >= s.len() {
        seq![s]
    } else {
        seq![s.take(i as int)] + spec_split(s.skip(i as int + 1), sep)
    }
}

/// Finds the first occurrence of `sep` at or after position `from`.
fn find_from(s: &str, n: usize, sep: char, from: usize) -> (r: Option<usize>)
    requires
        n == s@.len(),
        from <= n,
    ensures
        match r {
            Some(j) => {
                &&& from <= j < n
                &&& s@[j as int] == sep
                &&& forall|k: int| from <= k < j ==> s@[k] != sep
            },
            None => forall|k: int| from <= k < n ==> s@[k] != sep,
        },
{
    let mut j: usize = from;
    while j < n
        invariant
            n == s@.len(),
            from <= j <= n,
            forall|k: int| from <= k < j ==> s@[k] != sep,
        decreases n - j,
    {
        if s.get_char(j) == sep {
            return Some(j);
        }
        j += 1;
    }
    None
}

proof fn lemma_find_exact(s: Seq<char>, sep: char, j: int)
    requires
        0 <= j <= s.len(),
        forall|k: int| 0 <= k < j ==> s[k] != sep,
        j == s.len() || s[j] == sep,
    ensures
        spec_find(s, sep) == j,
{
    lemma_find_props(s, sep);
    let f = spec_find(s, sep) as int;
    if f < j {
        assert(s[f] != sep);
    }
    if j < f {
        assert(s[j] != sep);
    }
}

/// Splits on a separator character.
pub fn split(s: &str, sep: char) -> (r: Vec<String>)
    ensures
        r.deep_view() == spec_split(s@, sep),
{
    let n = s.unicode_len();
    let mut r: Vec<String> = Vec::new();
    let mut p: usize = 0;
    proof {
        assert(s@.skip(0) =~= s@);
        assert(r.deep_view() =~= Seq::<Seq<char>>::empty());
        assert(r.deep_view() + spec_split(s@, sep) =~= spec_split(s@, sep));
    }
    loop
        invariant
            n == s@.len(),
            0 <= p <= n,
            spec_split(s@, sep) == r.deep_view() + spec_split(s@.skip(p as int), sep),
        decreases n - p,
    {
        let ghost rest = s@.skip(p as int);
        proof {
            assert(forall|k: int| 0 <= k < rest.len() ==> #[trigger] rest[k] == s@[k + p]);
        }
        match find_from(s, n, sep, p) {
            None => {
                let piece = s.substring_char(p, n).to_owned();
                proof {
                    lemma_find_exact(rest, sep, rest.len() as int);
                    assert(spec_split(rest, sep) == seq![rest]);
                    assert(piece@ =~= rest);
                    assert(r.deep_view().push(piece@) =~= r.deep_view() + seq![rest]);
                }
                r.push(piece);
                proof {
                    assert(spec_split(s@, sep) =~= r.deep_view());
                }
                return r;
            },
            Some(j) => {
                let piece = s.substring_char(p, j).to_owned();
                proof {
                    lemma_find_exact(rest, sep, j - p);
                    assert(spec_find(rest, sep) < rest.len());
                    assert(spec_split(rest, sep) == seq![rest.take(j - p)] + spec_split(
                        rest.skip(j - p + 1),
                        sep,
                    ));
                    assert(piece@ =~= rest.take(j - p));
                    assert(rest.skip(j - p + 1) =~= s@.skip(j + 1));
                    assert((r.deep_view().push(piece@)) + spec_split(s@.skip(j + 1), sep) =~= r.deep_view()
                        + spec_split(rest, sep));
                }
                r.push(piece);
                p = j + 1;
            },
        }
    }
}

/// The prefix of `s` before its first space, or all of `s` if it has none.
pub open spec fn spec_first_token(s: Seq<char>) -> Seq<char> {
    if spec_find(s, ' ') >= s.len() {
        s
    } else {
        s.take(spec_find(s, ' ') as int)
    }
}

/// The text before the first space.
pub fn first_token(s: &str) -> (r: String)
    ensures
        r@ == spec_first_token(s@),
{
    let n = s.unicode_len();
    match find_from(s, n, ' ', 0) {
        None => {
            proof {
                lemma_find_exact(s@, ' ', n as int);
                assert(s@.subrange(0, n as int) =~= s@);
            }
            s.substring_char(0, n).to_owned()
        },
        Some(j) => {
            proof {
                lemma_find_exact(s@, ' ', j as int);
            }
            s.substring_char(0, j).to_owned()
        },
    }
}

/// Character-wise string equality.
pub fn str_eq(a: &str, b: &str) -> (r: bool)
    ensures
        r == (a@ == b@),
{
    let n = a.unicode_len();
    let m = b.unicode_len();
    if n != m {
        return false;
    }
    let mut k: usize = 0;
    while k < n
        invariant
            n == a@.len(),
            n == b@.len(),
            0 <= k <= n,
            forall|t: int| 0 <= t < k ==> a@[t] == b@[t],
        decreases n - k,
    {
        if a.get_char(k) != b.get_char(k) {
            return false;
        }
        k += 1;
    }
    proof {
        assert(a@ =~= b@);
    }
    true
}

/// Whether `c` is a decimal digit.
pub open spec fn is_digit_char(c: char) -> bool {
    '0' <= c && c <= '9'
}

/// The numeric value of a decimal digit.
pub open spec fn digit_val(c: char) -> int {
    c as int - '0' as int
}

/// Whether `s` is one or more decimal digits and nothing else.
pub open spec fn spec_is_digits(s: Seq<char>) -> bool {
    s.len() > 0 && forall|k: int| 0 <= k < s.len() ==> is_digit_char(#[trigger] s[k])
}

/// The base-ten value of a digit string.
pub open spec fn spec_decimal_value(s: Seq<char>) -> int
    decreases s.len(),
{
    if s.len() == 0 {
        0
    } else {
        spec_decimal_value(s.drop_last()) * 10 + digit_val(s.last())
    }
}

/// Parses a decimal string.  Returns the value exactly when the string is all
/// digits (at least one) and the value fits in a `u64`.
pub fn parse_u64(s: &str) -> (r: Option<u64>)
    ensures
        match r {
            Some(v) => spec_is_digits(s@) && v == spec_decimal_value(s@) && spec_decimal_value(s@)
                <= u64::MAX,
            None => !spec_is_digits(s@) || spec_decimal_value(s@) > u64::MAX,
        },
{
    let n = s.unicode_len();
    if n == 0 {
        return None;
    }
    let mut v: u64 = 0;
    let mut i: usize = 0;
    while i < n
        invariant
            n == s@.len(),
            n > 0,
            0 <= i <= n,
            forall|k: int| 0 <= k < i ==> is_digit_char(#[trigger] s@[k]),
            v == spec_decimal_value(s@.take(i as int)),
        decreases n - i,
    {
        let c = s.get_char(i);
        if !('0' <= c && c <= '9') {
            return None;
        }
        let d: u64 = (c as u32 as u64) - 48;
        let v10 = match v.checked_mul(10) {
            Some(x) => x,
            None => {
                proof {
                    if spec_is_digits(s@) {
                        lemma_decimal_monotone(s@, i as int);
                    }
                }
                return None;
            },
        };
        let vn = match v10.checked_add(d) {
            Some(x) => x,
            None => {
                proof {
                    if spec_is_digits(s@) {
                        lemma_decimal_monotone(s@, i as int);
                    }
                }
                return None;
            },
        };
        proof {
            assert(s@.take(i + 1).drop_last() =~= s@.take(i as int));
            assert(s@.take(i + 1).last() == s@[i as int]);
            assert(digit_val(s@[i as int]) == d);
        }
        v = vn;
        i += 1;
    }
    proof {
        assert(s@.take(n as int) =~= s@);
    }
    Some(v)
}

/// A digit string's value only grows as digits are appended.
proof fn lemma_decimal_monotone(s: Seq<char>, i: int)
    requires
        0 <= i < s.len(),
        forall|k: int| 0 <= k < s.len() ==> is_digit_char(#[trigger] s[k]),
    ensures
        spec_decimal_value(s) >= spec_decimal_value(s.take(i)) * 10 + digit_val(s[i]),
    decreases s.len() - i,
{
    if i == s.len() - 1 {
        assert(s.drop_last() =~= s.take(i));
        assert(s.last() == s[i]);
    } else {
        lemma_decimal_monotone(s, i + 1);
        assert(s.take(i + 1).drop_last() =~= s.take(i));
        assert(s.take(i + 1).last() == s[i]);
        assert(spec_decimal_value(s.take(i + 1)) == spec_decimal_value(s.take(i)) * 10 + digit_val(
            s[i],
        ));
        assert(spec_decimal_value(s.take(i + 1)) >= 0) by {
            lemma_decimal_nonneg(s.take(i + 1));
        }
        assert(spec_decimal_value(s) >= spec_decimal_value(s.take(i + 1)) * 10 + digit_val(
            s[i + 1],
        ));
        assert(digit_val(s[i + 1]) >= 0);
        assert(spec_decimal_value(s.take(i + 1)) * 10 >= spec_decimal_value(s.take(i + 1))) by (
        nonlinear_arith)
            requires
                spec_decimal_value(s.take(i + 1)) >= 0,
        ;
    }
}

/// A digit string's value is never negative.
proof fn lemma_decimal_nonneg(s: Seq<char>)
    requires
        forall|k: int| 0 <= k < s.len() ==> is_digit_char(#[trigger] s[k]),
    ensures
        spec_decimal_value(s) >= 0,
    decreases s.len(),
{
    if s.len() > 0 {
        assert(forall|k: int|
            0 <= k < s.drop_last().len() ==> is_digit_char(#[trigger] s.drop_last()[k]));
        lemma_decimal_nonneg(s.drop_last());
        assert(is_digit_char(s.last()));
    }
}

} // verus!
