//! Text operations of the standard library that the transformations rely on.
use vstd::prelude::*;
use vstd::utf8::{decode_utf8, valid_utf8};

verus! {

/// What `str::to_lowercase` makes of a text.
pub uninterp spec fn lower_of(s: Seq<char>) -> Seq<char>;

/// What `str::to_uppercase` makes of a text.
pub uninterp spec fn upper_of(s: Seq<char>) -> Seq<char>;

/// `s` with every match of `from` replaced by `to`, the matches taken left to
/// right without overlap. An empty `from` matches before each character and at
/// the end.
pub open spec fn replaced(s: Seq<char>, from: Seq<char>, to: Seq<char>) -> Seq<char>
    decreases s.len(),
{
    if from.len() == 0 {
        if s.len() == 0 {
            to
        } else {
            to + seq![s[0]] + replaced(s.drop_first(), from, to)
        }
    } else if s.len() < from.len() {
        s
    } else if s.subrange(0, from.len() as int) == from {
        to + replaced(s.subrange(from.len() as int, s.len() as int), from, to)
    } else {
        seq![s[0]] + replaced(s.drop_first(), from, to)
    }
}

/// The decimal digit for a value below ten.
pub open spec fn digit_char(d: nat) -> char
    recommends
        d < 10,
{
    (('0' as u32) + d) as char
}

/// The decimal form of a natural number, most significant digit first.
pub open spec fn decimal(n: nat) -> Seq<char>
    decreases n,
{
    if n < 10 {
        seq![digit_char(n)]
    } else {
        decimal(n / 10).push(digit_char(n % 10))
    }
}

/// True when every character of `s` is an ASCII decimal digit.
pub open spec fn all_digits(s: Seq<char>) -> bool {
    forall|i: int| 0 <= i < s.len() ==> '0' <= #[trigger] s[i] <= '9'
}

/// The value of a run of decimal digits.
pub open spec fn digits_value(s: Seq<char>) -> int
    decreases s.len(),
{
    if s.len() == 0 {
        0
    } else {
        digits_value(s.drop_last()) * 10 + (s.last() as int - '0' as int)
    }
}

/// The integer that a text denotes as an `i64`: an optional sign and at least
/// one decimal digit, with nothing around them, and a value that fits.
pub open spec fn i64_value(s: Seq<char>) -> Option<int> {
    let signed = s.len() > 0 && (s[0] == '-' || s[0] == '+');
    let body = if signed { s.subrange(1, s.len() as int) } else { s };
    let magnitude = digits_value(body);
    let value = if signed && s[0] == '-' { -magnitude } else { magnitude };
    if body.len() > 0 && all_digits(body) && i64::MIN <= value <= i64::MAX {
        Some(value)
    } else {
        None
    }
}

/// Relies on `str::to_lowercase`, whose result depends on the characters alone.
#[verifier::external_body]
pub(crate) fn to_lower(s: &str) -> (r: String)
    ensures
        r@ == lower_of(s@),
        s@.len() == 0 ==> r@.len() == 0,
{
    s.to_lowercase()
}

/// Relies on `str::to_uppercase`, whose result depends on the characters alone.
#[verifier::external_body]
pub(crate) fn to_upper(s: &str) -> (r: String)
    ensures
        r@ == upper_of(s@),
        s@.len() == 0 ==> r@.len() == 0,
{
    s.to_uppercase()
}

/// Relies on `str::replace`, which replaces every non-overlapping match of a literal.
#[verifier::external_body]
pub(crate) fn replace_literal(s: &str, from: &str, to: &str) -> (r: String)
    ensures
        r@ == replaced(s@, from@, to@),
{
    s.replace(from, to)
}

/// Relies on `String::from_utf8`, which accepts exactly the well-formed UTF-8 byte strings.
#[verifier::external_body]
pub(crate) fn utf8_text(bytes: Vec<u8>) -> (r: Option<String>)
    ensures
        r is Some <==> valid_utf8(bytes@),
        r matches Some(s) ==> s@ == decode_utf8(bytes@),
{
    String::from_utf8(bytes).ok()
}

/// The one-character text of a decimal digit.
fn digit_text(d: usize) -> (r: String)
    requires
        d < 10,
    ensures
        r@ == seq![digit_char(d as nat)],
{
    if d == 0 {
        proof {
            reveal_strlit("0");
        }
        "0".to_string()
    } else if d == 1 {
        proof {
            reveal_strlit("1");
        }
        "1".to_string()
    } else if d == 2 {
        proof {
            reveal_strlit("2");
        }
        "2".to_string()
    } else if d == 3 {
        proof {
            reveal_strlit("3");
        }
        "3".to_string()
    } else if d == 4 {
        proof {
            reveal_strlit("4");
        }
        "4".to_string()
    } else if d == 5 {
        proof {
            reveal_strlit("5");
        }
        "5".to_string()
    } else if d == 6 {
        proof {
            reveal_strlit("6");
        }
        "6".to_string()
    } else if d == 7 {
        proof {
            reveal_strlit("7");
        }
        "7".to_string()
    } else if d == 8 {
        proof {
            reveal_strlit("8");
        }
        "8".to_string()
    } else {
        proof {
            reveal_strlit("9");
        }
        "9".to_string()
    }
}

/// The decimal form of a number.
pub fn decimal_text(n: usize) -> (r: String)
    ensures
        r@ == decimal(n as nat),
    decreases n,
{
    if n < 10 {
        digit_text(n)
    } else {
        let mut r = decimal_text(n / 10);
        let last = digit_text(n % 10);
        r.append(last.as_str());
        r
    }
}

/// A run of digits is worth at least each of its prefixes, and nothing negative.
proof fn lemma_digits_prefix(s: Seq<char>, k: int)
    requires
        all_digits(s),
        0 <= k <= s.len(),
    ensures
        0 <= digits_value(s.subrange(0, k)) <= digits_value(s),
    decreases s.len() - k,
{
    if k < s.len() {
        lemma_digits_prefix(s, k + 1);
        let next = s.subrange(0, k + 1);
        assert(next.drop_last() =~= s.subrange(0, k));
        assert(next.last() == s[k]);
    } else {
        assert(s.subrange(0, k) =~= s);
        lemma_digits_nonnegative(s);
    }
}

proof fn lemma_digits_nonnegative(s: Seq<char>)
    requires
        all_digits(s),
    ensures
        digits_value(s) >= 0,
    decreases s.len(),
{
    if s.len() > 0 {
        assert(all_digits(s.drop_last())) by {
            assert forall|i: int| 0 <= i < s.drop_last().len() implies '0' <= #[trigger] s.drop_last()[i]
                <= '9' by {
                assert(s.drop_last()[i] == s[i]);
            }
        }
        lemma_digits_nonnegative(s.drop_last());
        assert(s.last() == s[s.len() - 1]);
    }
}

/// Reads an `i64` as `str::parse` does: an optional `+` or `-`, then decimal
/// digits only, with a value that fits.
pub fn parse_i64(s: &str) -> (r: Option<i64>)
    ensures
        r matches Some(v) ==> i64_value(s@) == Some(v as int),
        r is None ==> i64_value(s@) is None,
{
    let n = s.unicode_len();
    if n == 0 {
        return None;
    }
    let first = s.get_char(0);
    let signed = first == '-' || first == '+';
    let negative = first == '-';
    let start: usize = if signed { 1 } else { 0 };
    let ghost body = if signed { s@.subrange(1, n as int) } else { s@ };
    assert(body =~= s@.subrange(start as int, n as int));
    if start == n {
        return None;
    }
    let limit: u64 = if negative { 9223372036854775808 } else { 9223372036854775807 };
    let ghost value = if negative { -digits_value(body) } else { digits_value(body) };
    assert(s@[0] == first);
    assert(i64_value(s@) == if body.len() > 0 && all_digits(body) && i64::MIN <= value <= i64::MAX {
        Some(value)
    } else {
        None::<int>
    });
    let mut magnitude: u64 = 0;
    let mut i: usize = start;
    assert(body.subrange(0, 0) =~= Seq::<char>::empty());
    while i < n
        invariant
            start <= i <= n,
            n == s@.len(),
            start == (if signed { 1usize } else { 0usize }),
            body == s@.subrange(start as int, n as int),
            all_digits(body.subrange(0, i - start)),
            magnitude as int == digits_value(body.subrange(0, i - start)),
            magnitude <= limit,
            limit == (if negative { 9223372036854775808u64 } else { 9223372036854775807u64 }),
            value == (if negative { -digits_value(body) } else { digits_value(body) }),
            i64_value(s@) == if body.len() > 0 && all_digits(body) && i64::MIN <= value <= i64::MAX {
                Some(value)
            } else {
                None::<int>
            },
        decreases n - i,
    {
        let c = s.get_char(i);
        let code = c as u32;
        assert(body[i - start] == c);
        if code < 48 || code > 57 {
            assert(!all_digits(body));
            return None;
        }
        let ghost next = body.subrange(0, i - start + 1);
        assert(next.drop_last() =~= body.subrange(0, i - start));
        assert(next.last() == c);
        assert(all_digits(next)) by {
            assert forall|j: int| 0 <= j < next.len() implies '0' <= #[trigger] next[j] <= '9' by {
                if j < next.len() - 1 {
                    assert(next[j] == body.subrange(0, i - start)[j]);
                }
            }
        }
        let grown: u128 = magnitude as u128 * 10 + (code - 48) as u128;
        if grown > limit as u128 {
            proof {
                if all_digits(body) {
                    lemma_digits_prefix(body, i - start + 1);
                    assert(next =~= body.subrange(0, i - start + 1));
                }
            }
            return None;
        }
        magnitude = grown as u64;
        i += 1;
    }
    assert(body.subrange(0, n - start) =~= body);
    if negative {
        if magnitude == 9223372036854775808 {
            Some(i64::MIN)
        } else {
            Some(-(magnitude as i64))
        }
    } else {
        Some(magnitude as i64)
    }
}

} // verus!
