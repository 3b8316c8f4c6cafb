//! Text helpers over `Seq<char>` models: comparison, prefixes, and the
//! decimal notation of integers.

use vstd::prelude::*;
use vstd::string::*;

verus! {

/// Whether two string slices hold the same characters.
pub fn str_equal(a: &str, b: &str) -> (same: bool)
    ensures
        same == (a@ == b@),
{
    let left = a.to_owned();
    let right = b.to_owned();
    left == right
}

/// The characters of `s`, in order.
pub fn chars_of(s: &str) -> (chars: Vec<char>)
    ensures
        chars@ == s@,
{
    let n = s.unicode_len();
    let mut chars: Vec<char> = Vec::new();
    let mut i: usize = 0;
    while i < n
        invariant
            n == s@.len(),
            i <= n,
            chars@ == s@.subrange(0, i as int),
        decreases n - i,
    {
        let c = s.get_char(i);
        chars.push(c);
        i = i + 1;
    }
    chars
}

/// Whether `text` begins with `prefix`.
pub fn has_prefix(text: &str, prefix: &str) -> (begins: bool)
    ensures
        begins == prefix@.is_prefix_of(text@),
{
    let t = chars_of(text);
    let p = chars_of(prefix);
    if p.len() > t.len() {
        return false;
    }
    let n = p.len();
    let mut i: usize = 0;
    while i < n
        invariant
            n == p.len(),
            n <= t.len(),
            i <= n,
            t@ == text@,
            p@ == prefix@,
            forall|k: int| 0 <= k < i ==> t@[k] == p@[k],
        decreases n - i,
    {
        if t[i] != p[i] {
            proof {
                assert(t@.subrange(0, n as int)[i as int] != p@[i as int]);
            }
            return false;
        }
        i = i + 1;
    }
    proof {
        assert(p@ =~= t@.subrange(0, n as int));
    }
    true
}

/// Whether `text` ends with `suffix`.
pub fn has_suffix(text: &str, suffix: &str) -> (ends: bool)
    ensures
        ends == suffix@.is_suffix_of(text@),
{
    let t = chars_of(text);
    let s = chars_of(suffix);
    if s.len() > t.len() {
        return false;
    }
    let n = s.len();
    let from = t.len() - n;
    let mut i: usize = 0;
    while i < n
        invariant
            n == s.len(),
            from + n == t.len(),
            i <= n,
            t@ == text@,
            s@ == suffix@,
            forall|k: int| 0 <= k < i ==> t@[from + k] == s@[k],
        decreases n - i,
    {
        if t[from + i] != s[i] {
            proof {
                assert(t@.subrange(from as int, t@.len() as int)[i as int] != s@[i as int]);
            }
            return false;
        }
        i = i + 1;
    }
    proof {
        assert(s@ =~= t@.subrange(from as int, t@.len() as int));
    }
    true
}

/// Whether `c` is one of the decimal digits `0` to `9`.
pub open spec fn is_digit(c: char) -> bool {
    '0' <= c && c <= '9'
}

/// The number that the digit `c` stands for.
pub open spec fn digit_value(c: char) -> int {
    c as int - 48
}

/// Whether `text` consists of decimal digits only.
pub open spec fn all_digits(text: Seq<char>) -> bool {
    forall|i: int| 0 <= i < text.len() ==> is_digit(#[trigger] text[i])
}

/// The number that the digits of `text` write in base ten.
pub open spec fn digits_value(text: Seq<char>) -> int
    decreases text.len(),
{
    if text.len() == 0 {
        0
    } else {
        digits_value(text.drop_last()) * 10 + digit_value(text.last())
    }
}

/// The 64-bit signed integer that `text` writes in base ten: an optional
/// `+` or `-`, then at least one digit and nothing else, with a value in
/// range. `None` for any other text.
pub open spec fn spec_parse_i64(text: Seq<char>) -> Option<i64> {
    let signed = text.len() > 0 && (text[0] == '-' || text[0] == '+');
    let negative = text.len() > 0 && text[0] == '-';
    let digits = if signed {
        text.skip(1)
    } else {
        text
    };
    let value = if negative {
        -digits_value(digits)
    } else {
        digits_value(digits)
    };
    if digits.len() > 0 && all_digits(digits) && i64::MIN <= value <= i64::MAX {
        Some(value as i64)
    } else {
        None
    }
}

/// The value of a run of digits is not negative, and no prefix of it has a
/// larger value.
pub proof fn lemma_digits_value_grows(text: Seq<char>, i: int)
    requires
        all_digits(text),
        0 <= i <= text.len(),
    ensures
        0 <= digits_value(text.take(i)) <= digits_value(text),
    decreases text.len() - i,
{
    lemma_digits_nonnegative(text.take(i));
    if i == text.len() {
        assert(text.take(i) =~= text);
    } else {
        lemma_digits_value_grows(text, i + 1);
        assert(text.take(i + 1).drop_last() =~= text.take(i));
        assert(is_digit(text[i]));
        assert(text.take(i + 1).last() == text[i]);
    }
}

/// The value of a run of digits is not negative.
pub proof fn lemma_digits_nonnegative(text: Seq<char>)
    requires
        all_digits(text),
    ensures
        0 <= digits_value(text),
    decreases text.len(),
{
    if text.len() > 0 {
        assert forall|i: int| 0 <= i < text.drop_last().len() implies is_digit(
            #[trigger] text.drop_last()[i],
        ) by {
            assert(text.drop_last()[i] == text[i]);
        }
        lemma_digits_nonnegative(text.drop_last());
        assert(is_digit(text.last()));
    }
}

/// Parses a 64-bit signed integer written in base ten.
pub fn parse_i64(text: &str) -> (parsed: Option<i64>)
    ensures
        parsed == spec_parse_i64(text@),
{
    let chars = chars_of(text);
    let n = chars.len();
    if n == 0 {
        return None;
    }
    let negative = chars[0] == '-';
    let start: usize = if chars[0] == '-' || chars[0] == '+' {
        1
    } else {
        0
    };
    let ghost digits = if start == 1 {
        text@.skip(1)
    } else {
        text@
    };
    if start == n {
        return None;
    }
    proof {
        assert(digits.len() == n - start);
    }
    let limit: u128 = 0x8000_0000_0000_0000;
    let mut magnitude: u128 = 0;
    let mut i: usize = start;
    proof {
        assert(digits.take(0) =~= Seq::<char>::empty());
    }
    while i < n
        invariant
            n == chars.len(),
            chars@ == text@,
            start <= i <= n,
            start <= 1,
            n > 0,
            (start == 1) == (text@[0] == '-' || text@[0] == '+'),
            negative == (text@[0] == '-'),
            digits == if text@[0] == '-' || text@[0] == '+' {
                text@.skip(1)
            } else {
                text@
            },
            limit == 0x8000_0000_0000_0000,
            magnitude <= limit,
            digits.len() == n - start,
            all_digits(digits.take(i - start)),
            magnitude == digits_value(digits.take(i - start)),
        decreases n - i,
    {
        let c = chars[i];
        if c < '0' || c > '9' {
            proof {
                assert(digits[i - start] == c);
                assert(!is_digit(digits[i - start]));
            }
            return None;
        }
        let d: u128 = (c as u32 - 48) as u128;
        proof {
            let next = digits.take(i - start + 1);
            assert(digits[i - start] == c);
            assert(next.drop_last() =~= digits.take(i - start));
            assert(next.last() == c);
            assert(digits_value(next) == magnitude * 10 + d);
            assert forall|k: int| 0 <= k < next.len() implies is_digit(#[trigger] next[k]) by {
                if k < next.len() - 1 {
                    assert(digits.take(i - start)[k] == next[k]);
                }
            }
        }
        magnitude = magnitude * 10 + d;
        if magnitude > limit {
            proof {
                if all_digits(digits) {
                    lemma_digits_value_grows(digits, i - start + 1);
                }
            }
            return None;
        }
        i = i + 1;
    }
    proof {
        assert(digits.take(n - start) =~= digits);
    }
    if negative {
        if magnitude == limit {
            Some(i64::MIN)
        } else {
            Some(-(magnitude as i64))
        }
    } else if magnitude == limit {
        None
    } else {
        Some(magnitude as i64)
    }
}

/// The character that writes the digit `d`.
pub open spec fn digit_char(d: int) -> char {
    (d + 48) as char
}

/// The digits that write the natural number `n` in base ten, without
/// leading zeros.
pub open spec fn nat_text(n: nat) -> Seq<char>
    decreases n,
{
    if n < 10 {
        seq![digit_char(n as int)]
    } else {
        nat_text(n / 10).push(digit_char((n % 10) as int))
    }
}

/// The text that writes the integer `n` in base ten: a `-` for a negative
/// number, then its digits.
pub open spec fn decimal_text(n: int) -> Seq<char> {
    if n < 0 {
        seq!['-'] + nat_text((-n) as nat)
    } else {
        nat_text(n as nat)
    }
}

/// The digits of a natural number are digits, at least one, and write
/// that number.
pub proof fn lemma_nat_text(n: nat)
    ensures
        nat_text(n).len() > 0,
        all_digits(nat_text(n)),
        digits_value(nat_text(n)) == n,
    decreases n,
{
    if n < 10 {
        let text = nat_text(n);
        assert(text.drop_last() =~= Seq::<char>::empty());
        assert(text.last() as int == n + 48);
        assert(digits_value(text.drop_last()) == 0);
        assert(is_digit(text[0]));
    } else {
        lemma_nat_text(n / 10);
        let rest = nat_text(n / 10);
        let text = nat_text(n);
        assert(text.drop_last() =~= rest);
        assert(text.last() as int == n % 10 + 48);
        assert(digits_value(text) == digits_value(rest) * 10 + digit_value(text.last()));
        assert(is_digit(text.last()));
        assert forall|i: int| 0 <= i < text.len() implies is_digit(#[trigger] text[i]) by {
            if i < rest.len() {
                assert(text[i] == rest[i]);
            }
        }
    }
}

/// Reading what was written gives the number back: the decimal text of a
/// 64-bit integer parses to that integer.
pub proof fn lemma_parse_decimal(n: i64)
    ensures
        spec_parse_i64(decimal_text(n as int)) == Some(n),
{
    let text = decimal_text(n as int);
    if n < 0 {
        let digits = nat_text((-n) as nat);
        lemma_nat_text((-n) as nat);
        assert(text[0] == '-');
        assert(text.skip(1) =~= digits);
    } else {
        lemma_nat_text(n as nat);
        assert(is_digit(text[0]));
    }
}

/// The text of the digit `d`.
fn digit_text(d: u64) -> (text: &'static str)
    requires
        d < 10,
    ensures
        text@ == seq![digit_char(d as int)],
{
    proof {
        reveal_strlit("0");
        reveal_strlit("1");
        reveal_strlit("2");
        reveal_strlit("3");
        reveal_strlit("4");
        reveal_strlit("5");
        reveal_strlit("6");
        reveal_strlit("7");
        reveal_strlit("8");
        reveal_strlit("9");
    }
    let text = if d == 0 {
        "0"
    } else if d == 1 {
        "1"
    } else if d == 2 {
        "2"
    } else if d == 3 {
        "3"
    } else if d == 4 {
        "4"
    } else if d == 5 {
        "5"
    } else if d == 6 {
        "6"
    } else if d == 7 {
        "7"
    } else if d == 8 {
        "8"
    } else {
        "9"
    };
    proof {
        assert(text@ =~= seq![digit_char(d as int)]);
    }
    text
}

/// Appends the digits of `n`.
fn push_nat(text: &mut String, n: u64)
    ensures
        final(text)@ == old(text)@ + nat_text(n as nat),
    decreases n,
{
    if n >= 10 {
        push_nat(text, n / 10);
    }
    text.append(digit_text(n % 10));
    proof {
        assert(text@ =~= old(text)@ + nat_text(n as nat));
    }
}

/// Writes `n` in base ten.
pub fn i64_to_string(n: i64) -> (text: String)
    ensures
        text@ == decimal_text(n as int),
{
    let mut text = String::new();
    if n < 0 {
        text.append("-");
        proof {
            reveal_strlit("-");
            assert(text@ =~= seq!['-']);
        }
        let magnitude: u64 = if n == i64::MIN {
            0x8000_0000_0000_0000
        } else {
            (-n) as u64
        };
        push_nat(&mut text, magnitude);
        proof {
            assert(text@ =~= seq!['-'] + nat_text((-n) as nat));
        }
    } else {
        push_nat(&mut text, n as u64);
        proof {
            assert(text@ =~= nat_text(n as nat));
        }
    }
    text
}

/// What `str::trim` makes of a text: the text without the white space at
/// its two ends.
pub uninterp spec fn trimmed(text: Seq<char>) -> Seq<char>;

/// What `str::to_lowercase` makes of a text: its lowercase equivalent.
pub uninterp spec fn lowercased(text: Seq<char>) -> Seq<char>;

/// The text without leading and trailing white space. Trusted: `str::trim`
/// of the standard library; the contract only gives its result a name.
#[verifier::external_body]
pub(crate) fn trim(text: &str) -> (inner: &str)
    ensures
        inner@ == trimmed(text@),
{
    text.trim()
}

/// The lowercase equivalent of the text. Trusted: `str::to_lowercase` of
/// the standard library; the contract only gives its result a name.
#[verifier::external_body]
pub(crate) fn to_lowercase(text: &str) -> (lower: String)
    ensures
        lower@ == lowercased(text@),
{
    text.to_lowercase()
}

} // verus!
