use vstd::prelude::*;

verus! {

/// A decimal digit `0`-`9`.
pub open spec fn is_digit(c: char) -> bool {
    ('0' as int) <= (c as int) <= ('9' as int)
}

/// The number that a string of decimal digits spells.
pub open spec fn digits_value(s: Seq<char>) -> int
    decreases s.len(),
{
    if s.len() == 0 {
        0
    } else {
        digits_value(s.drop_last()) * 10 + ((s.last() as int) - ('0' as int))
    }
}

/// Every character of `s` is a decimal digit.
pub open spec fn all_digits(s: Seq<char>) -> bool {
    forall|i: int| 0 <= i < s.len() ==> is_digit(#[trigger] s[i])
}

/// `s` without a leading `+`, unless the `+` is all there is.
pub open spec fn unsigned_part(s: Seq<char>) -> Seq<char> {
    if s.len() > 1 && s[0] == '+' {
        s.drop_first()
    } else {
        s
    }
}

/// What `u16`'s `FromStr` makes of `s`: an optional leading `+` (not alone),
/// then at least one decimal digit and nothing else, spelling at most
/// `u16::MAX`. Anything else is refused.
pub open spec fn parse_u16_spec(s: Seq<char>) -> Option<u16> {
    let digits = unsigned_part(s);
    if digits.len() > 0 && all_digits(digits) && digits_value(digits) <= u16::MAX {
        Some(digits_value(digits) as u16)
    } else {
        None
    }
}

/// Calls `String::push`. Claimed: the text grows by `c` at its end.
#[verifier::external_body]
pub(crate) fn push_char(s: &mut String, c: char)
    ensures
        final(s)@ == old(s)@.push(c),
{
    s.push(c)
}

/// A string of digits spells at least zero.
pub proof fn lemma_digits_value_nonneg(s: Seq<char>)
    requires
        forall|i: int| 0 <= i < s.len() ==> is_digit(#[trigger] s[i]),
    ensures
        digits_value(s) >= 0,
    decreases s.len(),
{
    if s.len() > 0 {
        assert(is_digit(s[s.len() - 1]));
        lemma_digits_value_nonneg(s.drop_last());
    }
}

/// Among digits, a prefix spells no more than the whole.
pub proof fn lemma_digits_value_prefix(s: Seq<char>, k: int)
    requires
        0 <= k <= s.len(),
        forall|i: int| 0 <= i < s.len() ==> is_digit(#[trigger] s[i]),
    ensures
        digits_value(s.take(k)) <= digits_value(s),
    decreases s.len(),
{
    if k < s.len() {
        assert(is_digit(s[s.len() - 1]));
        lemma_digits_value_prefix(s.drop_last(), k);
        assert(s.drop_last().take(k) =~= s.take(k));
        lemma_digits_value_nonneg(s.drop_last());
    } else {
        assert(s.take(k) =~= s);
    }
}

/// The characters of `s`, in order.
fn chars_of(s: &str) -> (chars: Vec<char>)
    ensures
        chars@ == s@,
{
    broadcast use vstd::string::axiom_spec_iter;
    let mut chars: Vec<char> = Vec::new();
    for c in it: s.chars()
        invariant
            it.seq() == s@,
            chars@ == it.seq().take(it.index() as int),
    {
        chars.push(c);
    }
    chars
}

/// The value of a decimal digit, or `None` for any other character.
fn digit_value(c: char) -> (d: Option<u32>)
    ensures
        match d {
            Some(v) => is_digit(c) && v == (c as int) - ('0' as int),
            None => !is_digit(c),
        },
{
    match c {
        '0' => Some(0),
        '1' => Some(1),
        '2' => Some(2),
        '3' => Some(3),
        '4' => Some(4),
        '5' => Some(5),
        '6' => Some(6),
        '7' => Some(7),
        '8' => Some(8),
        '9' => Some(9),
        _ => None,
    }
}

/// Reads `s` as `u16`'s `FromStr` does (see `parse_u16_spec`).
pub fn parse_u16(s: &str) -> (n: Option<u16>)
    ensures
        n == parse_u16_spec(s@),
{
    let chars = chars_of(s);
    let len = chars.len();
    let start: usize = if len > 1 && chars[0] == '+' { 1 } else { 0 };
    let ghost digits = chars@.skip(start as int);
    assert(digits == unsigned_part(s@));
    if start == len {
        return None;
    }
    let mut value: u32 = 0;
    let mut i: usize = start;
    assert(digits.take(0) =~= Seq::<char>::empty());
    while i < len
        invariant
            start <= i <= len,
            start < len,
            len == chars@.len(),
            chars@ == s@,
            digits == chars@.skip(start as int),
            digits == unsigned_part(s@),
            forall|j: int| 0 <= j < i - start ==> is_digit(#[trigger] digits[j]),
            value == digits_value(digits.take(i - start)),
            value <= u16::MAX,
        decreases len - i,
    {
        let c = chars[i];
        assert(digits[i - start] == c);
        let d = match digit_value(c) {
            Some(d) => d,
            None => {
                proof {
                    let m = i - start;
                    assert(!is_digit(digits[m]));
                    assert(!all_digits(digits));
                }
                return None;
            },
        };
        let next = value * 10 + d;
        proof {
            let m = i - start;
            assert(digits.take(m + 1).drop_last() =~= digits.take(m));
            assert(digits.take(m + 1).last() == c);
            assert(next == digits_value(digits.take(m + 1)));
        }
        if next > 65535 {
            proof {
                if all_digits(digits) {
                    lemma_digits_value_prefix(digits, i - start + 1);
                    assert(digits_value(digits) > u16::MAX);
                }
            }
            return None;
        }
        value = next;
        i = i + 1;
    }
    assert(digits.take(i - start) =~= digits);
    assert(all_digits(digits));
    Some(value as u16)
}

} // verus!
