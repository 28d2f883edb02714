//! Decimal text for unsigned integers of up to 128 bits, so that large
//! quantities cross textual boundaries without loss.

use vstd::prelude::*;

verus! {

/// The character of a decimal digit.
pub open spec fn digit_char(d: nat) -> char
    recommends
        d < 10,
{
    if d == 0 {
        '0'
    } else if d == 1 {
        '1'
    } else if d == 2 {
        '2'
    } else if d == 3 {
        '3'
    } else if d == 4 {
        '4'
    } else if d == 5 {
        '5'
    } else if d == 6 {
        '6'
    } else if d == 7 {
        '7'
    } else if d == 8 {
        '8'
    } else {
        '9'
    }
}

/// Whether a character is one of `'0'` to `'9'`.
pub open spec fn is_digit(c: char) -> bool {
    '0' <= c && c <= '9'
}

/// The number that a decimal digit stands for.
pub open spec fn digit_value(c: char) -> nat
    recommends
        is_digit(c),
{
    (c as u32 - '0' as u32) as nat
}

/// The decimal digits of `n`, most significant first, without leading zeros
/// (zero itself is written `0`).
pub open spec fn decimal_digits(n: nat) -> Seq<char>
    decreases n,
{
    if n < 10 {
        seq![digit_char(n)]
    } else {
        decimal_digits(n / 10).push(digit_char(n % 10))
    }
}

/// Whether a text is a non-empty run of decimal digits.
pub open spec fn is_decimal(s: Seq<char>) -> bool {
    s.len() > 0 && forall|i: int| 0 <= i < s.len() ==> is_digit(#[trigger] s[i])
}

/// The number that a run of decimal digits stands for.
pub open spec fn decimal_value(s: Seq<char>) -> nat
    decreases s.len(),
{
    if s.len() == 0 {
        0
    } else {
        decimal_value(s.drop_last()) * 10 + digit_value(s.last())
    }
}

/// A digit's character is a digit and stands for that digit.
pub proof fn lemma_digit_char(d: nat)
    requires
        d < 10,
    ensures
        is_digit(digit_char(d)),
        digit_value(digit_char(d)) == d,
{
}

/// Writing a number in decimal and reading the digits back gives the number:
/// decimal text loses nothing, whatever the size of the number.
pub proof fn lemma_decimal_round_trip(n: nat)
    ensures
        is_decimal(decimal_digits(n)),
        decimal_value(decimal_digits(n)) == n,
    decreases n,
{
    if n < 10 {
        lemma_digit_char(n);
        let s = decimal_digits(n);
        assert(s.drop_last() =~= Seq::<char>::empty());
        assert(decimal_value(s.drop_last()) == 0);
    } else {
        lemma_decimal_round_trip(n / 10);
        lemma_digit_char(n % 10);
        let head = decimal_digits(n / 10);
        let s = head.push(digit_char(n % 10));
        assert(s.drop_last() =~= head);
        assert(s.last() == digit_char(n % 10));
        assert forall|i: int| 0 <= i < s.len() implies is_digit(#[trigger] s[i]) by {
            if i < head.len() {
                assert(s[i] == head[i]);
            }
        }
    }
}

/// The text of one decimal digit.
fn digit_text(d: u8) -> (s: &'static str)
    requires
        d < 10,
    ensures
        s@ == seq![digit_char(d as nat)],
{
    proof {
        reveal_strlit("0");
        reveal_strlit("1");
        reveal_strlit("2");
        reveal_strlit("3");
        reveal_strlit("4");
        reveal_strlit("5");
        reveal_strlit("6");
        reveal_strlit("7");
        reveal_strlit("8");
        reveal_strlit("9");
    }
    let s = if d == 0 {
        "0"
    } else if d == 1 {
        "1"
    } else if d == 2 {
        "2"
    } else if d == 3 {
        "3"
    } else if d == 4 {
        "4"
    } else if d == 5 {
        "5"
    } else if d == 6 {
        "6"
    } else if d == 7 {
        "7"
    } else if d == 8 {
        "8"
    } else {
        "9"
    };
    assert(s@ =~= seq![digit_char(d as nat)]);
    s
}

/// The characters of the digits in `low`, last digit first.
pub open spec fn reversed_digit_chars(low: Seq<u8>) -> Seq<char> {
    Seq::new(low.len(), |j: int| digit_char(low[low.len() - 1 - j] as nat))
}

/// Whether every element is a decimal digit's value.
pub open spec fn all_digits(low: Seq<u8>) -> bool {
    forall|j: int| 0 <= j < low.len() ==> #[trigger] low[j] < 10
}

/// Appends the digits held in `low`, which lists them from the least
/// significant one upwards, in reading order.
pub(crate) fn push_reversed(out: &mut String, low: &Vec<u8>)
    requires
        all_digits(low@),
    ensures
        final(out)@ == old(out)@ + reversed_digit_chars(low@),
{
    let ghost all = reversed_digit_chars(low@);
    let mut i: usize = low.len();
    while i > 0
        invariant
            i <= low.len(),
            all_digits(low@),
            all == reversed_digit_chars(low@),
            out@ == old(out)@ + all.take(low.len() - i),
        decreases i,
    {
        i -= 1;
        let ghost j = low.len() - 1 - i;
        out.append(digit_text(low[i]));
        assert(all.take(j + 1) =~= all.take(j).push(all[j]));
        assert(out@ =~= old(out)@ + all.take(low.len() - i));
    }
    assert(all.take(low.len() as int) =~= all);
}

/// Appends the decimal digits of `n` to `out`.
pub fn push_decimal(out: &mut String, n: u128)
    ensures
        final(out)@ == old(out)@ + decimal_digits(n as nat),
{
    let mut low: Vec<u8> = Vec::new();
    let mut rest: u128 = n;
    assert(decimal_digits(n as nat) =~= decimal_digits(rest as nat) + reversed_digit_chars(low@));
    while rest >= 10
        invariant
            all_digits(low@),
            decimal_digits(n as nat) == decimal_digits(rest as nat) + reversed_digit_chars(low@),
        decreases rest,
    {
        let d: u8 = (rest % 10) as u8;
        let ghost before = low@;
        low.push(d);
        proof {
            assert(reversed_digit_chars(low@) =~= seq![digit_char(d as nat)]
                + reversed_digit_chars(before));
            assert(decimal_digits(rest as nat) == decimal_digits((rest / 10) as nat).push(
                digit_char(d as nat),
            ));
            assert(decimal_digits(n as nat) =~= decimal_digits((rest / 10) as nat)
                + reversed_digit_chars(low@));
        }
        rest = rest / 10;
    }
    low.push(rest as u8);
    proof {
        assert(reversed_digit_chars(low@) =~= decimal_digits(rest as nat) + reversed_digit_chars(
            low@.drop_last(),
        ));
    }
    push_reversed(out, &low);
}

/// The decimal text of `n`: every digit, no sign, no leading zero.
pub fn decimal_text(n: u128) -> (s: String)
    ensures
        s@ == decimal_digits(n as nat),
{
    let mut s = String::new();
    push_decimal(&mut s, n);
    assert(s@ =~= decimal_digits(n as nat));
    s
}

/// Reading more digits never gives a smaller number.
proof fn lemma_value_of_prefix(s: Seq<char>, k: int)
    requires
        0 <= k <= s.len(),
    ensures
        decimal_value(s.take(k)) <= decimal_value(s),
    decreases s.len() - k,
{
    if k == s.len() {
        assert(s.take(k) =~= s);
    } else {
        lemma_value_of_prefix(s.drop_last(), k);
        assert(s.drop_last().take(k) =~= s.take(k));
    }
}

/// Reads a run of decimal digits. Leading zeros are accepted; a sign, a
/// blank or an empty text is not, nor a number that does not fit in 128 bits.
pub fn parse_decimal(text: &str) -> (r: Option<u128>)
    ensures
        r is Some <==> is_decimal(text@) && decimal_value(text@) <= u128::MAX,
        r matches Some(v) ==> v == decimal_value(text@),
{
    if !text.is_ascii() {
        return None;
    }
    let bytes = text.as_bytes();
    proof {
        vstd::string::is_ascii_spec_bytes(text);
    }
    let n = bytes.len();
    if n == 0 {
        return None;
    }
    let mut acc: u128 = 0;
    let mut i: usize = 0;
    while i < n
        invariant
            i <= n,
            n == text@.len(),
            n == bytes@.len(),
            forall|j: int| 0 <= j < n ==> bytes@[j] == (#[trigger] text@[j]) as u8,
            forall|j: int| 0 <= j < n ==> '\0' <= #[trigger] text@[j] <= '\u{7f}',
            forall|j: int| 0 <= j < i ==> is_digit(#[trigger] text@[j]),
            acc == decimal_value(text@.take(i as int)),
        decreases n - i,
    {
        let b = bytes[i];
        if b < 48 || b > 57 {
            assert(!is_digit(text@[i as int]));
            return None;
        }
        let d: u128 = (b - 48) as u128;
        proof {
            let next = text@.take(i + 1);
            assert(next.drop_last() =~= text@.take(i as int));
            assert(next.last() == text@[i as int]);
            assert(digit_value(text@[i as int]) == d);
            assert(decimal_value(next) == acc * 10 + d);
            lemma_value_of_prefix(text@, i + 1);
        }
        let scaled = match acc.checked_mul(10) {
            Some(m) => m,
            None => {
                return None;
            },
        };
        acc = match scaled.checked_add(d) {
            Some(a) => a,
            None => {
                return None;
            },
        };
        i += 1;
    }
    assert(text@.take(n as int) =~= text@);
    Some(acc)
}

/// A number written by `decimal_text` is read back by `parse_decimal`
/// unchanged, up to the largest value of 128 bits.
pub proof fn lemma_text_round_trip(n: u128)
    ensures
        is_decimal(decimal_digits(n as nat)),
        decimal_value(decimal_digits(n as nat)) == n,
        decimal_value(decimal_digits(n as nat)) <= u128::MAX,
{
    lemma_decimal_round_trip(n as nat);
}

} // verus!
