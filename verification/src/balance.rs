//! Native balances: the ledger counts in lamports, readers see SOL.

use crate::decimal::{
    all_digits, decimal_digits, decimal_text, decimal_value, digit_char, is_decimal, is_digit,
    lemma_decimal_round_trip, lemma_digit_char, parse_decimal, push_reversed,
    reversed_digit_chars,
};
use vstd::prelude::*;

verus! {

/// Lamports in one SOL.
pub const LAMPORTS_PER_SOL: u64 = 1_000_000_000;

/// Decimal places of a balance in SOL.
pub const SOL_DECIMALS: usize = 9;

/// The last `width` decimal digits of `n`, with leading zeros.
pub open spec fn padded_digits(n: nat, width: nat) -> Seq<char>
    decreases width,
{
    if width == 0 {
        Seq::empty()
    } else {
        padded_digits(n / 10, (width - 1) as nat).push(digit_char(n % 10))
    }
}

/// The digits behind the decimal point of `n / 10^width`: `width` digits
/// with leading zeros, without the zeros at the end.
pub open spec fn fraction_digits(n: nat, width: nat) -> Seq<char>
    decreases width,
{
    if width == 0 {
        Seq::empty()
    } else if n % 10 == 0 {
        fraction_digits(n / 10, (width - 1) as nat)
    } else {
        padded_digits(n, width)
    }
}

/// The whole SOL in a balance.
pub open spec fn spec_sol_whole(lamports: nat) -> nat {
    lamports / 1_000_000_000
}

/// The lamports of a balance beyond its whole SOL.
pub open spec fn spec_sol_fraction(lamports: nat) -> nat {
    lamports % 1_000_000_000
}

/// The balance `lamports / 10^9` in SOL as exact decimal text: the whole part,
/// then, unless the fraction is zero, a point and the fraction's digits.
pub open spec fn sol_digits(lamports: nat) -> Seq<char> {
    if spec_sol_fraction(lamports) == 0 {
        decimal_digits(spec_sol_whole(lamports))
    } else {
        decimal_digits(spec_sol_whole(lamports)) + seq!['.'] + fraction_digits(
            spec_sol_fraction(lamports),
            9,
        )
    }
}

/// The whole SOL in a balance of `lamports`.
pub fn sol_whole(lamports: u64) -> (whole: u64)
    ensures
        whole == spec_sol_whole(lamports as nat),
{
    lamports / LAMPORTS_PER_SOL
}

/// What a balance of `lamports` holds beyond its whole SOL, in lamports.
pub fn sol_fraction(lamports: u64) -> (fraction: u32)
    ensures
        fraction == spec_sol_fraction(lamports as nat),
        fraction < 1_000_000_000,
        spec_sol_whole(lamports as nat) * 1_000_000_000 + fraction == lamports,
{
    (lamports % LAMPORTS_PER_SOL) as u32
}

/// Appends the fraction digits of `n / 10^width`.
fn push_fraction(out: &mut String, n: u32, width: usize)
    requires
        width <= 9,
    ensures
        final(out)@ == old(out)@ + fraction_digits(n as nat, width as nat),
{
    let mut f: u32 = n;
    let mut w: usize = width;
    while w > 0 && f % 10 == 0
        invariant
            w <= width,
            fraction_digits(n as nat, width as nat) == fraction_digits(f as nat, w as nat),
        decreases w,
    {
        f = f / 10;
        w -= 1;
    }
    let mut low: Vec<u8> = Vec::new();
    let mut g: u32 = f;
    let mut k: usize = 0;
    assert(padded_digits(f as nat, w as nat) =~= padded_digits(g as nat, (w - k) as nat)
        + reversed_digit_chars(low@));
    while k < w
        invariant
            k <= w,
            all_digits(low@),
            padded_digits(f as nat, w as nat) == padded_digits(g as nat, (w - k) as nat)
                + reversed_digit_chars(low@),
        decreases w - k,
    {
        let d: u8 = (g % 10) as u8;
        let ghost before = low@;
        low.push(d);
        proof {
            assert(reversed_digit_chars(low@) =~= seq![digit_char(d as nat)]
                + reversed_digit_chars(before));
            assert(padded_digits(g as nat, (w - k) as nat) == padded_digits(
                (g / 10) as nat,
                (w - k - 1) as nat,
            ).push(digit_char(d as nat)));
            assert(padded_digits(f as nat, w as nat) =~= padded_digits(
                (g / 10) as nat,
                (w - k - 1) as nat,
            ) + reversed_digit_chars(low@));
        }
        g = g / 10;
        k += 1;
    }
    assert(padded_digits(f as nat, w as nat) =~= reversed_digit_chars(low@));
    push_reversed(out, &low);
}

/// A balance of `lamports` in SOL, as exact decimal text.
pub fn sol_balance_text(lamports: u64) -> (s: String)
    ensures
        s@ == sol_digits(lamports as nat),
{
    let mut s = decimal_text(sol_whole(lamports) as u128);
    let fraction = sol_fraction(lamports);
    if fraction != 0 {
        proof {
            reveal_strlit(".");
            assert("."@ =~= seq!['.']);
        }
        s.append(".");
        push_fraction(&mut s, fraction, SOL_DECIMALS);
    }
    s
}

/// Ten to the power of `n`.
pub open spec fn pow10(n: nat) -> nat
    decreases n,
{
    if n == 0 {
        1
    } else {
        10 * pow10((n - 1) as nat)
    }
}

/// Where the first point of a text stands; its length where it has none.
pub open spec fn point_at(text: Seq<char>) -> int
    decreases text.len(),
{
    if text.len() == 0 || text[0] == '.' {
        0
    } else {
        1 + point_at(text.drop_first())
    }
}

/// The digits in front of the point.
pub open spec fn whole_part(text: Seq<char>) -> Seq<char> {
    text.take(point_at(text))
}

/// The digits behind the point.
pub open spec fn fraction_part(text: Seq<char>) -> Seq<char> {
    text.skip(point_at(text) + 1)
}

/// Whether a text is a balance in SOL: decimal digits, or decimal digits, a
/// point and one to nine more.
pub open spec fn is_sol_text(text: Seq<char>) -> bool {
    if point_at(text) == text.len() {
        is_decimal(text)
    } else {
        is_decimal(whole_part(text)) && is_decimal(fraction_part(text)) && fraction_part(
            text,
        ).len() <= 9
    }
}

/// The lamports that a balance in SOL stands for.
pub open spec fn sol_value(text: Seq<char>) -> nat {
    if point_at(text) == text.len() {
        decimal_value(text) * 1_000_000_000
    } else {
        decimal_value(whole_part(text)) * 1_000_000_000 + decimal_value(fraction_part(text))
            * pow10((9 - fraction_part(text).len()) as nat)
    }
}

proof fn lemma_point_found(text: Seq<char>, at: int)
    requires
        0 <= at <= text.len(),
        forall|j: int| 0 <= j < at ==> text[j] != '.',
        at < text.len() ==> text[at] == '.',
    ensures
        point_at(text) == at,
    decreases at,
{
    if at > 0 {
        let rest = text.drop_first();
        assert forall|j: int| 0 <= j < at - 1 implies rest[j] != '.' by {
            assert(rest[j] == text[j + 1]);
        }
        lemma_point_found(rest, at - 1);
    }
}

proof fn lemma_value_below_power(digits: Seq<char>)
    requires
        forall|i: int| 0 <= i < digits.len() ==> is_digit(#[trigger] digits[i]),
    ensures
        decimal_value(digits) < pow10(digits.len()),
    decreases digits.len(),
{
    if digits.len() > 0 {
        let front = digits.drop_last();
        assert forall|i: int| 0 <= i < front.len() implies is_digit(#[trigger] front[i]) by {
            assert(front[i] == digits[i]);
        }
        lemma_value_below_power(front);
        assert(is_digit(digits[digits.len() - 1]));
    }
}

proof fn lemma_pow10_split(a: nat, b: nat)
    ensures
        pow10(a + b) == pow10(a) * pow10(b),
    decreases a,
{
    if a == 0 {
        assert(pow10(0) == 1);
        assert(1 * pow10(b) == pow10(b));
    } else {
        lemma_pow10_split((a - 1) as nat, b);
        let x = pow10((a - 1) as nat);
        let y = pow10(b);
        assert(pow10(a) == 10 * x);
        assert(pow10(a + b) == 10 * pow10((a - 1 + b) as nat));
        assert(10 * (x * y) == (10 * x) * y) by (nonlinear_arith);
    }
}

proof fn lemma_padded(n: nat, width: nat)
    requires
        n < pow10(width),
    ensures
        padded_digits(n, width).len() == width,
        forall|i: int| 0 <= i < width ==> is_digit(#[trigger] padded_digits(n, width)[i]),
        decimal_value(padded_digits(n, width)) == n,
    decreases width,
{
    if width > 0 {
        lemma_padded(n / 10, (width - 1) as nat);
        lemma_digit_char(n % 10);
        let front = padded_digits(n / 10, (width - 1) as nat);
        let all = front.push(digit_char(n % 10));
        assert(all.drop_last() =~= front);
        assert forall|i: int| 0 <= i < width implies is_digit(#[trigger] all[i]) by {
            if i < front.len() {
                assert(all[i] == front[i]);
            }
        }
    }
}

proof fn lemma_fraction(n: nat, width: nat)
    requires
        0 < n < pow10(width),
    ensures
        0 < fraction_digits(n, width).len() <= width,
        is_decimal(fraction_digits(n, width)),
        decimal_value(fraction_digits(n, width)) * pow10(
            (width - fraction_digits(n, width).len()) as nat,
        ) == n,
    decreases width,
{
    if n % 10 == 0 {
        assert(width > 0);
        assert(pow10(width) == 10 * pow10((width - 1) as nat));
        lemma_fraction(n / 10, (width - 1) as nat);
        let digits = fraction_digits(n / 10, (width - 1) as nat);
        assert(fraction_digits(n, width) == digits);
        let value = decimal_value(digits);
        let below = pow10((width - 1 - digits.len()) as nat);
        assert(value * below == n / 10);
        assert(pow10((width - digits.len()) as nat) == 10 * below);
        assert(value * (10 * below) == 10 * (value * below)) by (nonlinear_arith);
        assert(n == 10 * (n / 10));
    } else {
        assert(width > 0);
        lemma_padded(n, width);
        assert(fraction_digits(n, width) == padded_digits(n, width));
        assert(pow10(0) == 1);
        assert(decimal_value(padded_digits(n, width)) * 1 == n);
    }
}

/// Reads a balance in SOL as the lamports it stands for. The text is decimal
/// digits with, at most, a point and one to nine digits behind it; no sign
/// and no blank. `None` for any other text and for a balance above the
/// largest amount of lamports.
pub fn parse_sol_balance(text: &str) -> (r: Option<u64>)
    ensures
        r is Some <==> is_sol_text(text@) && sol_value(text@) <= u64::MAX,
        r matches Some(lamports) ==> lamports == sol_value(text@),
{
    if !text.is_ascii() {
        proof {
            let bad = choose|i: int|
                0 <= i < text@.len() && !('\0' <= #[trigger] text@[i] <= '\u{7f}');
            lemma_ascii(text@, bad);
        }
        return None;
    }
    let bytes = text.as_bytes();
    proof {
        vstd::string::is_ascii_spec_bytes(text);
    }
    let n = bytes.len();
    let mut at: usize = 0;
    while at < n && bytes[at] != 46
        invariant
            at <= n,
            n == text@.len(),
            n == bytes@.len(),
            forall|j: int| 0 <= j < n ==> bytes@[j] == (#[trigger] text@[j]) as u8,
            forall|j: int| 0 <= j < n ==> '\0' <= #[trigger] text@[j] <= '\u{7f}',
            forall|j: int| 0 <= j < at ==> text@[j] != '.',
        decreases n - at,
    {
        at += 1;
    }
    proof {
        lemma_point_found(text@, at as int);
    }
    let whole = match parse_decimal(text.substring_ascii(0, at)) {
        Some(whole) => whole,
        None => {
            proof {
                if at == n {
                    assert(text@.take(n as int) =~= text@);
                } else {
                    assert(pow10(0) == 1);
                }
            }
            return None;
        },
    };
    assert(at == n ==> text@.subrange(0, at as int) =~= text@);
    if whole > 18_446_744_073 {
        return None;
    }
    let scaled: u128 = whole * 1_000_000_000;
    if at == n {
        return if scaled > u64::MAX as u128 {
            None
        } else {
            Some(scaled as u64)
        };
    }
    let behind = text.substring_ascii(at + 1, n);
    assert(behind@ =~= fraction_part(text@));
    let fraction = match parse_decimal(behind) {
        Some(fraction) => fraction,
        None => {
            proof {
                if is_decimal(behind@) && behind@.len() <= 9 {
                    lemma_value_below_power(behind@);
                    reveal_with_fuel(pow10, 10);
                }
            }
            return None;
        },
    };
    let places = n - at - 1;
    if places > 9 {
        return None;
    }
    proof {
        lemma_value_below_power(behind@);
        reveal_with_fuel(pow10, 10);
    }
    let mut scale: u128 = 1;
    let mut k: usize = places;
    while k < 9
        invariant
            places <= k <= 9,
            scale == pow10((k - places) as nat),
            scale <= 1_000_000_000,
        decreases 9 - k,
    {
        proof {
            reveal_with_fuel(pow10, 10);
        }
        scale = scale * 10;
        k += 1;
    }
    proof {
        lemma_pow10_split(places as nat, (9 - places) as nat);
        reveal_with_fuel(pow10, 10);
        assert(pow10(9) == 1_000_000_000);
    }
    assert(fraction * scale < 1_000_000_000) by (nonlinear_arith)
        requires
            fraction < pow10(places as nat),
            scale == pow10((9 - places) as nat),
            pow10(places as nat) * pow10((9 - places) as nat) == 1_000_000_000,
    ;
    let lamports: u128 = scaled + fraction * scale;
    if lamports > u64::MAX as u128 {
        None
    } else {
        Some(lamports as u64)
    }
}

proof fn lemma_ascii(text: Seq<char>, bad: int)
    requires
        0 <= bad < text.len(),
        !('\0' <= text[bad] <= '\u{7f}'),
    ensures
        !is_sol_text(text),
{
    let at = point_at(text);
    lemma_point_range(text);
    if at == text.len() {
        assert(!is_digit(text[bad]));
    } else if bad < at {
        assert(whole_part(text)[bad] == text[bad]);
        assert(!is_digit(whole_part(text)[bad]));
    } else {
        lemma_point_is_point(text);
        assert(bad > at);
        assert(fraction_part(text)[bad - at - 1] == text[bad]);
        assert(!is_digit(fraction_part(text)[bad - at - 1]));
    }
}

proof fn lemma_point_range(text: Seq<char>)
    ensures
        0 <= point_at(text) <= text.len(),
    decreases text.len(),
{
    if text.len() > 0 && text[0] != '.' {
        lemma_point_range(text.drop_first());
    }
}

proof fn lemma_point_is_point(text: Seq<char>)
    requires
        point_at(text) < text.len(),
    ensures
        0 <= point_at(text),
        text[point_at(text)] == '.',
    decreases text.len(),
{
    if text.len() > 0 && text[0] != '.' {
        lemma_point_range(text.drop_first());
        lemma_point_is_point(text.drop_first());
    }
}

/// A balance written by `sol_balance_text` is read back by
/// `parse_sol_balance` as the same lamports.
pub proof fn lemma_sol_round_trip(lamports: u64)
    ensures
        is_sol_text(sol_digits(lamports as nat)),
        sol_value(sol_digits(lamports as nat)) == lamports,
{
    let whole = spec_sol_whole(lamports as nat);
    let fraction = spec_sol_fraction(lamports as nat);
    let front = decimal_digits(whole);
    lemma_decimal_round_trip(whole);
    if fraction == 0 {
        assert forall|j: int| 0 <= j < front.len() implies front[j] != '.' by {
            assert(is_digit(front[j]));
        }
        lemma_point_found(front, front.len() as int);
    } else {
        reveal_with_fuel(pow10, 10);
        lemma_fraction(fraction, 9);
        let behind = fraction_digits(fraction, 9);
        let text = front + seq!['.'] + behind;
        assert forall|j: int| 0 <= j < front.len() implies text[j] != '.' by {
            assert(text[j] == front[j]);
            assert(is_digit(front[j]));
        }
        assert(text[front.len() as int] == '.');
        lemma_point_found(text, front.len() as int);
        assert(whole_part(text) =~= front);
        assert(fraction_part(text) =~= behind);
    }
}

} // verus!
