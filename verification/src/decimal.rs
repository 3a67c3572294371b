//! Numbers as decimal text, and back.

use vstd::prelude::*;

verus! {

/// The decimal digits of `n`, most significant first, without leading zeros.
pub open spec fn decimal(n: nat) -> Seq<u8>
    decreases n,
{
    if n < 10 {
        seq![(0x30 + n) as u8]
    } else {
        decimal(n / 10).push((0x30 + n % 10) as u8)
    }
}

/// The value of a decimal digit; zero for any other byte.
pub open spec fn digit_value(c: u8) -> nat {
    if 0x30 <= c <= 0x39 {
        (c - 0x30) as nat
    } else {
        0
    }
}

/// The number that a row of decimal digits stands for.
pub open spec fn digits_value(digits: Seq<u8>) -> nat
    decreases digits.len(),
{
    if digits.len() == 0 {
        0
    } else {
        digits_value(digits.drop_last()) * 10 + digit_value(digits.last())
    }
}

/// A numeral is a row of one or more decimal digits that starts with a zero
/// only where it is the single digit `0`.
pub open spec fn is_numeral(text: Seq<u8>) -> bool {
    &&& text.len() > 0
    &&& forall|i: int| 0 <= i < text.len() ==> 0x30 <= #[trigger] text[i] <= 0x39
    &&& text.len() > 1 ==> text[0] != 0x30
}

/// The number that `text` stands for, where it is a numeral whose value fits
/// 64 bits.
pub open spec fn number_of(text: Seq<u8>) -> Option<u64> {
    if is_numeral(text) && digits_value(text) <= u64::MAX {
        Some(digits_value(text) as u64)
    } else {
        None
    }
}

/// A longer row of digits stands for no smaller a number than its beginning.
pub proof fn lemma_value_grows_with_length(digits: Seq<u8>, k: int)
    requires
        0 <= k <= digits.len(),
    ensures
        digits_value(digits.subrange(0, k)) <= digits_value(digits),
    decreases digits.len() - k,
{
    if k == digits.len() {
        assert(digits.subrange(0, k) =~= digits);
    } else {
        lemma_value_grows_with_length(digits.drop_last(), k);
        assert(digits.drop_last().subrange(0, k) =~= digits.subrange(0, k));
    }
}

/// The decimal text of a number is a numeral, and it stands for that number.
pub proof fn lemma_decimal_is_numeral(n: nat)
    ensures
        is_numeral(decimal(n)),
        digits_value(decimal(n)) == n,
        n < 10 ==> decimal(n).len() == 1,
        n >= 10 ==> decimal(n).len() > 1,
    decreases n,
{
    if n < 10 {
        let text = decimal(n);
        assert(text.drop_last() =~= Seq::<u8>::empty());
        assert(digits_value(text.drop_last()) == 0);
    } else {
        lemma_decimal_is_numeral(n / 10);
        let shorter = decimal(n / 10);
        let text = decimal(n);
        assert(text.drop_last() =~= shorter);
        assert(text[0] == shorter[0]);
        if n / 10 < 10 {
            assert(shorter[0] == (0x30 + n / 10) as u8);
        }
    }
}

/// The decimal text of `n`.
pub fn decimal_text(n: u64) -> (body: Vec<u8>)
    ensures
        body@ == decimal(n as nat),
{
    let mut reversed: Vec<u8> = Vec::new();
    let mut rest: u64 = n;
    let ghost mut tail: Seq<u8> = Seq::empty();
    while rest >= 10
        invariant
            reversed@.len() == tail.len(),
            forall|i: int|
                0 <= i < tail.len() ==> #[trigger] reversed@[i] == tail[tail.len() - 1 - i],
            decimal(n as nat) == decimal(rest as nat) + tail,
        decreases rest,
    {
        let digit: u8 = 0x30 + (rest % 10) as u8;
        proof {
            let ghost longer = seq![digit] + tail;
            assert(decimal(rest as nat) == decimal((rest / 10) as nat).push(digit));
            assert(decimal((rest / 10) as nat).push(digit) + tail =~= decimal((rest / 10) as nat)
                + longer);
            assert forall|i: int| 0 <= i < longer.len() implies #[trigger] reversed@.push(digit)[i]
                == longer[longer.len() - 1 - i] by {
                if i < tail.len() {
                    assert(reversed@[i] == tail[tail.len() - 1 - i]);
                }
            }
            tail = longer;
        }
        reversed.push(digit);
        rest = rest / 10;
    }
    let mut body: Vec<u8> = Vec::new();
    body.push(0x30 + rest as u8);
    let mut left: usize = reversed.len();
    while left > 0
        invariant
            left <= reversed@.len(),
            reversed@.len() == tail.len(),
            forall|i: int|
                0 <= i < tail.len() ==> #[trigger] reversed@[i] == tail[tail.len() - 1 - i],
            body@ == decimal(rest as nat) + tail.subrange(0, tail.len() - left),
        decreases left,
    {
        left = left - 1;
        proof {
            let k = tail.len() - 1 - left;
            assert(reversed@[left as int] == tail[k]);
            assert(tail.subrange(0, k + 1) =~= tail.subrange(0, k).push(tail[k]));
            assert((decimal(rest as nat) + tail.subrange(0, k)).push(tail[k]) =~= decimal(
                rest as nat,
            ) + tail.subrange(0, k + 1));
        }
        body.push(reversed[left]);
    }
    assert(tail.subrange(0, tail.len() as int) =~= tail);
    body
}

/// Reads a numeral.  Text that is no numeral, or whose value does not fit
/// 64 bits, stands for no number.
pub fn parse_number(text: &[u8]) -> (number: Option<u64>)
    ensures
        number == number_of(text@),
{
    let n = text.len();
    if n == 0 {
        return None;
    }
    if n > 1 && text[0] == 0x30 {
        return None;
    }
    let mut value: u64 = 0;
    let mut i: usize = 0;
    while i < n
        invariant
            n == text@.len(),
            i <= n,
            forall|j: int| 0 <= j < i ==> 0x30 <= #[trigger] text@[j] <= 0x39,
            value == digits_value(text@.subrange(0, i as int)),
        decreases n - i,
    {
        let c = text[i];
        if c < 0x30 || c > 0x39 {
            return None;
        }
        let digit: u64 = (c - 0x30) as u64;
        proof {
            let longer = text@.subrange(0, i + 1);
            assert(longer.drop_last() =~= text@.subrange(0, i as int));
            assert(digits_value(longer) == value * 10 + digit);
            lemma_value_grows_with_length(text@, i + 1);
        }
        if value > (u64::MAX - digit) / 10 {
            return None;
        }
        value = value * 10 + digit;
        i = i + 1;
    }
    assert(text@.subrange(0, n as int) =~= text@);
    Some(value)
}

} // verus!
