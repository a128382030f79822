//! Decimal digits and space-joined lists, the textual building blocks of attribute values.

use vstd::prelude::*;

verus! {

/// The character of one decimal digit.
pub open spec fn digit_char(d: nat) -> char {
    if d == 0 { '0' }
    else if d == 1 { '1' }
    else if d == 2 { '2' }
    else if d == 3 { '3' }
    else if d == 4 { '4' }
    else if d == 5 { '5' }
    else if d == 6 { '6' }
    else if d == 7 { '7' }
    else if d == 8 { '8' }
    else { '9' }
}

/// The decimal digits of `n`, most significant first, without leading zeros.
pub open spec fn digits(n: nat) -> Seq<char>
    decreases n,
{
    if n < 10 {
        seq![digit_char(n)]
    } else {
        digits(n / 10).push(digit_char(n % 10))
    }
}

/// The decimal text of an integer: a minus sign only when it is negative.
pub open spec fn int_text(i: int) -> Seq<char> {
    if i < 0 {
        seq!['-'] + digits((-i) as nat)
    } else {
        digits(i as nat)
    }
}

/// The parts joined by single spaces.
pub open spec fn join_spaced(parts: Seq<Seq<char>>) -> Seq<char>
    decreases parts.len(),
{
    if parts.len() == 0 {
        Seq::empty()
    } else if parts.len() == 1 {
        parts[0]
    } else {
        join_spaced(parts.drop_last()) + seq![' '] + parts.last()
    }
}

/// Joining one more part adds a space and the part, unless it is the first.
pub proof fn lemma_join_push(parts: Seq<Seq<char>>, x: Seq<char>)
    ensures
        join_spaced(parts.push(x)) == if parts.len() == 0 {
            x
        } else {
            join_spaced(parts) + seq![' '] + x
        },
{
    assert(parts.push(x).drop_last() =~= parts);
    assert(parts.push(x).last() == x);
}

/// Every number has at least one digit.
pub proof fn lemma_digits_nonempty(n: nat)
    ensures
        digits(n).len() >= 1,
    decreases n,
{
    if n >= 10 {
        lemma_digits_nonempty(n / 10);
    }
}

/// Ten to the power `k`.
pub open spec fn pow10(k: nat) -> nat
    decreases k,
{
    if k == 0 { 1 } else { 10 * pow10((k - 1) as nat) }
}

/// A number below `10^k` has at most `k` digits.
pub proof fn lemma_digits_len_bound(n: nat, k: nat)
    requires
        k >= 1,
        n < pow10(k),
    ensures
        digits(n).len() <= k,
    decreases k,
{
    if n >= 10 {
        if k == 1 {
            assert(pow10(1) == 10) by {
                reveal_with_fuel(pow10, 2);
            }
        }
        assert(n / 10 < pow10((k - 1) as nat));
        lemma_digits_len_bound(n / 10, (k - 1) as nat);
    }
}

/// The text of one decimal digit.
fn digit_str(d: u64) -> (r: &'static str)
    requires
        d < 10,
    ensures
        r@ == seq![digit_char(d as nat)],
{
    proof {
        reveal_strlit("0");
        reveal_strlit("1");
        reveal_strlit("2");
        reveal_strlit("3");
        reveal_strlit("4");
        reveal_strlit("5");
        reveal_strlit("6");
        reveal_strlit("7");
        reveal_strlit("8");
        reveal_strlit("9");
    }
    match d {
        0 => "0",
        1 => "1",
        2 => "2",
        3 => "3",
        4 => "4",
        5 => "5",
        6 => "6",
        7 => "7",
        8 => "8",
        _ => "9",
    }
}

/// Appends the decimal digits of `n` to `out`.
pub fn push_digits(out: &mut String, n: u64)
    ensures
        final(out)@ == old(out)@ + digits(n as nat),
    decreases n,
{
    if n >= 10 {
        push_digits(out, n / 10);
    }
    out.append(digit_str(n % 10));
    proof {
        assert(old(out)@ + digits(n as nat) =~= final(out)@);
    }
}

/// The number of decimal digits of `n`.
pub fn digit_count(n: u64) -> (r: usize)
    ensures
        r as nat == digits(n as nat).len(),
        1 <= r <= 20,
    decreases n,
{
    proof {
        lemma_digits_nonempty(n as nat);
        reveal_with_fuel(pow10, 21);
        assert(pow10(20) == 100000000000000000000nat);
        lemma_digits_len_bound(n as nat, 20);
    }
    if n < 10 {
        1
    } else {
        let k = digit_count(n / 10);
        k + 1
    }
}

} // verus!
