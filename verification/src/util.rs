use vstd::prelude::*;

verus! {

/// Number of digits in the decimal representation of `n`.
pub open spec fn decimal_len(n: nat) -> nat
    decreases n,
{
    if n < 10 {
        1
    } else {
        1 + decimal_len(n / 10)
    }
}

/// Return the maximum character length of a 0-indexed list's indices.
pub fn max_index_length(list_size: usize) -> (res: usize)
    ensures
        list_size == 0 ==> res == 0,
        list_size > 0 ==> res == decimal_len((list_size - 1) as nat),
{
    if list_size == 0 {
        return 0;
    }
    proof {
        lemma_decimal_len_bound((list_size - 1) as nat);
    }
    let mut n: usize = list_size - 1;
    let mut digits: usize = 1;
    while n >= 10
        invariant
            digits + decimal_len(n as nat) == 1 + decimal_len((list_size - 1) as nat),
            decimal_len((list_size - 1) as nat) <= list_size,
        decreases n,
    {
        proof {
            lemma_decimal_len_bound(n as nat);
            lemma_decimal_len_bound((n / 10) as nat);
        }
        n = n / 10;
        digits = digits + 1;
    }
    digits
}

/// A number has at least one digit, and no more digits than its value plus one.
proof fn lemma_decimal_len_bound(n: nat)
    ensures
        1 <= decimal_len(n) <= n + 1,
    decreases n,
{
    if n >= 10 {
        lemma_decimal_len_bound(n / 10);
    }
}

/// `10^k`.
pub open spec fn pow10(k: nat) -> nat
    decreases k,
{
    if k == 0 {
        1
    } else {
        10 * pow10((k - 1) as nat)
    }
}

/// `decimal_len(n)` is the number of decimal digits of `n`: the `d` with
/// `10^(d-1) <= n < 10^d` (and 1 for zero).
pub proof fn law_decimal_len_digits(n: nat)
    ensures
        decimal_len(n) >= 1,
        n < pow10(decimal_len(n)),
        n > 0 ==> pow10((decimal_len(n) - 1) as nat) <= n,
    decreases n,
{
    if n >= 10 {
        law_decimal_len_digits(n / 10);
        let d = decimal_len(n);
        assert(pow10(d) == 10 * pow10((d - 1) as nat));
        assert(d >= 2);
        assert(n / 10 > 0);
        assert(pow10((d - 1) as nat) == 10 * pow10((d - 2) as nat));
        assert(n / 10 < pow10((d - 1) as nat));
        assert(n < 10 * (n / 10) + 10);
    } else {
        assert(pow10(0) == 1);
        assert(pow10(1) == 10);
    }
}

} // verus!
