//! Rounding of sizes and addresses to power-of-two boundaries.

use vstd::prelude::*;

verus! {

/// Whether `n` is a power of two, that is, whether exactly one of its bits is set.
pub open spec fn is_power_of_two(n: usize) -> bool {
    n > 0 && n & ((n - 1) as usize) == 0
}

/// The least multiple of `multiple` that is not below `size`.
pub open spec fn round_up_spec(size: int, multiple: int) -> int {
    if size % multiple == 0 {
        size
    } else {
        size + multiple - size % multiple
    }
}

/// A multiple of `m` in `[x, x + m)` is the rounding of `x` up to `m`.
pub proof fn lemma_round_up_unique(x: int, m: int, r: int)
    by (nonlinear_arith)
    requires
        0 <= x,
        0 < m,
        r % m == 0,
        x <= r < x + m,
    ensures
        r == round_up_spec(x, m),
{
    if x % m == 0 {
        let a = x / m;
        let b = r / m;
        assert(x == a * m);
        assert(r == b * m);
        assert((b - a) * m == r - x);
        if b > a {
            assert((b - a) * m >= m);
        }
        if b < a {
            assert((b - a) * m < 0);
        }
        assert(r == x);
    } else {
        let a = x / m;
        let b = r / m;
        assert(x == a * m + x % m);
        assert(r == b * m);
        assert(0 < x % m < m);
        assert(b * m - a * m == (b - a) * m);
        if b <= a {
            assert((b - a) * m <= 0);
        }
        if b >= a + 2 {
            assert((b - a) * m >= 2 * m);
        }
        assert(b == a + 1);
    }
}

/// Rounding up gives a multiple of `m`, not below `x` and less than `m` above it.
pub proof fn lemma_round_up_bounds(x: int, m: int)
    by (nonlinear_arith)
    requires
        0 <= x,
        0 < m,
    ensures
        round_up_spec(x, m) % m == 0,
        x <= round_up_spec(x, m) < x + m,
{
    if x % m != 0 {
        let q = x / m;
        assert(x == q * m + x % m);
        assert(round_up_spec(x, m) == (q + 1) * m);
        assert(((q + 1) * m) % m == 0);
    }
}

/// A multiple of `m` is a multiple of every divisor of `m`.
pub proof fn lemma_multiple_of_multiple(x: int, m: int, d: int)
    by (nonlinear_arith)
    requires
        0 < d,
        0 < m,
        m % d == 0,
        x % m == 0,
    ensures
        x % d == 0,
{
    let a = x / m;
    let b = m / d;
    assert(x == a * m);
    assert(m == b * d);
    assert(x == (a * b) * d);
}

/// The sum of two multiples of `m` is a multiple of `m`.
pub proof fn lemma_sum_of_multiples(x: int, y: int, m: int)
    by (nonlinear_arith)
    requires
        0 < m,
        x % m == 0,
        y % m == 0,
    ensures
        (x + y) % m == 0,
{
    let a = x / m;
    let b = y / m;
    assert(x == a * m);
    assert(y == b * m);
    assert(x + y == (a + b) * m);
}

/// Of a power of two `m`, the multiples are the numbers whose bits below that of `m` are clear.
pub proof fn lemma_clear_low_bits_is_multiple(r: usize, m: usize)
    requires
        is_power_of_two(m),
        r & ((m - 1) as usize) == 0,
    ensures
        r % m == 0,
    decreases m,
{
    if m > 1 {
        let h: usize = m / 2;
        let q: usize = r / 2;
        assert(h > 0 && h & ((h - 1) as usize) == 0 && m == 2 * h && r == 2 * q && q & ((h
            - 1) as usize) == 0) by (bit_vector)
            requires
                m > 1,
                m & ((m - 1) as usize) == 0,
                r & ((m - 1) as usize) == 0,
                h == m / 2,
                q == r / 2,
        ;
        lemma_clear_low_bits_is_multiple(q, h);
        assert(r % m == 0) by (nonlinear_arith)
            requires
                q % h == 0,
                r == 2 * q,
                m == 2 * h,
                h > 0,
        {
            let k = q / h;
            assert(q == k * h);
            assert(r == k * m);
        }
    }
}

/// Rounds `size` up to the next multiple of the power of two `multiple`.
pub fn round_up(size: usize, multiple: usize) -> (rounded: usize)
    requires
        is_power_of_two(multiple),
        size + multiple - 1 <= usize::MAX,
    ensures
        rounded == round_up_spec(size as int, multiple as int),
{
    let mask: usize = multiple - 1;
    let sum: usize = size + mask;
    let rounded: usize = sum & !mask;
    proof {
        assert(rounded & mask == 0 && size <= rounded && rounded - size <= mask) by (bit_vector)
            requires
                sum == size + mask,
                rounded == sum & !mask,
        ;
        lemma_clear_low_bits_is_multiple(rounded, multiple);
        lemma_round_up_unique(size as int, multiple as int, rounded as int);
    }
    rounded
}

/// The alignments of unwind tables, of code and of data are powers of two.
pub proof fn lemma_small_powers_of_two()
    ensures
        is_power_of_two(4),
        is_power_of_two(16),
        is_power_of_two(64),
{
    assert(4usize & 3usize == 0 && 16usize & 15usize == 0 && 64usize & 63usize == 0)
        by (bit_vector);
}

/// A power of two that is at least 64 is a multiple of 64, and so of 16.
pub proof fn lemma_large_power_of_two(p: usize)
    requires
        is_power_of_two(p),
        p >= 64,
    ensures
        p % 64 == 0,
        p % 16 == 0,
{
    assert(p % 64 == 0 && p % 16 == 0) by (bit_vector)
        requires
            p & ((p - 1) as usize) == 0,
            p >= 64,
    ;
}

/// Two multiples of `m` that are less than `m` apart are equal.
pub proof fn lemma_close_multiples(x: int, y: int, m: int)
    by (nonlinear_arith)
    requires
        0 < m,
        x % m == 0,
        y % m == 0,
        x <= y < x + m,
    ensures
        x == y,
{
    let a = x / m;
    let b = y / m;
    assert(x == a * m);
    assert(y == b * m);
    assert(y - x == (b - a) * m);
    if b > a {
        assert((b - a) * m >= m);
    }
}

/// Where the rounding of `x` up to the power of two `p` fits the machine
/// word, so does `x + p - 1`, from which it is computed.
pub proof fn lemma_round_up_fits(x: usize, p: usize)
    requires
        is_power_of_two(p),
        round_up_spec(x as int, p as int) <= usize::MAX,
    ensures
        x + p - 1 <= usize::MAX,
{
    let top: usize = !0usize;
    let max: usize = usize::MAX;
    assert(max <= top) by (bit_vector)
        requires
            top == !0usize,
    ;
    let rest: usize = (top - (p - 1)) as usize;
    assert(rest & ((p - 1) as usize) == 0 && rest == top - (p - 1)) by (bit_vector)
        requires
            p > 0,
            top == !0usize,
            rest == (top - (p - 1)) as usize,
    ;
    lemma_clear_low_bits_is_multiple(rest, p);
    lemma_round_up_bounds(x as int, p as int);
    if x > rest {
        lemma_close_multiples(rest as int, round_up_spec(x as int, p as int), p as int);
    }
}

/// Rounds `size` up to the next multiple of `multiple`, if the result fits.
pub fn checked_round_up(size: usize, multiple: usize) -> (rounded: Option<usize>)
    requires
        multiple > 0,
    ensures
        rounded == if round_up_spec(size as int, multiple as int) <= usize::MAX {
            Some(round_up_spec(size as int, multiple as int) as usize)
        } else {
            None
        },
{
    let rest: usize = size % multiple;
    if rest == 0 {
        Some(size)
    } else {
        size.checked_add(multiple - rest)
    }
}

} // verus!
