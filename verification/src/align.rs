//! Rounding of byte addresses and sizes to power-of-two granules.

use vstd::prelude::*;

verus! {

/// The largest multiple of `align` that is at most `a`.
pub open spec fn spec_align_down(a: int, align: int) -> int {
    (a / align) * align
}

/// The smallest multiple of `align` that is at least `a`.
pub open spec fn spec_align_up(a: int, align: int) -> int {
    spec_align_down(a + align - 1, align)
}

/// `spec_align_down` never exceeds its argument, stays within one granule of
/// it, and yields a multiple of the granule.
pub proof fn lemma_align_down_properties(a: int, align: int)
    requires
        0 <= a,
        0 < align,
    ensures
        a - align < spec_align_down(a, align) <= a,
        spec_align_down(a, align) % align == 0,
        0 <= spec_align_down(a, align),
{
    vstd::arithmetic::div_mod::lemma_fundamental_div_mod(a, align);
    vstd::arithmetic::div_mod::lemma_mod_division_less_than_divisor(a, align);
    assert(align * (a / align) == (a / align) * align) by (nonlinear_arith);
    assert(spec_align_down(a, align) % align == 0) by {
        vstd::arithmetic::div_mod::lemma_mod_multiples_basic(a / align, align);
    }
}

/// `spec_align_up` rounds to the next multiple of the granule at or above `a`.
pub proof fn lemma_align_up_properties(a: int, align: int)
    requires
        0 <= a,
        0 < align,
    ensures
        a <= spec_align_up(a, align) < a + align,
        spec_align_up(a, align) % align == 0,
{
    lemma_align_down_properties(a + align - 1, align);
}

/// Closed form of `spec_align_up`: the argument itself when already aligned,
/// otherwise the argument plus the distance to the next multiple.
pub proof fn lemma_align_up_form(a: int, align: int)
    requires
        0 <= a,
        0 < align,
    ensures
        spec_align_up(a, align) == if a % align == 0 {
            a
        } else {
            a + align - a % align
        },
{
    lemma_align_up_properties(a, align);
    let r = spec_align_up(a, align);
    let c = if a % align == 0 {
        a
    } else {
        a + align - a % align
    };
    vstd::arithmetic::div_mod::lemma_fundamental_div_mod(a, align);
    vstd::arithmetic::div_mod::lemma_mod_division_less_than_divisor(a, align);
    assert(c % align == 0) by {
        if a % align != 0 {
            assert(c == align * (a / align) + align);
            assert(c == (a / align + 1) * align) by (nonlinear_arith)
                requires
                    c == align * (a / align) + align,
            ;
            vstd::arithmetic::div_mod::lemma_mod_multiples_basic(a / align + 1, align);
        } else {
            assert(c == align * (a / align));
            assert(c == (a / align) * align) by (nonlinear_arith)
                requires
                    c == align * (a / align),
            ;
            vstd::arithmetic::div_mod::lemma_mod_multiples_basic(a / align, align);
        }
    }
    assert(a <= c < a + align);
    // Two multiples of `align` in a window shorter than `align` coincide.
    vstd::arithmetic::div_mod::lemma_fundamental_div_mod(r, align);
    vstd::arithmetic::div_mod::lemma_fundamental_div_mod(c, align);
    let kr = r / align;
    let kc = c / align;
    assert(r == align * kr && c == align * kc);
    assert(-align < align * kr - align * kc < align) by {
        assert(r - c < align && c - r < align);
    }
    assert(kr == kc) by (nonlinear_arith)
        requires
            -align < align * kr - align * kc < align,
            align > 0,
    ;
}

/// A multiple of `k * m` is a multiple of `m`.
pub proof fn lemma_multiple_of_product(x: int, m: int, k: int)
    requires
        m > 0,
        k > 0,
        x % (k * m) == 0,
    ensures
        x % m == 0,
{
    let km = k * m;
    assert(k * m > 0) by (nonlinear_arith)
        requires
            k > 0,
            m > 0,
    ;
    vstd::arithmetic::div_mod::lemma_fundamental_div_mod(x, km);
    assert(x == km * (x / km));
    assert(x == (k * (x / km)) * m) by (nonlinear_arith)
        requires
            x == (k * m) * (x / km),
    ;
    vstd::arithmetic::div_mod::lemma_mod_multiples_basic(k * (x / km), m);
}

/// The sum of two multiples of `m` is a multiple of `m`.
pub proof fn lemma_sum_of_multiples(x: int, y: int, m: int)
    requires
        m > 0,
        x % m == 0,
        y % m == 0,
    ensures
        (x + y) % m == 0,
{
    vstd::arithmetic::div_mod::lemma_fundamental_div_mod(x, m);
    vstd::arithmetic::div_mod::lemma_fundamental_div_mod(y, m);
    assert(x + y == (x / m + y / m) * m) by (nonlinear_arith)
        requires
            x == m * (x / m),
            y == m * (y / m),
    ;
    vstd::arithmetic::div_mod::lemma_mod_multiples_basic(x / m + y / m, m);
}

/// Rounding a multiple of the granule changes nothing.
pub proof fn lemma_aligned_is_fixed_point(a: int, align: int)
    requires
        0 <= a,
        0 < align,
        a % align == 0,
    ensures
        spec_align_up(a, align) == a,
        spec_align_down(a, align) == a,
{
    lemma_align_up_form(a, align);
    vstd::arithmetic::div_mod::lemma_fundamental_div_mod(a, align);
    assert(a == align * (a / align));
    assert(spec_align_down(a, align) == align * (a / align)) by (nonlinear_arith);
}

/// A positive multiple of `m` is at least `m`.
pub proof fn lemma_positive_multiple_at_least(x: int, m: int)
    requires
        m > 0,
        x > 0,
        x % m == 0,
    ensures
        x >= m,
{
    vstd::arithmetic::div_mod::lemma_fundamental_div_mod(x, m);
    assert(x == m * (x / m));
    if x / m <= 0 {
        assert(m * (x / m) <= 0) by (nonlinear_arith)
            requires
                m > 0,
                x / m <= 0,
        ;
    }
    assert(m * (x / m) >= m) by (nonlinear_arith)
        requires
            m > 0,
            x / m >= 1,
    ;
}

/// Rounds `a` down to a multiple of `align`.
pub fn align_down(a: usize, align: usize) -> (r: usize)
    requires
        align > 0,
    ensures
        r == spec_align_down(a as int, align as int),
{
    proof {
        lemma_align_down_properties(a as int, align as int);
    }
    (a / align) * align
}

/// Rounds `a` up to a multiple of `align`.
pub fn align_up(a: usize, align: usize) -> (r: usize)
    requires
        align > 0,
        a + align - 1 <= usize::MAX,
    ensures
        r == spec_align_up(a as int, align as int),
{
    proof {
        lemma_align_down_properties(a as int + align as int - 1, align as int);
    }
    ((a + (align - 1)) / align) * align
}

} // verus!
