//! Allocator utilities: alignment arithmetic and memory layouts.
//!
//! Addresses are plain integers here; 0 stands for the null pointer.

use vstd::prelude::*;

verus! {

/// `x` is a power of two.
pub open spec fn is_pow2(x: int) -> bool
    decreases x,
{
    if x <= 0 {
        false
    } else if x == 1 {
        true
    } else {
        x % 2 == 0 && is_pow2(x / 2)
    }
}

/// The smallest multiple of `align` that is at least `addr`.
pub open spec fn align_up_spec(addr: int, align: int) -> int {
    if addr % align == 0 {
        addr
    } else {
        addr + align - addr % align
    }
}

/// A size and an alignment that a memory layout may have: the alignment is a power of two, and
/// the size, rounded up to the alignment, does not exceed `isize::MAX`.
pub open spec fn valid_layout(size: int, align: int) -> bool {
    &&& is_pow2(align)
    &&& size <= (isize::MAX as int) - (isize::MAX as int) % align
}

proof fn lemma_pow2_mask(align: usize)
    requires
        is_pow2(align as int),
    ensures
        align > 0,
        align & ((align - 1) as usize) == 0,
    decreases align,
{
    if align == 1 {
        assert(1usize & ((1usize - 1) as usize) == 0) by (bit_vector);
    } else {
        let half = (align / 2) as usize;
        lemma_pow2_mask(half);
        assert(align == 2 * half);
        assert(half > 0 && half & ((half - 1) as usize) == 0 && align == 2 * half ==> align & ((align - 1) as usize)
            == 0) by (bit_vector);
    }
}

proof fn lemma_mask_pow2(align: usize)
    requires
        align > 0,
        align & ((align - 1) as usize) == 0,
    ensures
        is_pow2(align as int),
    decreases align,
{
    if align > 1 {
        let half = (align / 2) as usize;
        assert(align > 1 && align & ((align - 1) as usize) == 0 ==> align % 2 == 0 && half & ((half - 1) as usize)
            == 0 && half > 0) by (bit_vector)
            requires
                half == align / 2,
        ;
        lemma_mask_pow2(half);
    }
}

/// A power of two of at least 8 is a multiple of 8.
pub proof fn lemma_pow2_multiple_of_8(align: int)
    requires
        is_pow2(align),
        align >= 8,
    ensures
        align % 8 == 0,
    decreases align,
{
    if align > 8 {
        assert(is_pow2(8)) by {
            reveal_with_fuel(is_pow2, 4);
        }
        lemma_pow2_between(align, 8);
        lemma_pow2_multiple_of_8(align / 2);
    }
}

/// A multiple of a power of two `big` is a multiple of every smaller power of two.
pub proof fn lemma_pow2_divides(small: int, big: int, x: int)
    requires
        is_pow2(small),
        is_pow2(big),
        small <= big,
        x % big == 0,
    ensures
        x % small == 0,
    decreases big,
{
    if small < big {
        let half = big / 2;
        assert(big == 2 * half);
        assert(x % half == 0) by {
            vstd::arithmetic::div_mod::lemma_fundamental_div_mod(x, big);
            let q = x / big;
            assert(x == (2 * q) * half) by (nonlinear_arith)
                requires
                    x == big * q + 0,
                    big == 2 * half,
            ;
            vstd::arithmetic::div_mod::lemma_mod_multiples_basic(2 * q, half);
        }
        lemma_pow2_below(small, big);
        lemma_pow2_divides(small, half, x);
    }
}

/// No power of two lies strictly between `half` and `2 * half`.
proof fn lemma_pow2_between(small: int, half: int)
    requires
        is_pow2(small),
        is_pow2(half),
    ensures
        small <= half || small >= 2 * half,
    decreases half,
{
    if half > 1 && small > 1 {
        lemma_pow2_between(small / 2, half / 2);
    }
}

/// Two powers of two are either equal, or the smaller is at most half of the larger.
proof fn lemma_pow2_below(small: int, big: int)
    requires
        is_pow2(small),
        is_pow2(big),
        small < big,
    ensures
        small <= big / 2,
{
    if small > big / 2 {
        assert(big % 2 == 0);
        lemma_pow2_between(big, small);
    }
}

/// For a power of two `a`, masking with `a - 1` keeps the remainder modulo `a`.
proof fn lemma_and_mask_mod(x: usize, a: usize)
    requires
        is_pow2(a as int),
    ensures
        x & ((a - 1) as usize) == x % a,
    decreases a,
{
    if a == 1 {
        assert(x & 0usize == 0) by (bit_vector);
    } else {
        let h = (a / 2) as usize;
        assert(a == 2 * h);
        let y = (x / 2) as usize;
        lemma_and_mask_mod(y, h);
        assert(x & ((a - 1) as usize) == 2 * (y & ((h - 1) as usize)) + x % 2) by (bit_vector)
            requires
                a == 2 * h,
                h > 0,
                y == x / 2,
        ;
        vstd::arithmetic::div_mod::lemma_mod_breakdown(x as int, 2, h as int);
    }
}

/// Align the given address `addr` upwards to alignment `align`.
///
/// Requires that `align` is a power of two.
pub fn align_up(addr: usize, align: usize) -> (r: usize)
    requires
        is_pow2(align as int),
        addr + align - 1 <= usize::MAX,
    ensures
        r == align_up_spec(addr as int, align as int),
        r % align == 0,
        addr <= r < addr + align,
{
    proof {
        let m = (align - 1) as usize;
        let s = (addr + m) as usize;
        lemma_and_mask_mod(s, align);
        assert(s & !m == s - (s & m)) by (bit_vector);
        let a = align as int;
        let q = addr as int / a;
        let rho = addr as int % a;
        vstd::arithmetic::div_mod::lemma_fundamental_div_mod(addr as int, a);
        if rho == 0 {
            assert(s == q * a + (a - 1)) by (nonlinear_arith)
                requires
                    s == addr + a - 1,
                    addr == a * q + rho,
                    rho == 0,
            ;
            vstd::arithmetic::div_mod::lemma_fundamental_div_mod_converse(s as int, a, q, a - 1);
        } else {
            assert(s == (q + 1) * a + (rho - 1)) by (nonlinear_arith)
                requires
                    s == addr + a - 1,
                    addr == a * q + rho,
            ;
            vstd::arithmetic::div_mod::lemma_fundamental_div_mod_converse(
                s as int,
                a,
                q + 1,
                rho - 1,
            );
            assert((q + 1) * a == addr + a - rho) by (nonlinear_arith)
                requires
                    addr == a * q + rho,
            ;
            vstd::arithmetic::div_mod::lemma_mod_multiples_basic(q + 1, a);
        }
    }
    (addr + (align - 1)) & !(align - 1)
}

/// Rounding up to a multiple of `align` stays below every multiple of `align` that is at least
/// the value rounded.
proof fn lemma_align_up_below(x: int, align: int, k: int)
    requires
        align > 0,
        0 <= x <= k,
        k % align == 0,
    ensures
        x <= align_up_spec(x, align) <= k,
        align_up_spec(x, align) % align == 0,
{
    vstd::arithmetic::div_mod::lemma_fundamental_div_mod(x, align);
    vstd::arithmetic::div_mod::lemma_fundamental_div_mod(k, align);
    let q = x / align;
    let r = x % align;
    let kq = k / align;
    if r != 0 {
        assert(q * align < kq * align) by {
            vstd::arithmetic::mul::lemma_mul_is_commutative(q, align);
            vstd::arithmetic::mul::lemma_mul_is_commutative(kq, align);
        }
        vstd::arithmetic::mul::lemma_mul_strict_inequality_converse(q, kq, align);
        vstd::arithmetic::mul::lemma_mul_inequality(q + 1, kq, align);
        assert((q + 1) * align == q * align + align) by (nonlinear_arith);
        assert(align_up_spec(x, align) == (q + 1) * align) by {
            vstd::arithmetic::mul::lemma_mul_is_commutative(q, align);
        }
        vstd::arithmetic::div_mod::lemma_mod_multiples_basic(q + 1, align);
        vstd::arithmetic::mul::lemma_mul_is_commutative(kq, align);
    }
}

/// Rounding up to a multiple of `a` gives a multiple of `a`, less than `a` above the value.
pub proof fn lemma_align_up_spec(x: int, a: int)
    requires
        a > 0,
        x >= 0,
    ensures
        align_up_spec(x, a) % a == 0,
        x <= align_up_spec(x, a) < x + a,
{
    vstd::arithmetic::div_mod::lemma_fundamental_div_mod(x, a);
    let q = x / a;
    let r = x % a;
    if r != 0 {
        assert(align_up_spec(x, a) == (q + 1) * a) by (nonlinear_arith)
            requires
                x == a * q + r,
                align_up_spec(x, a) == x + a - r,
        ;
        vstd::arithmetic::div_mod::lemma_mod_multiples_basic(q + 1, a);
    }
}

/// The size and alignment of a block of memory.
///
/// The alignment is a power of two, and the size rounded up to the alignment does not exceed
/// `isize::MAX`.
#[derive(Clone, Copy, Debug, PartialEq, Eq)]
pub struct Layout {
    size: usize,
    align: usize,
}

impl Layout {
    #[verifier::type_invariant]
    spec fn valid(self) -> bool {
        valid_layout(self.size as int, self.align as int)
    }

    /// The size of the block.
    pub closed spec fn spec_size(self) -> usize {
        self.size
    }

    /// The alignment of the block.
    pub closed spec fn spec_align(self) -> usize {
        self.align
    }

    /// Creates a layout of the given size and alignment, or `None` where the pair is not valid.
    pub fn from_size_align(size: usize, align: usize) -> (r: Option<Layout>)
        ensures
            r is Some <==> valid_layout(size as int, align as int),
            r matches Some(l) ==> l.spec_size() == size && l.spec_align() == align,
    {
        if align == 0 || align & (align - 1) != 0 {
            proof {
                if is_pow2(align as int) {
                    lemma_pow2_mask(align);
                }
            }
            return None;
        }
        proof {
            lemma_mask_pow2(align);
        }
        let max: usize = isize::MAX as usize;
        proof {
            vstd::arithmetic::div_mod::lemma_mod_decreases(max as nat, align as nat);
        }
        if size > max - max % align {
            None
        } else {
            Some(Layout { size, align })
        }
    }

    /// The size of the block.
    pub fn size(&self) -> (r: usize)
        ensures
            r == self.spec_size(),
            valid_layout(self.spec_size() as int, self.spec_align() as int),
    {
        proof {
            use_type_invariant(self);
        }
        self.size
    }

    /// The alignment of the block.
    pub fn align(&self) -> (r: usize)
        ensures
            r == self.spec_align(),
            valid_layout(self.spec_size() as int, self.spec_align() as int),
    {
        proof {
            use_type_invariant(self);
        }
        self.align
    }

    /// The layout with the same size, aligned to the larger of its alignment and `align`, or
    /// `None` where that pair is not valid.
    pub fn align_to(&self, align: usize) -> (r: Option<Layout>)
        requires
            is_pow2(align as int),
        ensures
            ({
                let a = if align > self.spec_align() { align } else { self.spec_align() };
                &&& r is Some <==> valid_layout(self.spec_size() as int, a as int)
                &&& r matches Some(l) ==> l.spec_size() == self.spec_size() && l.spec_align() == a
            }),
    {
        let a = if align > self.align { align } else { self.align };
        proof {
            use_type_invariant(self);
        }
        let max: usize = isize::MAX as usize;
        proof {
            vstd::arithmetic::div_mod::lemma_mod_decreases(max as nat, a as nat);
        }
        if self.size > max - max % a {
            None
        } else {
            Some(Layout { size: self.size, align: a })
        }
    }

    /// The layout whose size is rounded up to a multiple of the alignment.
    pub fn pad_to_align(&self) -> (r: Layout)
        ensures
            r.spec_size() == align_up_spec(self.spec_size() as int, self.spec_align() as int),
            r.spec_align() == self.spec_align(),
            r.spec_size() % r.spec_align() == 0,
    {
        proof {
            use_type_invariant(self);
            let m = isize::MAX as int;
            let a = self.align as int;
            vstd::arithmetic::div_mod::lemma_fundamental_div_mod(m, a);
            vstd::arithmetic::div_mod::lemma_mod_multiples_basic(m / a, a);
            vstd::arithmetic::mul::lemma_mul_is_commutative(m / a, a);
            lemma_align_up_below(self.size as int, a, m - m % a);
        }
        let r = self.size % self.align;
        let size = if r == 0 { self.size } else { self.size + (self.align - r) };
        Layout { size, align: self.align }
    }
}

} // verus!
