//! The machine's numeric domain: address arithmetic is performed in the
//! signed domain and reinterpreted as an unsigned address, so every helper
//! here is a total, wrapping operation with an exact specification.

use vstd::prelude::*;

use vstd::arithmetic::div_mod::{lemma_mod_multiples_vanish, lemma_small_mod};

verus! {

/// One more than the largest address: the size of the address space.
pub open spec fn addr_space() -> int {
    usize::MAX as int + 1
}

/// Reduction of a mathematical integer into the unsigned address domain.
pub open spec fn mask_addr(x: int) -> int {
    x % addr_space()
}

/// Reduction of a mathematical integer into the signed machine domain.
pub open spec fn to_signed(x: int) -> int {
    let r = mask_addr(x);
    if r > isize::MAX as int {
        r - addr_space()
    } else {
        r
    }
}

/// `v % R == v` shifted by whole multiples of `R`, for `v` within one
/// multiple either side.
pub proof fn lemma_mask_window(v: int)
    requires
        -addr_space() <= v < 2 * addr_space(),
    ensures
        mask_addr(v) == if v < 0 {
            v + addr_space()
        } else if v >= addr_space() {
            v - addr_space()
        } else {
            v
        },
{
    let r = addr_space();
    if v < 0 {
        lemma_mod_multiples_vanish(-1, v + r, r);
        lemma_small_mod((v + r) as nat, r as nat);
    } else if v >= r {
        lemma_mod_multiples_vanish(1, v - r, r);
        lemma_small_mod((v - r) as nat, r as nat);
    } else {
        lemma_small_mod(v as nat, r as nat);
    }
}

/// Masking is idempotent across the signed reinterpretation.
pub proof fn lemma_mask_of_signed(x: int)
    ensures
        mask_addr(to_signed(x)) == mask_addr(x),
{
    let r = addr_space();
    lemma_mod_bound_local(x);
    let m = mask_addr(x);
    if m > isize::MAX as int {
        lemma_mask_window(m - r);
    } else {
        lemma_mask_window(m);
    }
}

/// The mask lands in the unsigned range.
proof fn lemma_mod_bound_local(x: int)
    ensures
        0 <= mask_addr(x) < addr_space(),
{
    vstd::arithmetic::div_mod::lemma_mod_bound(x, addr_space());
}

/// Wrapping addition in the signed domain.
pub fn wrap_add(a: isize, b: isize) -> (r: isize)
    ensures
        r as int == to_signed(a + b),
{
    proof {
        lemma_mask_window(a + b);
    }
    a.wrapping_add(b)
}

/// Wrapping subtraction in the signed domain.
pub fn wrap_sub(a: isize, b: isize) -> (r: isize)
    ensures
        r as int == to_signed(a - b),
{
    proof {
        lemma_mask_window(a - b);
    }
    a.wrapping_sub(b)
}

/// Wrapping negation in the signed domain.
pub fn wrap_neg(a: isize) -> (r: isize)
    ensures
        r as int == to_signed(-a),
{
    proof {
        lemma_mask_window(-(a as int));
    }
    if a == isize::MIN {
        a
    } else {
        -a
    }
}

/// The signed reinterpretation of an unsigned machine word.
pub fn usize_as_isize(n: usize) -> (r: isize)
    ensures
        r as int == to_signed(n as int),
{
    proof {
        lemma_mask_window(n as int);
    }
    if n <= (isize::MAX as usize) {
        n as isize
    } else {
        let d: usize = usize::MAX - n;
        -(d as isize) - 1
    }
}

/// The unsigned reinterpretation of a signed machine word.
pub fn isize_as_usize(n: isize) -> (r: usize)
    ensures
        r as int == mask_addr(n as int),
{
    proof {
        lemma_mask_window(n as int);
    }
    if n >= 0 {
        n as usize
    } else {
        let d: isize = -(n + 1);
        usize::MAX - (d as usize)
    }
}

/// Wrapping increment in the unsigned domain.
pub fn wrap_inc(a: u64) -> (r: u64)
    ensures
        r as int == (a as int + 1) % (u64::MAX as int + 1),
{
    proof {
        let m = u64::MAX as int + 1;
        if a as int + 1 < m {
            lemma_small_mod((a as int + 1) as nat, m as nat);
        } else {
            lemma_mod_multiples_vanish(1, 0, m);
            lemma_small_mod(0nat, m as nat);
        }
    }
    a.wrapping_add(1)
}

} // verus!
