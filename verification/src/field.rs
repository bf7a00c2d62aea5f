//! Elements of the prime field of order `2^128 - 45 * 2^40 + 1`, the base field in
//! which the STARK traces are written (winterfell's 128-bit field).

use vstd::prelude::*;
use vstd::arithmetic::div_mod::*;
use vstd::arithmetic::mul::*;

verus! {

/// The field modulus, `2^128 - 45 * 2^40 + 1`.
pub const MODULUS: u128 = 340282366920938463463374557953744961537u128;

/// The modulus as a mathematical integer.
pub open spec fn modulus() -> int {
    MODULUS as int
}

/// `a + b` in the field.
pub open spec fn fadd(a: int, b: int) -> int {
    (a + b) % modulus()
}

/// `a - b` in the field.
pub open spec fn fsub(a: int, b: int) -> int {
    (a - b) % modulus()
}

/// `a * b` in the field.
pub open spec fn fmul(a: int, b: int) -> int {
    (a * b) % modulus()
}

/// A field element, held in canonical form (below the modulus).
#[derive(Clone, Copy, Debug, PartialEq, Eq, Structural)]
pub struct Felt {
    value: u128,
}

impl View for Felt {
    type V = int;

    closed spec fn view(&self) -> int {
        self.value as int
    }
}

impl Felt {
    #[verifier::type_invariant]
    spec fn canonical(self) -> bool {
        self.value < MODULUS
    }

    /// The element that `value` stands for: `value` reduced modulo the field's order.
    pub fn new(value: u128) -> (r: Felt)
        ensures
            r@ == value as int % modulus(),
    {
        if value < MODULUS {
            proof {
                lemma_small_mod(value as nat, modulus() as nat);
            }
            Felt { value }
        } else {
            proof {
                lemma_fundamental_div_mod_converse(value as int, modulus(), 1, value - MODULUS);
            }
            Felt { value: value - MODULUS }
        }
    }

    /// The additive identity.
    pub fn zero() -> (r: Felt)
        ensures
            r@ == 0,
    {
        Felt { value: 0 }
    }

    /// The multiplicative identity.
    pub fn one() -> (r: Felt)
        ensures
            r@ == 1,
    {
        Felt { value: 1 }
    }

    /// The canonical integer of this element.
    pub fn value(&self) -> (v: u128)
        ensures
            v as int == self@,
            v < MODULUS,
    {
        proof {
            use_type_invariant(self);
        }
        self.value
    }

    /// Field addition.
    pub fn add(self, other: Felt) -> (r: Felt)
        ensures
            r@ == fadd(self@, other@),
            r@ == (self@ + other@) % modulus(),
            0 <= r@ < modulus(),
    {
        proof {
            use_type_invariant(&self);
            use_type_invariant(&other);
        }
        let a = self.value;
        let b = other.value;
        let z = MODULUS - b;
        if a < z {
            proof {
                lemma_small_mod((a + b) as nat, modulus() as nat);
            }
            Felt { value: a + b }
        } else {
            proof {
                lemma_fundamental_div_mod_converse(a + b, modulus(), 1, a - z);
            }
            Felt { value: a - z }
        }
    }

    /// Field subtraction.
    pub fn sub(self, other: Felt) -> (r: Felt)
        ensures
            r@ == fsub(self@, other@),
            r@ == (self@ - other@) % modulus(),
            0 <= r@ < modulus(),
    {
        proof {
            use_type_invariant(&self);
            use_type_invariant(&other);
        }
        let a = self.value;
        let b = other.value;
        if a >= b {
            proof {
                lemma_small_mod((a - b) as nat, modulus() as nat);
            }
            Felt { value: a - b }
        } else {
            proof {
                lemma_fundamental_div_mod_converse(a - b, modulus(), -1, a + (MODULUS - b));
            }
            Felt { value: a + (MODULUS - b) }
        }
    }

    /// Field multiplication, by doubling and adding over the bits of `other`.
    pub fn mul(self, other: Felt) -> (r: Felt)
        ensures
            r@ == fmul(self@, other@),
            r@ == (self@ * other@) % modulus(),
            0 <= r@ < modulus(),
    {
        proof {
            use_type_invariant(&self);
            use_type_invariant(&other);
        }
        let mut result = Felt::zero();
        let mut acc = self;
        let mut x: u128 = other.value;
        while x > 0
            invariant
                (result@ + acc@ * x) % modulus() == (self@ * other@) % modulus(),
            decreases x,
        {
            let ghost old_result = result@;
            let ghost old_acc = acc@;
            let ghost old_x = x as int;
            if x % 2 == 1 {
                result = result.add(acc);
            }
            acc = acc.add(acc);
            x = x / 2;
            proof {
                lemma_mul_step(old_result, old_acc, old_x, result@, acc@, x as int);
            }
        }
        proof {
            use_type_invariant(&result);
            assert(result@ + acc@ * 0 == result@) by (nonlinear_arith);
            lemma_small_mod(result@ as nat, modulus() as nat);
        }
        result
    }
}

/// The identities of the field's units on canonical values.
pub proof fn lemma_unit_identities(x: int)
    requires
        0 <= x < modulus(),
    ensures
        fmul(1, x) == x,
        fmul(x, 1) == x,
        fmul(0, x) == 0,
        fmul(x, 0) == 0,
        fadd(x, 0) == x,
        fadd(0, x) == x,
        fsub(x, 0) == x,
        fsub(x, x) == 0,
        fsub(1, 0) == 1,
        fsub(1, 1) == 0,
{
    lemma_small_mod(x as nat, modulus() as nat);
    lemma_small_mod(1, modulus() as nat);
    lemma_small_mod(0, modulus() as nat);
    lemma_mul_basics(x);
}

/// Two canonical values whose difference is zero in the field are equal.
pub proof fn lemma_sub_zero_equal(x: int, y: int)
    requires
        0 <= x < modulus(),
        0 <= y < modulus(),
        fsub(x, y) == 0,
    ensures
        x == y,
{
    if x >= y {
        lemma_small_mod((x - y) as nat, modulus() as nat);
    } else {
        lemma_fundamental_div_mod_converse(x - y, modulus(), -1, x - y + modulus());
    }
}

/// Every field operation gives a canonical value.
pub proof fn lemma_ops_canonical(a: int, b: int)
    ensures
        0 <= fadd(a, b) < modulus(),
        0 <= fsub(a, b) < modulus(),
        0 <= fmul(a, b) < modulus(),
{
    lemma_mod_bound(a + b, modulus());
    lemma_mod_bound(a - b, modulus());
    lemma_mod_bound(a * b, modulus());
}

/// One doubling step keeps `(result + acc * x) mod p` unchanged.
proof fn lemma_mul_step(r0: int, a0: int, x0: int, r1: int, a1: int, x1: int)
    requires
        x0 >= 0,
        x1 == x0 / 2,
        x0 % 2 == 1 ==> r1 == (r0 + a0) % modulus(),
        x0 % 2 != 1 ==> r1 == r0,
        a1 == (a0 + a0) % modulus(),
    ensures
        (r1 + a1 * x1) % modulus() == (r0 + a0 * x0) % modulus(),
{
    let m = modulus();
    let bit = x0 % 2;
    lemma_fundamental_div_mod(x0, 2);
    // r0 + a0 * x0 == (r0 + bit * a0) + (2 * a0) * x1
    assert(a0 * x0 == a0 * (2 * x1 + bit)) by {
        assert(x0 == 2 * x1 + bit);
    }
    lemma_mul_is_distributive_add(a0, 2 * x1, bit);
    lemma_mul_is_associative(a0, 2, x1);
    let s = r0 + bit * a0;
    assert(r0 + a0 * x0 == s + (a0 + a0) * x1) by {
        lemma_mul_is_commutative(a0, bit);
        assert(a0 * 2 == a0 + a0);
    }
    // reduce the doubled accumulator
    lemma_mul_mod_noop_left(a0 + a0, x1, m);
    lemma_add_mod_noop(s, (a0 + a0) * x1, m);
    lemma_add_mod_noop(s, a1 * x1, m);
    assert(((a0 + a0) * x1) % m == (a1 * x1) % m) by {
        lemma_mul_mod_noop_left(a1, x1, m);
        lemma_mod_twice(a0 + a0, m);
    }
    // reduce the result
    if bit == 1 {
        assert(s == r0 + a0) by {
            lemma_mul_basics(a0);
        }
        lemma_add_mod_noop(r1, a1 * x1, m);
        lemma_add_mod_noop(s, a1 * x1, m);
        lemma_mod_twice(s, m);
    } else {
        assert(bit == 0);
        assert(s == r0) by {
            lemma_mul_basics(a0);
        }
    }
}

} // verus!
