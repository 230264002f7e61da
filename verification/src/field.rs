//! Elements of the BN254 scalar field as plain integers.
//!
//! A [`FieldElement`] holds the canonical representative of a residue class,
//! that is the one integer below the field's order, in four 64-bit limbs with
//! the least significant limb first.

use vstd::prelude::*;

verus! {

/// The order of the BN254 scalar field.
pub open spec fn modulus() -> nat {
    21888242871839275222246405745257275088548364400416034343698204186575808495617nat
}

/// Two to the power 64.
pub open spec fn limb_radix() -> nat {
    0x1_0000_0000_0000_0000nat
}

/// The integer that four limbs stand for, least significant limb first.
pub open spec fn limbs_value(l0: u64, l1: u64, l2: u64, l3: u64) -> nat {
    (l0 as nat) + limb_radix() * ((l1 as nat) + limb_radix() * ((l2 as nat) + limb_radix() * (
    l3 as nat)))
}

/// The least significant limb of the field's order.
pub const MODULUS_LIMB_0: u64 = 0x43e1_f593_f000_0001;

/// The second limb of the field's order.
pub const MODULUS_LIMB_1: u64 = 0x2833_e848_79b9_7091;

/// The third limb of the field's order.
pub const MODULUS_LIMB_2: u64 = 0xb850_45b6_8181_585d;

/// The most significant limb of the field's order.
pub const MODULUS_LIMB_3: u64 = 0x3064_4e72_e131_a029;

/// The limb constants spell the field's order.
pub proof fn lemma_modulus_limbs()
    ensures
        limbs_value(MODULUS_LIMB_0, MODULUS_LIMB_1, MODULUS_LIMB_2, MODULUS_LIMB_3) == modulus(),
{
}

/// Four limbs determine their integer, and the integer its limbs.
pub proof fn lemma_limbs_value_injective(a: [u64; 4], b: [u64; 4])
    requires
        limbs_value(a[0], a[1], a[2], a[3]) == limbs_value(b[0], b[1], b[2], b[3]),
    ensures
        a[0] == b[0],
        a[1] == b[1],
        a[2] == b[2],
        a[3] == b[3],
{
    let r = limb_radix();
    let ha = (a[1] as nat) + r * ((a[2] as nat) + r * (a[3] as nat));
    let hb = (b[1] as nat) + r * ((b[2] as nat) + r * (b[3] as nat));
    assert(a[0] == b[0] && ha == hb) by {
        lemma_radix_split(a[0] as nat, ha, b[0] as nat, hb);
    }
    let ga = (a[2] as nat) + r * (a[3] as nat);
    let gb = (b[2] as nat) + r * (b[3] as nat);
    assert(a[1] == b[1] && ga == gb) by {
        lemma_radix_split(a[1] as nat, ga, b[1] as nat, gb);
    }
    assert(a[2] == b[2] && a[3] == b[3]) by {
        lemma_radix_split(a[2] as nat, a[3] as nat, b[2] as nat, b[3] as nat);
    }
}

/// A number below the radix plus a multiple of the radix splits in one way only.
proof fn lemma_radix_split(lo_a: nat, hi_a: nat, lo_b: nat, hi_b: nat)
    requires
        lo_a < limb_radix(),
        lo_b < limb_radix(),
        lo_a + limb_radix() * hi_a == lo_b + limb_radix() * hi_b,
    ensures
        lo_a == lo_b,
        hi_a == hi_b,
{
    if hi_a < hi_b {
        assert(limb_radix() * hi_b >= limb_radix() * (hi_a + 1)) by (nonlinear_arith)
            requires
                hi_b >= hi_a + 1,
        ;
        assert(limb_radix() * (hi_a + 1) == limb_radix() * hi_a + limb_radix())
            by (nonlinear_arith);
    } else if hi_b < hi_a {
        assert(limb_radix() * hi_a >= limb_radix() * (hi_b + 1)) by (nonlinear_arith)
            requires
                hi_a >= hi_b + 1,
        ;
        assert(limb_radix() * (hi_b + 1) == limb_radix() * hi_b + limb_radix())
            by (nonlinear_arith);
    }
}

/// An element of the BN254 scalar field, kept as the integer below the
/// field's order that represents it.
#[derive(Clone, Copy, Debug, PartialEq, Eq)]
pub struct FieldElement {
    limbs: [u64; 4],
}

impl View for FieldElement {
    type V = nat;

    /// The integer below the order that the element stands for.
    closed spec fn view(&self) -> nat {
        limbs_value(self.limbs[0], self.limbs[1], self.limbs[2], self.limbs[3])
    }
}

impl FieldElement {
    /// Every element is kept below the field's order.
    #[verifier::type_invariant]
    pub open spec fn canonical(self) -> bool {
        self@ < modulus()
    }

    /// The limbs of the element in specifications, least significant first.
    pub closed spec fn spec_limbs(&self) -> [u64; 4] {
        self.limbs
    }

    /// The element of four limbs, least significant first, where they spell
    /// an integer below the order.
    pub fn from_limbs(limbs: [u64; 4]) -> (out: Option<FieldElement>)
        ensures
            out is Some <==> limbs_value(limbs[0], limbs[1], limbs[2], limbs[3]) < modulus(),
            out matches Some(e) ==> e.spec_limbs() == limbs && e@ == limbs_value(
                limbs[0],
                limbs[1],
                limbs[2],
                limbs[3],
            ),
    {
        proof {
            lemma_modulus_limbs();
        }
        let below = if limbs[3] != MODULUS_LIMB_3 {
            limbs[3] < MODULUS_LIMB_3
        } else if limbs[2] != MODULUS_LIMB_2 {
            limbs[2] < MODULUS_LIMB_2
        } else if limbs[1] != MODULUS_LIMB_1 {
            limbs[1] < MODULUS_LIMB_1
        } else {
            limbs[0] < MODULUS_LIMB_0
        };
        assert(below <==> limbs_value(limbs[0], limbs[1], limbs[2], limbs[3]) < modulus()) by {
            lemma_compare_limbs(
                limbs,
                [MODULUS_LIMB_0, MODULUS_LIMB_1, MODULUS_LIMB_2, MODULUS_LIMB_3],
            );
        }
        if below {
            Some(FieldElement { limbs })
        } else {
            None
        }
    }

    /// The element that a 64-bit number stands for.
    pub fn from_u64(value: u64) -> (out: FieldElement)
        ensures
            out@ == value,
    {
        FieldElement { limbs: [value, 0, 0, 0] }
    }

    /// The limbs of the element, least significant first.
    pub fn limbs(&self) -> (out: [u64; 4])
        ensures
            out == self.spec_limbs(),
            limbs_value(out[0], out[1], out[2], out[3]) == self@,
    {
        self.limbs
    }

    /// Whether two elements are the same residue.
    pub fn same(&self, other: &FieldElement) -> (out: bool)
        ensures
            out == (self@ == other@),
    {
        proof {
            if self@ == other@ {
                lemma_limbs_value_injective(self.limbs, other.limbs);
            }
        }
        self.limbs[0] == other.limbs[0] && self.limbs[1] == other.limbs[1] && self.limbs[2]
            == other.limbs[2] && self.limbs[3] == other.limbs[3]
    }
}

/// Limbs compare as their integers do, most significant limb first.
proof fn lemma_compare_limbs(a: [u64; 4], b: [u64; 4])
    ensures
        limbs_value(a[0], a[1], a[2], a[3]) < limbs_value(b[0], b[1], b[2], b[3]) <==> (if a[3]
            != b[3] {
            a[3] < b[3]
        } else if a[2] != b[2] {
            a[2] < b[2]
        } else if a[1] != b[1] {
            a[1] < b[1]
        } else {
            a[0] < b[0]
        }),
{
    let r = limb_radix();
    let ga = (a[2] as nat) + r * (a[3] as nat);
    let gb = (b[2] as nat) + r * (b[3] as nat);
    lemma_compare_step(a[2] as nat, a[3] as nat, b[2] as nat, b[3] as nat);
    let ha = (a[1] as nat) + r * ga;
    let hb = (b[1] as nat) + r * gb;
    lemma_compare_step(a[1] as nat, ga, b[1] as nat, gb);
    lemma_compare_step(a[0] as nat, ha, b[0] as nat, hb);
}

/// One step of a most-significant-first comparison.
proof fn lemma_compare_step(lo_a: nat, hi_a: nat, lo_b: nat, hi_b: nat)
    requires
        lo_a < limb_radix(),
        lo_b < limb_radix(),
    ensures
        lo_a + limb_radix() * hi_a < lo_b + limb_radix() * hi_b <==> (hi_a < hi_b || (hi_a == hi_b
            && lo_a < lo_b)),
        lo_a + limb_radix() * hi_a == lo_b + limb_radix() * hi_b <==> (hi_a == hi_b && lo_a
            == lo_b),
{
    if hi_a < hi_b {
        assert(limb_radix() * hi_b >= limb_radix() * hi_a + limb_radix()) by (nonlinear_arith)
            requires
                hi_b >= hi_a + 1,
        ;
    } else if hi_b < hi_a {
        assert(limb_radix() * hi_a >= limb_radix() * hi_b + limb_radix()) by (nonlinear_arith)
            requires
                hi_a >= hi_b + 1,
        ;
    }
}

} // verus!
