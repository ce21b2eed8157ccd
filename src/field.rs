//! The BabyBear prime field and its degree-four binomial extension
//! `F[X] / (X^4 - 11)`, as plain values.
use p3_baby_bear::BabyBear;
use p3_field::extension::BinomialExtensionField;
use p3_field::{BasedVectorSpace, Field, PrimeField32, TwoAdicField};
use vstd::arithmetic::div_mod::{
    lemma_add_mod_noop, lemma_mod_bound, lemma_mod_twice, lemma_mul_mod_noop_general,
    lemma_sub_mod_noop,
};
use vstd::prelude::*;

verus! {

/// The BabyBear prime `2^31 - 2^27 + 1`.
pub const P: u32 = 0x7800_0001;

/// The binomial coefficient: the extension is `F[X] / (X^4 - W)`.
pub const W: u32 = 11;

/// Degree of the extension over the base field.
pub const D: usize = 4;

/// Largest `k` such that `2^k` divides `P - 1`.
pub const TWO_ADICITY: usize = 27;

/// A base field element. Its value is `val mod P`; the library only produces
/// elements with `val < P`.
#[derive(Clone, Copy, Debug, PartialEq, Eq, Structural)]
pub struct Felt {
    pub val: u32,
}

/// The field value of an element, in `[0, P)`.
pub open spec fn fv(a: Felt) -> int {
    (a.val % P) as int
}

/// The canonical element with the given value.
pub open spec fn felt_of(x: int) -> Felt {
    Felt { val: (x % (P as int)) as u32 }
}

impl Felt {
    /// The element `v mod P`.
    pub fn new(v: u32) -> (r: Felt)
        ensures
            r == felt_of(v as int),
    {
        Felt { val: v % P }
    }

    pub fn zero() -> (r: Felt)
        ensures
            r == felt_of(0),
    {
        Felt { val: 0 }
    }

    pub fn one() -> (r: Felt)
        ensures
            r == felt_of(1),
    {
        Felt { val: 1 }
    }

    /// The canonical representative, in `[0, P)`.
    pub fn as_canonical_u32(self) -> (r: u32)
        ensures
            r == fv(self),
    {
        self.val % P
    }

    pub fn add(self, o: Felt) -> (r: Felt)
        ensures
            r == felt_of(fv(self) + fv(o)),
    {
        let s = (self.val % P) as u64 + (o.val % P) as u64;
        Felt { val: (s % (P as u64)) as u32 }
    }

    pub fn sub(self, o: Felt) -> (r: Felt)
        ensures
            r == felt_of(fv(self) - fv(o)),
    {
        let a = (self.val % P) as u64;
        let b = (o.val % P) as u64;
        let s = a + (P as u64) - b;
        proof {
            lemma_sub_mod_noop(a + P, b as int, P as int);
            assert((a + P - b) % (P as int) == (a - b) % (P as int)) by {
                vstd::arithmetic::div_mod::lemma_mod_add_multiples_vanish(a - b, P as int);
            }
        }
        Felt { val: (s % (P as u64)) as u32 }
    }

    pub fn mul(self, o: Felt) -> (r: Felt)
        ensures
            r == felt_of(fv(self) * fv(o)),
    {
        let a = (self.val % P) as u64;
        let b = (o.val % P) as u64;
        assert(a * b < 0x1_0000_0000_0000_0000) by (nonlinear_arith)
            requires a < 0x8000_0000u64, b < 0x8000_0000u64;
        let s = a * b;
        Felt { val: (s % (P as u64)) as u32 }
    }
}


/// An element `c0 + c1 X + c2 X^2 + c3 X^3` of the extension field.
#[derive(Clone, Copy, Debug, PartialEq, Eq, Structural)]
pub struct ExtFelt {
    pub c0: Felt,
    pub c1: Felt,
    pub c2: Felt,
    pub c3: Felt,
}

/// The canonical extension element with the given coefficients.
pub open spec fn ext_of(x0: int, x1: int, x2: int, x3: int) -> ExtFelt {
    ExtFelt { c0: felt_of(x0), c1: felt_of(x1), c2: felt_of(x2), c3: felt_of(x3) }
}

pub open spec fn ext_zero() -> ExtFelt {
    ext_of(0, 0, 0, 0)
}

pub open spec fn ext_one() -> ExtFelt {
    ext_of(1, 0, 0, 0)
}

/// The canonical form of an element.
pub open spec fn ext_canon(a: ExtFelt) -> ExtFelt {
    ext_of(fv(a.c0), fv(a.c1), fv(a.c2), fv(a.c3))
}

/// Whether an element is zero in the field.
pub open spec fn ext_is_zero(a: ExtFelt) -> bool {
    ext_canon(a) == ext_zero()
}

/// The embedding of the base field.
pub open spec fn ext_from_base(a: Felt) -> ExtFelt {
    ext_of(fv(a), 0, 0, 0)
}

/// The `i`-th basis element `X^i`.
pub open spec fn ext_monomial(i: int) -> ExtFelt {
    ext_of(
        if i == 0 { 1 } else { 0 },
        if i == 1 { 1 } else { 0 },
        if i == 2 { 1 } else { 0 },
        if i == 3 { 1 } else { 0 },
    )
}

pub open spec fn ext_add(a: ExtFelt, b: ExtFelt) -> ExtFelt {
    ext_of(fv(a.c0) + fv(b.c0), fv(a.c1) + fv(b.c1), fv(a.c2) + fv(b.c2), fv(a.c3) + fv(b.c3))
}

pub open spec fn ext_sub(a: ExtFelt, b: ExtFelt) -> ExtFelt {
    ext_of(fv(a.c0) - fv(b.c0), fv(a.c1) - fv(b.c1), fv(a.c2) - fv(b.c2), fv(a.c3) - fv(b.c3))
}

/// Product in `F[X] / (X^4 - W)`.
pub open spec fn ext_mul(a: ExtFelt, b: ExtFelt) -> ExtFelt {
    let (a0, a1, a2, a3) = (fv(a.c0), fv(a.c1), fv(a.c2), fv(a.c3));
    let (b0, b1, b2, b3) = (fv(b.c0), fv(b.c1), fv(b.c2), fv(b.c3));
    let w = W as int;
    ext_of(
        a0 * b0 + w * (a1 * b3 + a2 * b2 + a3 * b1),
        a0 * b1 + a1 * b0 + w * (a2 * b3 + a3 * b2),
        a0 * b2 + a1 * b1 + a2 * b0 + w * (a3 * b3),
        a0 * b3 + a1 * b2 + a2 * b1 + a3 * b0,
    )
}

/// `x^e`, by repeated squaring.
pub open spec fn ext_exp(x: ExtFelt, e: nat) -> ExtFelt
    decreases e,
{
    if e == 0 {
        ext_one()
    } else if e % 2 == 0 {
        ext_exp(ext_mul(x, x), e / 2)
    } else {
        ext_mul(x, ext_exp(ext_mul(x, x), e / 2))
    }
}

/// `x^(2^k)`: `x` squared `k` times.
pub open spec fn ext_exp_power_of_2(x: ExtFelt, k: nat) -> ExtFelt
    decreases k,
{
    if k == 0 {
        ext_canon(x)
    } else {
        let y = ext_exp_power_of_2(x, (k - 1) as nat);
        ext_mul(y, y)
    }
}

/// The inverse of a non-zero element: the canonical `v` with `a * v = 1`,
/// which the field makes unique.
pub open spec fn ext_inverse(a: ExtFelt) -> ExtFelt {
    choose|v: ExtFelt| ext_canon(v) == v && ext_mul(a, v) == ext_one()
}

/// `sum_i X^i * bases[i]`: the element whose coordinates, each taken in the
/// extension, are `bases`.
pub open spec fn ext_unflatten(bases: Seq<ExtFelt>) -> ExtFelt {
    ext_add(
        ext_add(
            ext_add(
                ext_add(ext_zero(), ext_mul(ext_monomial(0), bases[0])),
                ext_mul(ext_monomial(1), bases[1]),
            ),
            ext_mul(ext_monomial(2), bases[2]),
        ),
        ext_mul(ext_monomial(3), bases[3]),
    )
}

/// The element with the base coefficients `s[0..4]`.
pub open spec fn ext_from_base_seq(s: Seq<Felt>) -> ExtFelt {
    ext_of(fv(s[0]), fv(s[1]), fv(s[2]), fv(s[3]))
}

proof fn lemma_fv_felt_of(x: int)
    ensures
        fv(felt_of(x)) == x % (P as int),
        felt_of(x).val < P,
{
    lemma_mod_bound(x, P as int);
    lemma_mod_twice(x, P as int);
}

proof fn lemma_felt_of_mod(x: int)
    ensures
        felt_of(x % (P as int)) == felt_of(x),
{
    lemma_mod_twice(x, P as int);
}

/// `felt_of((x mod P) + (y mod P)) == felt_of(x + y)`, and the same for `*`.
proof fn lemma_felt_of_ops(x: int, y: int)
    ensures
        felt_of(x % (P as int) + y % (P as int)) == felt_of(x + y),
        felt_of((x % (P as int)) * (y % (P as int))) == felt_of(x * y),
{
    lemma_add_mod_noop(x, y, P as int);
    lemma_mul_mod_noop_general(x, y, P as int);
}

proof fn lemma_sum2(u: int, v: int)
    ensures
        felt_of(fv(felt_of(u)) + fv(felt_of(v))) == felt_of(u + v),
{
    lemma_fv_felt_of(u);
    lemma_fv_felt_of(v);
    lemma_felt_of_ops(u, v);
}

proof fn lemma_sum3(u: int, v: int, t: int)
    ensures
        felt_of(fv(felt_of(fv(felt_of(u)) + fv(felt_of(v)))) + fv(felt_of(t))) == felt_of(
            u + v + t,
        ),
{
    lemma_sum2(u, v);
    lemma_sum2(u + v, t);
}

proof fn lemma_sum4(u: int, v: int, t: int, s: int)
    ensures
        felt_of(
            fv(felt_of(fv(felt_of(fv(felt_of(u)) + fv(felt_of(v)))) + fv(felt_of(t)))) + fv(
                felt_of(s),
            ),
        ) == felt_of(u + v + t + s),
{
    lemma_sum3(u, v, t);
    lemma_sum2(u + v + t, s);
}

proof fn lemma_scale(c: int, u: int)
    requires
        0 <= c < P,
    ensures
        felt_of(c * fv(felt_of(u))) == felt_of(c * u),
{
    lemma_fv_felt_of(u);
    lemma_felt_of_ops(c, u);
    vstd::arithmetic::div_mod::lemma_small_mod(c as nat, P as nat);
}

impl ExtFelt {
    pub fn zero() -> (r: ExtFelt)
        ensures
            r == ext_zero(),
    {
        let z = Felt::zero();
        ExtFelt { c0: z, c1: z, c2: z, c3: z }
    }

    pub fn one() -> (r: ExtFelt)
        ensures
            r == ext_one(),
    {
        let z = Felt::zero();
        ExtFelt { c0: Felt::one(), c1: z, c2: z, c3: z }
    }

    /// The embedding of a base field element.
    pub fn from_base(a: Felt) -> (r: ExtFelt)
        ensures
            r == ext_from_base(a),
    {
        let z = Felt::zero();
        ExtFelt { c0: Felt::new(a.val), c1: z, c2: z, c3: z }
    }

    /// The element whose base coefficients are `s`.
    pub fn from_base_slice(s: &[Felt]) -> (r: ExtFelt)
        requires
            s@.len() == D,
        ensures
            r == ext_from_base_seq(s@),
    {
        ExtFelt {
            c0: Felt::new(s[0].val),
            c1: Felt::new(s[1].val),
            c2: Felt::new(s[2].val),
            c3: Felt::new(s[3].val),
        }
    }

    /// The basis element `X^i`.
    pub fn monomial(i: usize) -> (r: ExtFelt)
        requires
            i < D,
        ensures
            r == ext_monomial(i as int),
    {
        let z = Felt::zero();
        let o = Felt::one();
        if i == 0 {
            ExtFelt { c0: o, c1: z, c2: z, c3: z }
        } else if i == 1 {
            ExtFelt { c0: z, c1: o, c2: z, c3: z }
        } else if i == 2 {
            ExtFelt { c0: z, c1: z, c2: o, c3: z }
        } else {
            ExtFelt { c0: z, c1: z, c2: z, c3: o }
        }
    }

    pub fn is_zero(&self) -> (r: bool)
        ensures
            r == ext_is_zero(*self),
    {
        self.c0.val % P == 0 && self.c1.val % P == 0 && self.c2.val % P == 0 && self.c3.val % P
            == 0
    }

    pub fn add(self, o: ExtFelt) -> (r: ExtFelt)
        ensures
            r == ext_add(self, o),
    {
        ExtFelt {
            c0: self.c0.add(o.c0),
            c1: self.c1.add(o.c1),
            c2: self.c2.add(o.c2),
            c3: self.c3.add(o.c3),
        }
    }

    pub fn sub(self, o: ExtFelt) -> (r: ExtFelt)
        ensures
            r == ext_sub(self, o),
    {
        ExtFelt {
            c0: self.c0.sub(o.c0),
            c1: self.c1.sub(o.c1),
            c2: self.c2.sub(o.c2),
            c3: self.c3.sub(o.c3),
        }
    }

    pub fn mul(self, o: ExtFelt) -> (r: ExtFelt)
        ensures
            r == ext_mul(self, o),
    {
        let (a0, a1, a2, a3) = (self.c0, self.c1, self.c2, self.c3);
        let (b0, b1, b2, b3) = (o.c0, o.c1, o.c2, o.c3);
        let w = Felt { val: W };
        let r0 = a0.mul(b0).add(w.mul(a1.mul(b3).add(a2.mul(b2)).add(a3.mul(b1))));
        let r1 = a0.mul(b1).add(a1.mul(b0)).add(w.mul(a2.mul(b3).add(a3.mul(b2))));
        let r2 = a0.mul(b2).add(a1.mul(b1)).add(a2.mul(b0)).add(w.mul(a3.mul(b3)));
        let r3 = a0.mul(b3).add(a1.mul(b2)).add(a2.mul(b1)).add(a3.mul(b0));
        proof {
            let (x0, x1, x2, x3) = (fv(a0), fv(a1), fv(a2), fv(a3));
            let (y0, y1, y2, y3) = (fv(b0), fv(b1), fv(b2), fv(b3));
            let wi = W as int;
            assert(fv(w) == wi);
            lemma_sum3(x1 * y3, x2 * y2, x3 * y1);
            lemma_scale(wi, x1 * y3 + x2 * y2 + x3 * y1);
            lemma_sum2(x0 * y0, wi * (x1 * y3 + x2 * y2 + x3 * y1));
            lemma_sum2(x2 * y3, x3 * y2);
            lemma_scale(wi, x2 * y3 + x3 * y2);
            lemma_sum3(x0 * y1, x1 * y0, wi * (x2 * y3 + x3 * y2));
            lemma_scale(wi, x3 * y3);
            lemma_sum4(x0 * y2, x1 * y1, x2 * y0, wi * (x3 * y3));
            lemma_sum4(x0 * y3, x1 * y2, x2 * y1, x3 * y0);
        }
        ExtFelt { c0: r0, c1: r1, c2: r2, c3: r3 }
    }

    /// The canonical form of this element.
    pub fn canonical(self) -> (r: ExtFelt)
        ensures
            r == ext_canon(self),
    {
        ExtFelt {
            c0: Felt::new(self.c0.val),
            c1: Felt::new(self.c1.val),
            c2: Felt::new(self.c2.val),
            c3: Felt::new(self.c3.val),
        }
    }

    /// `self^e`.
    pub fn exp_u64(self, e: u64) -> (r: ExtFelt)
        ensures
            r == ext_exp(self, e as nat),
        decreases e,
    {
        if e == 0 {
            ExtFelt::one()
        } else {
            let half = self.mul(self).exp_u64(e / 2);
            if e % 2 == 0 {
                half
            } else {
                self.mul(half)
            }
        }
    }

    /// `self^(2^k)`.
    pub fn exp_power_of_2(self, k: usize) -> (r: ExtFelt)
        ensures
            r == ext_exp_power_of_2(self, k as nat),
    {
        let mut res = self.canonical();
        let mut i: usize = 0;
        while i < k
            invariant
                i <= k,
                res == ext_exp_power_of_2(self, i as nat),
            decreases k - i,
        {
            res = res.mul(res);
            i = i + 1;
        }
        res
    }

    /// The inverse, or `None` for zero.
    pub fn try_inverse(self) -> (r: Option<ExtFelt>)
        ensures
            r is None <==> ext_is_zero(self),
            r matches Some(v) ==> v == ext_inverse(self) && ext_mul(self, v) == ext_one(),
    {
        ext_try_inverse(self)
    }
}

/// Relies on p3_field's `Field::try_inverse` for `BinomialExtensionField<BabyBear, 4>`:
/// `None` for zero, otherwise the (unique) multiplicative inverse, read back in
/// canonical form.
#[verifier::external_body]
fn ext_try_inverse(a: ExtFelt) -> (r: Option<ExtFelt>)
    ensures
        r is None <==> ext_is_zero(a),
        r matches Some(v) ==> v == ext_inverse(a) && ext_mul(a, v) == ext_one(),
{
    let coeffs = [a.c0, a.c1, a.c2, a.c3].map(|c| BabyBear::new(c.val));
    let x = BinomialExtensionField::<BabyBear, 4>::new(coeffs);
    x.try_inverse().map(|v| {
        let c: &[BabyBear] = v.as_basis_coefficients_slice();
        let f = |i: usize| Felt { val: c[i].as_canonical_u32() };
        ExtFelt { c0: f(0), c1: f(1), c2: f(2), c3: f(3) }
    })
}

/// The generator of the subgroup of order `2^bits` that BabyBear's table holds.
pub uninterp spec fn two_adic_generator_of(bits: nat) -> u32;

/// Relies on p3's `TwoAdicField::two_adic_generator` for BabyBear: a fixed
/// generator of the multiplicative subgroup of order `2^bits`, which panics
/// when `bits > 27`; read back in canonical form.
#[verifier::external_body]
pub(crate) fn two_adic_generator(bits: usize) -> (r: Felt)
    requires
        bits <= TWO_ADICITY,
    ensures
        r.val == two_adic_generator_of(bits as nat),
        r.val < P,
{
    Felt { val: BabyBear::two_adic_generator(bits).as_canonical_u32() }
}

proof fn lemma_fv_small(x: int)
    requires
        0 <= x < P,
    ensures
        fv(felt_of(x)) == x,
{
    lemma_fv_felt_of(x);
    vstd::arithmetic::div_mod::lemma_small_mod(x as nat, P as nat);
}

/// `X^i` times an embedded base element `c` is `c X^i`.
proof fn lemma_monomial_times_base(i: int, c: Felt)
    requires
        0 <= i < 4,
    ensures
        ext_mul(ext_monomial(i), ext_from_base(c)) == ext_of(
            if i == 0 { fv(c) } else { 0 },
            if i == 1 { fv(c) } else { 0 },
            if i == 2 { fv(c) } else { 0 },
            if i == 3 { fv(c) } else { 0 },
        ),
{
    let x = fv(c);
    lemma_fv_small(0);
    lemma_fv_small(1);
    lemma_mod_bound(c.val as int, P as int);
    lemma_fv_small(x);
    let m = ext_monomial(i);
    let b = ext_from_base(c);
    assert(fv(b.c0) == x && fv(b.c1) == 0 && fv(b.c2) == 0 && fv(b.c3) == 0);
    assert(fv(m.c0) == (if i == 0 { 1int } else { 0 }));
    assert(fv(m.c1) == (if i == 1 { 1int } else { 0 }));
    assert(fv(m.c2) == (if i == 2 { 1int } else { 0 }));
    assert(fv(m.c3) == (if i == 3 { 1int } else { 0 }));
}

/// Adding `y X^k` to an element with no `X^k` term, all in canonical form.
proof fn lemma_add_disjoint(x0: int, x1: int, x2: int, x3: int, y0: int, y1: int, y2: int, y3: int)
    requires
        0 <= x0 < P && 0 <= x1 < P && 0 <= x2 < P && 0 <= x3 < P,
        0 <= y0 < P && 0 <= y1 < P && 0 <= y2 < P && 0 <= y3 < P,
        x0 == 0 || y0 == 0,
        x1 == 0 || y1 == 0,
        x2 == 0 || y2 == 0,
        x3 == 0 || y3 == 0,
    ensures
        ext_add(ext_of(x0, x1, x2, x3), ext_of(y0, y1, y2, y3)) == ext_of(
            x0 + y0,
            x1 + y1,
            x2 + y2,
            x3 + y3,
        ),
{
    lemma_fv_small(x0);
    lemma_fv_small(x1);
    lemma_fv_small(x2);
    lemma_fv_small(x3);
    lemma_fv_small(y0);
    lemma_fv_small(y1);
    lemma_fv_small(y2);
    lemma_fv_small(y3);
}

/// Writing an element's base coefficients out, each embedded in the
/// extension, and rebuilding gives the element back (in canonical form).
pub proof fn lemma_unflatten_round_trip(a: ExtFelt)
    ensures
        ext_unflatten(
            seq![
                ext_from_base(a.c0),
                ext_from_base(a.c1),
                ext_from_base(a.c2),
                ext_from_base(a.c3),
            ],
        ) == ext_canon(a),
{
    let (x0, x1, x2, x3) = (fv(a.c0), fv(a.c1), fv(a.c2), fv(a.c3));
    lemma_mod_bound(a.c0.val as int, P as int);
    lemma_mod_bound(a.c1.val as int, P as int);
    lemma_mod_bound(a.c2.val as int, P as int);
    lemma_mod_bound(a.c3.val as int, P as int);
    let s = seq![
        ext_from_base(a.c0),
        ext_from_base(a.c1),
        ext_from_base(a.c2),
        ext_from_base(a.c3),
    ];
    lemma_monomial_times_base(0, a.c0);
    lemma_monomial_times_base(1, a.c1);
    lemma_monomial_times_base(2, a.c2);
    lemma_monomial_times_base(3, a.c3);
    lemma_add_disjoint(0, 0, 0, 0, x0, 0, 0, 0);
    lemma_add_disjoint(x0, 0, 0, 0, 0, x1, 0, 0);
    lemma_add_disjoint(x0, x1, 0, 0, 0, 0, x2, 0);
    lemma_add_disjoint(x0, x1, x2, 0, 0, 0, 0, x3);
    assert(s[0] == ext_from_base(a.c0) && s[1] == ext_from_base(a.c1));
    assert(s[2] == ext_from_base(a.c2) && s[3] == ext_from_base(a.c3));
}

/// Rebuilds an extension element from its `D` coordinates, each given as an
/// extension element: `sum_i X^i * bases[i]`.
pub fn unflatten_extension(bases: &[ExtFelt]) -> (r: ExtFelt)
    requires
        bases@.len() == D,
    ensures
        r == ext_unflatten(bases@),
{
    let mut acc = ExtFelt::zero();
    acc = acc.add(ExtFelt::monomial(0).mul(bases[0]));
    acc = acc.add(ExtFelt::monomial(1).mul(bases[1]));
    acc = acc.add(ExtFelt::monomial(2).mul(bases[2]));
    acc = acc.add(ExtFelt::monomial(3).mul(bases[3]));
    acc
}

} // verus!
