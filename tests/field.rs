use p3_baby_bear::BabyBear;
use p3_field::extension::BinomialExtensionField;
use p3_field::{BasedVectorSpace, PrimeCharacteristicRing, PrimeField32};
use verify::{unflatten_extension, ExtFelt, Felt, P};

type Ef = BinomialExtensionField<BabyBear, 4>;

fn ext(c: [u32; 4]) -> ExtFelt {
    ExtFelt { c0: Felt::new(c[0]), c1: Felt::new(c[1]), c2: Felt::new(c[2]), c3: Felt::new(c[3]) }
}

fn to_p3(a: ExtFelt) -> Ef {
    Ef::new([a.c0, a.c1, a.c2, a.c3].map(|c| BabyBear::new(c.val)))
}

fn from_p3(x: Ef) -> ExtFelt {
    let c: &[BabyBear] = x.as_basis_coefficients_slice();
    ext([c[0].as_canonical_u32(), c[1].as_canonical_u32(), c[2].as_canonical_u32(), c[3].as_canonical_u32()])
}

fn samples() -> Vec<ExtFelt> {
    vec![
        ext([0, 0, 0, 0]),
        ext([1, 0, 0, 0]),
        ext([0, 1, 0, 0]),
        ext([P - 1, P - 2, 3, 7]),
        ext([123456789, 987654321, 55555, 2000000000]),
        ExtFelt { c0: Felt { val: u32::MAX }, c1: Felt { val: P }, c2: Felt { val: 5 }, c3: Felt { val: P + 1 } },
    ]
}

#[test]
fn base_field_arithmetic() {
    let a = Felt::new(P - 1);
    let b = Felt::new(5);
    assert_eq!(a.add(b), Felt::new(4));
    assert_eq!(b.sub(a), Felt::new(6));
    assert_eq!(a.mul(a), Felt::one());
    assert_eq!(Felt::new(P + 3).as_canonical_u32(), 3);
    assert_eq!(Felt { val: u32::MAX }.mul(Felt::new(2)).val, ((u32::MAX as u64 % P as u64) * 2 % P as u64) as u32);
}

#[test]
fn extension_arithmetic_matches_p3() {
    for a in samples() {
        for b in samples() {
            assert_eq!(a.add(b), from_p3(to_p3(a) + to_p3(b)));
            assert_eq!(a.sub(b), from_p3(to_p3(a) - to_p3(b)));
            assert_eq!(a.mul(b), from_p3(to_p3(a) * to_p3(b)));
        }
    }
}

#[test]
fn x_to_the_fourth_is_w() {
    let x = ExtFelt::monomial(1);
    assert_eq!(x.exp_u64(4), ext([11, 0, 0, 0]));
    assert_eq!(x.mul(x), ExtFelt::monomial(2));
}

#[test]
fn exponentiation_matches_p3() {
    for a in samples() {
        for e in [0u64, 1, 2, 3, 10, 1 << 27, u64::MAX] {
            assert_eq!(a.exp_u64(e), from_p3(to_p3(a).exp_u64(e)));
        }
        for k in [0usize, 1, 5, 27] {
            assert_eq!(a.exp_power_of_2(k), from_p3(to_p3(a).exp_power_of_2(k)));
        }
    }
}

#[test]
fn inverse() {
    assert_eq!(ExtFelt::zero().try_inverse(), None);
    assert_eq!(ext([P, 0, 0, 0]).try_inverse(), None);
    for a in samples().into_iter().skip(2) {
        let inv = a.try_inverse().unwrap();
        assert_ne!(inv, a.canonical());
        assert_eq!(a.mul(inv), ExtFelt::one());
    }
    assert_eq!(ext([2, 0, 0, 0]).try_inverse(), Some(ext([(P + 1) / 2, 0, 0, 0])));
}

#[test]
fn unflatten_round_trip() {
    for a in samples() {
        let bases = [a.c0, a.c1, a.c2, a.c3].map(ExtFelt::from_base);
        assert_eq!(unflatten_extension(&bases), a.canonical());
    }
    let x = ext([1, 2, 3, 4]);
    let bases = [x, ExtFelt::zero(), ExtFelt::zero(), ExtFelt::one()];
    assert_eq!(unflatten_extension(&bases), x.add(ExtFelt::monomial(3)));
}

#[test]
fn from_base_slice_and_monomials() {
    let s = [Felt::new(1), Felt::new(2), Felt::new(3), Felt::new(P + 4)];
    assert_eq!(ExtFelt::from_base_slice(&s), ext([1, 2, 3, 4]));
    assert_eq!(ExtFelt::monomial(0), ExtFelt::one());
    assert_eq!(ExtFelt::from_base(Felt::new(P + 9)), ext([9, 0, 0, 0]));
    assert!(ext([P - 1, 0, 0, 0]).add(ext([1, 0, 0, 0])).is_zero());
    assert!(!ext([0, 0, 0, 1]).is_zero());
    assert!(ext([P, 0, 0, 0]).is_zero());
    assert_eq!(Ef::ONE, to_p3(ExtFelt::one()));
}
