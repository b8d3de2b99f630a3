use snark_wrapper_verifier::field::{GoldilocksElement, GL_MODULUS, domain_generator_for_size_log2};
use snark_wrapper_verifier::extension::GoldilocksExtElement;

#[test]
fn base_field_add_wraps() {
    let a = GoldilocksElement::from_u64(GL_MODULUS - 1);
    let b = GoldilocksElement::from_u64(5);
    assert_eq!(a.add(b).value, 4);
}

#[test]
fn base_field_sub_wraps() {
    let a = GoldilocksElement::from_u64(3);
    let b = GoldilocksElement::from_u64(10);
    assert_eq!(a.sub(b).value, GL_MODULUS - 7);
}

#[test]
fn base_field_mul_exact() {
    let a = GoldilocksElement::from_u64(1 << 32);
    let b = GoldilocksElement::from_u64(1 << 32);
    // 2^64 mod (2^64 - 2^32 + 1) == 2^32 - 1
    assert_eq!(a.mul(b).value, (1 << 32) - 1);
}

#[test]
fn base_field_pow_and_inverse() {
    let two = GoldilocksElement::from_u64(2);
    assert_eq!(two.pow(10).value, 1024);
    let inv = two.inverse();
    assert_eq!(two.mul(inv).value, 1);
    let seven = GoldilocksElement::from_u64(7);
    assert_eq!(seven.mul(seven.inverse()).value, 1);
}

#[test]
fn domain_generator_orders() {
    let omega8 = domain_generator_for_size_log2(3);
    assert_eq!(omega8.pow(8).value, 1);
    assert_ne!(omega8.pow(4).value, 1);
    let omega2 = domain_generator_for_size_log2(1);
    // the subgroup of order two is generated by minus one
    assert_eq!(omega2.value, GL_MODULUS - 1);
    let omega1 = domain_generator_for_size_log2(0);
    assert_eq!(omega1.value, 1);
}

#[test]
fn extension_square_of_x_is_non_residue() {
    let x = GoldilocksExtElement::from_coeffs_in_base(
        GoldilocksElement::from_u64(0),
        GoldilocksElement::from_u64(1),
    );
    let sq = x.square();
    assert_eq!(sq.c0.value, 7);
    assert_eq!(sq.c1.value, 0);
}

#[test]
fn extension_inverse_round_trip() {
    let v = GoldilocksExtElement::from_coeffs_in_base(
        GoldilocksElement::from_u64(12345),
        GoldilocksElement::from_u64(678),
    );
    let product = v.mul(v.inverse());
    assert_eq!(product.c0.value, 1);
    assert_eq!(product.c1.value, 0);
}
