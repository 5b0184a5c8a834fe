use floatkey::encode::{encode_bits, order_key, split_field_bytes};

#[test]
fn concrete_scenario_sorts_numerically() {
    let small: Vec<f64> = vec![-5.12, -3.14, 0.0, 3.14, 5.12];
    let mut small_with_bytes = small
        .iter()
        .map(|&x| (x, encode_bits(x.to_bits())))
        .collect::<Vec<(f64, [u8; 8])>>();
    small_with_bytes.sort_by(|a, b| a.1.cmp(&b.1));
    let by_bytes: Vec<f64> = small_with_bytes.iter().map(|p| p.0).collect();
    assert_eq!(by_bytes, vec![-5.12, -3.14, 0.0, 3.14, 5.12]);
}

#[test]
fn order_preserved_on_pairs() {
    let pairs: Vec<(f64, f64)> = vec![
        (-5.12, -3.14),
        (-3.14, 0.0),
        (0.0, 3.14),
        (3.14, 5.12),
        (1.0e-300, 2.0e-300),
        (-2.0e300, -1.0e300),
        (0.5, 0.5000000000000001),
        (-1.0, 1.0),
    ];
    for (a, b) in pairs {
        assert!(a < b);
        assert!(encode_bits(a.to_bits()) < encode_bits(b.to_bits()));
        assert!(encode_bits(b.to_bits()) > encode_bits(a.to_bits()));
    }
    assert_eq!(encode_bits(3.14f64.to_bits()), encode_bits(3.14f64.to_bits()));
}

#[test]
fn deterministic() {
    for x in [-5.12f64, -0.0, 0.0, 3.14, 1.0e308, 5.0e-324] {
        let first = encode_bits(x.to_bits());
        let second = encode_bits(x.to_bits());
        assert_eq!(first, second);
    }
}

#[test]
fn fixed_width_eight_bytes() {
    for x in [-5.12f64, 0.0, 3.14, 1.0e308] {
        let bytes = encode_bits(x.to_bits());
        assert_eq!(bytes.len(), 8);
    }
}

#[test]
fn sign_separation() {
    let negatives: Vec<f64> = vec![-1.0e308, -5.12, -1.0, -1.0e-300, -5.0e-324];
    let non_negatives: Vec<f64> = vec![0.0, 5.0e-324, 1.0e-300, 1.0, 5.12, 1.0e308];
    for &a in &negatives {
        for &b in &non_negatives {
            assert!(encode_bits(a.to_bits()) < encode_bits(b.to_bits()));
        }
    }
}

#[test]
fn signed_zeros_stay_apart() {
    let pos = encode_bits(0.0f64.to_bits());
    let neg = encode_bits((-0.0f64).to_bits());
    assert_ne!(pos, neg);
    assert!(neg < pos);
    assert_eq!(neg, [0x7F, 0xFF, 0xFF, 0xFF, 0xFF, 0xFF, 0xFF, 0xFF]);
    assert_eq!(pos, [0x80, 0x00, 0x00, 0x00, 0x00, 0x00, 0x00, 0x00]);
}

#[test]
fn order_key_exact_values() {
    assert_eq!(order_key(0.0f64.to_bits()), 0x8000_0000_0000_0000);
    assert_eq!(order_key((-0.0f64).to_bits()), 0x7FFF_FFFF_FFFF_FFFF);
    assert_eq!(order_key(1.0f64.to_bits()), 0xBFF0_0000_0000_0000);
    assert_eq!(order_key((-1.0f64).to_bits()), 0x400F_FFFF_FFFF_FFFF);
}

#[test]
fn encode_exact_bytes() {
    assert_eq!(
        encode_bits(1.0f64.to_bits()),
        [0xBF, 0xF0, 0x00, 0x00, 0x00, 0x00, 0x00, 0x00]
    );
    assert_eq!(
        encode_bits((-1.0f64).to_bits()),
        [0x40, 0x0F, 0xFF, 0xFF, 0xFF, 0xFF, 0xFF, 0xFF]
    );
}

#[test]
fn split_field_exact_bytes() {
    // 1.0 has exponent 0x3FF and an all-zero fraction.
    assert_eq!(
        split_field_bytes(1.0f64.to_bits()),
        [0x03, 0xFF, 0x00, 0x00, 0x00, 0x00, 0x00, 0x00, 0x00]
    );
    // -1.0 is the same pattern with every byte complemented.
    assert_eq!(
        split_field_bytes((-1.0f64).to_bits()),
        [0xFC, 0x00, 0xFF, 0xFF, 0xFF, 0xFF, 0xFF, 0xFF, 0xFF]
    );
}

#[test]
fn split_field_orders_within_one_sign_only() {
    // Within one sign the split-field bytes still sort numerically...
    assert!(split_field_bytes(1.0f64.to_bits()) < split_field_bytes(2.0f64.to_bits()));
    assert!(split_field_bytes((-2.0f64).to_bits()) < split_field_bytes((-1.0f64).to_bits()));
    // ...but across signs the order is inverted: the superseded layout
    // puts negative encodings above non-negative ones.
    assert!(split_field_bytes((-1.0f64).to_bits()) > split_field_bytes(1.0f64.to_bits()));
}
