use floatkey::encode::encode_bits;

#[test]
fn random_samples_sort_identically() {
    let trials = 100;
    let samples = 1000;
    for _ in 0..trials {
        let rand_vec = (0..samples)
            .map(|_| {
                let f = rand::random::<f64>();
                (f, encode_bits(f.to_bits()))
            })
            .collect::<Vec<(f64, [u8; 8])>>();

        let mut by_value = rand_vec.clone();
        let mut by_bytes = rand_vec.clone();
        by_value.sort_by(|a, b| a.0.partial_cmp(&b.0).unwrap());
        by_bytes.sort_by(|a, b| a.1.cmp(&b.1));
        assert_eq!(by_value, by_bytes);
    }
}
