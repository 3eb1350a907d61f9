use tau_runtime_core::options::TokenUsage;

#[test]
fn token_usage_is_copy() {
    let a = TokenUsage { input_tokens: 1, output_tokens: 2, total_tokens: Some(3) };
    let b = a;
    assert_eq!(a, b);
}

#[test]
fn token_usage_add_saturates_and_sums() {
    let mut a = TokenUsage { input_tokens: 10, output_tokens: 5, total_tokens: Some(15) };
    a.add(&TokenUsage { input_tokens: 1, output_tokens: 2, total_tokens: Some(3) });
    assert_eq!(a.input_tokens, 11);
    assert_eq!(a.output_tokens, 7);
    assert_eq!(a.total_tokens, Some(18));
}

#[test]
fn token_usage_default_is_all_zero() {
    let u = TokenUsage::default();
    assert_eq!(u, TokenUsage { input_tokens: 0, output_tokens: 0, total_tokens: None });
}

#[test]
fn token_usage_add_clamps_at_max() {
    let mut a = TokenUsage { input_tokens: u64::MAX - 1, output_tokens: 0, total_tokens: None };
    a.add(&TokenUsage { input_tokens: 5, output_tokens: 1, total_tokens: Some(9) });
    assert_eq!(a.input_tokens, u64::MAX);
    assert_eq!(a.output_tokens, 1);
    assert_eq!(a.total_tokens, Some(9));
}
