use backend::group::tools::{is_context_overflow, StepFailure};

fn overflow_error() -> StepFailure {
    StepFailure::ProviderHttp {
        status: 400,
        body: r#"{"error":{"message":"This model's maximum context length is 128000 tokens","code":"context_length_exceeded"}}"#.to_string(),
    }
}

#[test]
fn only_a_context_overflow_body_counts_as_one() {
    assert!(is_context_overflow(&overflow_error()));
    assert!(!is_context_overflow(&StepFailure::Other { message: "connection reset".to_string() }));
    assert!(!is_context_overflow(&StepFailure::ProviderHttp { status: 400, body: "invalid tool schema".to_string() }));
    assert!(!is_context_overflow(&StepFailure::ProviderHttp { status: 500, body: "maximum context length".to_string() }));
}
