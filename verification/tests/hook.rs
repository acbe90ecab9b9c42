use backend::compaction::hook::{chain_recovery, CompactionHook, RequestRecovery};
use backend::compaction::pass::CompactionOutcome;
use backend::compaction::turns::CompactionLimits;

fn pruned_outcome() -> CompactionOutcome {
    CompactionOutcome { pruned_results: 1, pruned_chars: 4_000, tokens_before: 9_000, tokens_after: 8_000, ..Default::default() }
}

#[test]
fn a_pressure_pass_speaks_only_when_it_reduced_something() {
    assert_eq!(CompactionHook.name(), "compaction");
    assert_eq!(CompactionHook.pressure_notice(None), None);
    assert_eq!(CompactionHook.pressure_notice(Some(CompactionOutcome::default())), None);
    assert_eq!(
        CompactionHook.pressure_notice(Some(pruned_outcome())).unwrap(),
        "Compacted context before this request: snipped 0 message(s) (-0 chars), pruned 1 tool result(s) (-4000 chars), summarized 0 message(s); estimated 9000 -> 8000 tokens"
    );
}

#[test]
fn an_overflow_is_retried_only_after_progress() {
    assert_eq!(CompactionHook.overflow_recovery(None), RequestRecovery::Propagate);
    assert_eq!(CompactionHook.overflow_recovery(Some(CompactionOutcome::default())), RequestRecovery::Propagate);
    match CompactionHook.overflow_recovery(Some(pruned_outcome())) {
        RequestRecovery::Retry { reason } => {
            assert!(reason.starts_with("The request exceeded the model's context window, so history was compacted and the request retried: snipped 0"));
            assert!(reason.ends_with("estimated 9000 -> 8000 tokens"));
        },
        RequestRecovery::Propagate => panic!("a pass that made progress should retry"),
    }
}

#[test]
fn an_undeclared_window_takes_the_estimate_as_its_ceiling() {
    assert_eq!(CompactionHook.overflow_limits(Some(CompactionLimits { usable_tokens: 500 }), 9_000).usable_tokens, 500);
    assert_eq!(CompactionHook.overflow_limits(None, 9_000).usable_tokens, 9_000);
    assert_eq!(CompactionHook.overflow_limits(None, 0).usable_tokens, 1);
}

#[test]
fn the_first_retry_in_a_chain_wins_and_later_hooks_are_not_asked() {
    let retry = |reason: &str| RequestRecovery::Retry { reason: reason.to_string() };
    assert_eq!(chain_recovery(&[]), (RequestRecovery::Propagate, 0));
    assert_eq!(
        chain_recovery(&[RequestRecovery::Propagate, RequestRecovery::Propagate]),
        (RequestRecovery::Propagate, 2)
    );
    assert_eq!(
        chain_recovery(&[RequestRecovery::Propagate, retry("first"), retry("second")]),
        (retry("first"), 2)
    );
}

