use checkpoint_ts::history::{
    seconds_string, status_label, CallStatus, ExecutionHistoryState,
};

#[test]
fn fresh_history_holds_the_sample_run() {
    let s = ExecutionHistoryState::new();
    assert_eq!(s.total_functions, 23);
    assert_eq!(s.skipped, 5);
    assert_eq!(s.executed, 18);
    assert_eq!(s.total_time_ms, 1200);
    assert_eq!(s.selected_index, 0);
    assert_eq!(s.function_calls.len(), 8);
    assert_eq!(s.function_calls[0].function, "initApp()");
    assert_eq!(s.function_calls[4].status, CallStatus::Skip);
    assert_eq!(s.function_calls[4].return_value, "true (injected)");
    assert_eq!(s.function_calls[7].status, CallStatus::Pause);
    assert_eq!(s.function_calls[7].duration, "?");
}

#[test]
fn history_summary_line() {
    let s = ExecutionHistoryState::new();
    assert_eq!(
        s.summary(),
        "Total Functions: 23    Skipped: 5    Executed: 18    Total Time: 1.2s"
    );
}

#[test]
fn seconds_are_written_like_a_float() {
    for ms in [0u32, 5, 40, 999, 1000, 1200, 1250, 1205, 61_000, 123_456] {
        let f = ms as f32 / 1000.0;
        assert_eq!(seconds_string(ms), format!("{}", f), "{} ms", ms);
    }
    assert_eq!(seconds_string(5), "0.005");
    assert_eq!(seconds_string(1000), "1");
}

#[test]
fn call_status_labels() {
    assert_eq!(status_label(CallStatus::Exec), "✓ Exec");
    assert_eq!(status_label(CallStatus::Skip), "⊘ Skip");
    assert_eq!(status_label(CallStatus::Pause), "⏸ Pause");
}
