use checkpoint_ts::workbench::profiler::{tenths_string, PerformanceProfileState};

#[test]
fn workbench_profile_sample_session() {
    let s = PerformanceProfileState::new();
    assert_eq!(s.total_execution_tenths, Some(12));
    assert_eq!(s.function_count, Some(23));
    assert_eq!(s.average, Some(52));
    assert_eq!(s.functions.len(), 9);
    assert_eq!(s.functions[0].name, "connectDB");
    assert_eq!(s.functions[5].name, "calculateTax");
    assert_eq!(s.functions[5].call_count, 12);
    assert_eq!(s.memory_usage.objects_created, 1247);
}

#[test]
fn workbench_profile_text_lines() {
    let s = PerformanceProfileState::new();
    assert_eq!(
        s.stats_line(),
        "Total Execution: 1.2s         Functions: 23         Average: 52ms per function"
    );
    assert_eq!(
        s.memory_line(),
        "Peak: 45.2 MB       Current: 32.1 MB       Objects Created: "
    );
    let mut empty = PerformanceProfileState::new();
    empty.total_execution_tenths = None;
    empty.function_count = None;
    empty.average = None;
    assert_eq!(
        empty.stats_line(),
        "Total Execution: 0.0s         Functions: 0         Average: 0ms per function"
    );
}

#[test]
fn tenths_match_one_decimal_formatting() {
    for t in [0u64, 1, 9, 10, 12, 321, 452, 1000, 123_457] {
        assert_eq!(tenths_string(t), format!("{:.1}", t as f64 / 10.0), "{}", t);
    }
}

#[test]
fn workbench_panels_rank_largest_first() {
    let s = PerformanceProfileState::new();
    let names = |order: Vec<usize>| -> Vec<String> {
        order.into_iter().map(|i| s.functions[i].name.clone()).collect()
    };
    assert_eq!(
        names(s.slowest_first()),
        vec![
            "connectDB", "fetchUser", "processOrder", "calculateTax", "loadConfig",
            "validateInput", "initApp", "formatCurrency", "logEvent"
        ]
    );
    assert_eq!(
        names(s.most_called_first()),
        vec![
            "connectDB", "calculateTax", "fetchUser", "validateInput", "processOrder",
            "formatCurrency", "loadConfig", "logEvent", "initApp"
        ]
    );
}

#[test]
fn workbench_report_actions_change_nothing() {
    let mut s = PerformanceProfileState::new();
    s.save_report();
    s.export_csv();
    assert_eq!(s.functions.len(), 9);
    assert_eq!(s.average, Some(52));
}
