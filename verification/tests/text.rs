use checkpoint_ts::history::{status_label, CallStatus};
use checkpoint_ts::profiler::{average_delta, mem_tone, order_by_keys, order_by_names, MemTone, PerformanceProfileState, SortDirection, SortKey};
use checkpoint_ts::text::{contains, decimal_string, decimal_string_wide, trim, truncate};

#[test]
fn truncate_adds_an_ellipsis() {
    assert_eq!(truncate("hello", 10), "hello");
    assert_eq!(truncate("hello", 5), "hello");
    assert_eq!(truncate("hello world", 5), "hello…");
    assert_eq!(truncate("ünïcödé", 3), "ünï…");
    assert_eq!(truncate("", 0), "");
}

#[test]
fn trim_and_contains() {
    assert_eq!(trim("  a b \n\t"), "a b");
    assert_eq!(trim("\u{3000}x\u{a0}"), "x");
    assert_eq!(trim("   "), "");
    assert!(contains("hello", "ll"));
    assert!(contains("hello", ""));
    assert!(!contains("he", "hello"));
}

#[test]
fn decimals() {
    assert_eq!(decimal_string(0), "0");
    assert_eq!(decimal_string(u64::MAX), u64::MAX.to_string());
    assert_eq!(decimal_string_wide(u128::MAX), u128::MAX.to_string());
}

#[test]
fn order_by_keys_is_a_stable_sort() {
    let keys = vec![3i64, 1, 3, 2];
    assert_eq!(order_by_keys(&keys, SortDirection::Asc), vec![1, 3, 0, 2]);
    assert_eq!(order_by_keys(&keys, SortDirection::Desc), vec![2, 0, 3, 1]);
    let names = vec!["b".to_string(), "a".to_string(), "c".to_string()];
    assert_eq!(order_by_names(&names, SortDirection::Asc), vec![1, 0, 2]);
    assert_eq!(order_by_names(&names, SortDirection::Desc), vec![2, 0, 1]);
    assert!(order_by_keys(&vec![], SortDirection::Desc).is_empty());
}

#[test]
fn memory_deltas() {
    assert_eq!(average_delta(&vec![]), 0);
    assert_eq!(average_delta(&vec![10, 11]), 10);
    assert_eq!(average_delta(&vec![-10, -11]), -10);
    assert_eq!(mem_tone(1025), MemTone::Growth);
    assert_eq!(mem_tone(-1025), MemTone::Release);
    assert_eq!(mem_tone(1024), MemTone::Quiet);
}

#[test]
fn profile_window_and_arrows() {
    let mut p = PerformanceProfileState::new();
    assert_eq!(p.arrow(SortKey::Total), "↓");
    assert_eq!(p.arrow(SortKey::Name), "");
    p.scroll_offset = 50;
    assert_eq!(p.visible_window(10, 4), (6, 10));
    assert_eq!(p.scroll_offset, 6);
    assert_eq!(p.visible_window(10, 20), (6, 10));
    p.scroll_offset = 0;
    assert_eq!(p.visible_window(10, 4), (0, 4));
    assert_eq!(status_label(CallStatus::Pause), "⏸ Pause");
}
