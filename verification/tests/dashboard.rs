use checkpoint_ts::dashboard::{
    CheckpointEffect, CheckpointMessage, CheckpointPayload, DashboardState, FocusedPanel, FunctionStatus,
    ResponseAction, StatusMessage, LOG_CAPACITY,
};

fn payload(name: &str, args: &str) -> CheckpointPayload {
    CheckpointPayload {
        function_name: Some(name.to_string()),
        args: Some(args.to_string()),
        context: None,
        stack_depth: Some(1),
        caller_name: Some("main".to_string()),
        status: None,
        duration: String::new(),
        return_preview: None,
        return_type: None,
        return_value: None,
        error_preview: None,
    }
}

fn pause(d: &mut DashboardState, id: u64, name: &str) -> CheckpointEffect {
    d.handle_checkpoint_message(CheckpointMessage {
        kind: Some("checkpoint".to_string()),
        id: Some(id),
        payload: Some(payload(name, "[1,2]")),
    })
}

fn two_digits_below(d: &[char], bound: u32) -> bool {
    d.len() == 2
        && d[0].is_ascii_digit()
        && d[1].is_ascii_digit()
        && d[0].to_digit(10).unwrap() * 10 + d[1].to_digit(10).unwrap() < bound
}

fn is_log_line(line: &str, msg: &str) -> bool {
    let chars: Vec<char> = line.chars().collect();
    chars.len() == msg.chars().count() + 11
        && chars[0] == '['
        && two_digits_below(&chars[1..3], 24)
        && chars[3] == ':'
        && two_digits_below(&chars[4..6], 60)
        && chars[6] == ':'
        && two_digits_below(&chars[7..9], 60)
        && chars[9] == ']'
        && chars[10] == ' '
        && chars[11..].iter().collect::<String>() == msg
}

#[test]
fn new_dashboard_starts_with_one_line() {
    let d = DashboardState::new();
    assert_eq!(d.logs, vec!["System initialized".to_string()]);
    assert_eq!(d.focused_panel, FocusedPanel::Logs);
    assert!(!d.paused);
    assert!(d.pending_checkpoints.is_empty());
}

#[test]
fn log_panel_keeps_its_capacity() {
    let mut d = DashboardState::new();
    for i in 0..250 {
        d.add_log(format!("line {}", i));
        assert!(d.logs.len() <= LOG_CAPACITY);
    }
    assert_eq!(d.logs.len(), LOG_CAPACITY);
    assert!(is_log_line(d.logs.last().unwrap(), "line 249"));
    assert!(is_log_line(&d.logs[0], "line 150"));
    assert_eq!(d.log_scroll_offset, LOG_CAPACITY - d.log_visible_height);
}

#[test]
fn logging_many_lines_at_once_keeps_the_last() {
    let mut d = DashboardState::new();
    d.add_log("first".to_string());
    let msgs: Vec<String> = (0..150).map(|i| format!("batch {}", i)).collect();
    d.add_logs(msgs);
    assert_eq!(d.logs.len(), LOG_CAPACITY);
    assert!(is_log_line(&d.logs[0], "batch 50"));
    assert!(is_log_line(d.logs.last().unwrap(), "batch 149"));
}

#[test]
fn toggling_focus_twice_restores_it() {
    let mut d = DashboardState::new();
    d.toggle_focus();
    assert_eq!(d.focused_panel, FocusedPanel::Timeline);
    d.toggle_focus();
    assert_eq!(d.focused_panel, FocusedPanel::Logs);
}

#[test]
fn pause_queues_and_logs() {
    let mut d = DashboardState::new();
    let e = pause(&mut d, 7, "fetchUser");
    assert!(matches!(e, CheckpointEffect::Paused));
    assert_eq!(d.pending_checkpoints.len(), 1);
    assert_eq!(d.pending_checkpoints[0].id, 7);
    assert_eq!(d.pending_checkpoints[0].args, "[1,2]");
    assert!(d.paused);
    assert_eq!(d.status, "Paused");
    assert_eq!(d.timeline_functions.len(), 1);
    assert_eq!(d.timeline_functions[0].status, FunctionStatus::Pending);
    assert!(is_log_line(d.logs.last().unwrap(), "Checkpoint: fetchUser"));
}

#[test]
fn oldest_checkpoint_is_answered_first() {
    let mut d = DashboardState::new();
    d.app_load_sent();
    pause(&mut d, 1, "first");
    pause(&mut d, 2, "second");
    let r = d.continue_execution().expect("an answer");
    assert_eq!(r.id, 1);
    assert_eq!(r.function_name, "first");
    assert!(matches!(r.action, ResponseAction::Continue));
    assert_eq!(d.pending_checkpoints.len(), 1);
    assert_eq!(d.pending_checkpoints[0].id, 2);
}

#[test]
fn continue_without_runtime_gives_no_answer() {
    let mut d = DashboardState::new();
    pause(&mut d, 3, "f");
    assert!(d.continue_execution().is_none());
    assert!(d.pending_checkpoints.is_empty());
}

#[test]
fn continue_with_nothing_waiting_changes_nothing() {
    let mut d = DashboardState::new();
    let before = d.logs.clone();
    assert!(d.continue_execution().is_none());
    assert_eq!(d.logs, before);
}

#[test]
fn skip_with_empty_text_skips_with_null() {
    let mut d = DashboardState::new();
    d.app_load_sent();
    pause(&mut d, 4, "g");
    d.show_skip_popup = true;
    let r = d.skip_with_textarea_value("   ").expect("an answer");
    match r.action {
        ResponseAction::Skip(v) => assert_eq!(v, "null"),
        _ => panic!("expected a skip"),
    }
    assert!(!d.show_skip_popup);
}

#[test]
fn skip_with_invalid_json_is_refused() {
    let mut d = DashboardState::new();
    d.app_load_sent();
    pause(&mut d, 5, "h");
    d.show_skip_popup = true;
    assert!(d.skip_with_textarea_value("{oops").is_none());
    assert!(d.show_skip_popup);
    assert_eq!(d.pending_checkpoints.len(), 1);
    assert!(d.logs.last().unwrap().contains("ERROR: Invalid JSON, skip aborted: "));
}

#[test]
fn edited_args_must_be_an_array() {
    let mut d = DashboardState::new();
    d.app_load_sent();
    pause(&mut d, 6, "k");
    d.show_edit_popup = true;
    assert!(d.submit_edited_args("").is_none());
    assert!(d.logs.last().unwrap().ends_with("ERROR: Args cannot be empty"));
    assert!(d.submit_edited_args("{\"a\":1}").is_none());
    assert!(d.logs.last().unwrap().ends_with("ERROR: Args must be a JSON array"));
    let r = d.submit_edited_args(" [3, 4] ").expect("an answer");
    match r.action {
        ResponseAction::ContinueWithArgs(a) => assert_eq!(a, "[3, 4]"),
        _ => panic!("expected new arguments"),
    }
    assert!(!d.show_edit_popup);
}

#[test]
fn sent_skip_marks_the_timeline() {
    let mut d = DashboardState::new();
    d.app_load_sent();
    pause(&mut d, 8, "slow");
    let r = d.skip_function("42".to_string()).expect("an answer");
    d.response_sent(r, Ok(()));
    assert_eq!(d.timeline_functions[0].status, FunctionStatus::Skipped);
    assert!(is_log_line(d.logs.last().unwrap(), "⊘ slow skipped"));
    assert!(!d.paused);
    assert_eq!(d.status, "Running");
}

#[test]
fn failed_send_is_logged() {
    let mut d = DashboardState::new();
    d.app_load_sent();
    pause(&mut d, 9, "f");
    let r = d.continue_execution().unwrap();
    d.response_sent(r, Err("broken pipe".to_string()));
    assert!(is_log_line(d.logs.last().unwrap(), "ERROR: Failed to send continue: broken pipe"));
}

#[test]
fn completion_records_the_return() {
    let mut d = DashboardState::new();
    d.app_load_sent();
    pause(&mut d, 10, "calc");
    let r = d.continue_execution().unwrap();
    d.response_sent(r, Ok(()));
    let mut p = payload("calc", "[]");
    p.status = Some("ok".to_string());
    p.duration = "12.0ms".to_string();
    p.return_preview = Some("42".to_string());
    let e = d.handle_checkpoint_complete(10, p);
    assert!(matches!(e, CheckpointEffect::Completed { record_profile: true }));
    assert_eq!(d.timeline_functions[0].status, FunctionStatus::Completed);
    assert_eq!(d.timeline_functions[0].duration.as_deref(), Some("12.0ms"));
    assert!(is_log_line(d.logs.last().unwrap(), "← calc returned 42"));
}

#[test]
fn version_status_sets_the_runtime() {
    let mut d = DashboardState::new();
    d.handle_status_message(StatusMessage {
        log: None,
        kind: Some("version".to_string()),
        version: Some("Bun 1.2".to_string()),
        message: None,
    });
    assert_eq!(d.runtime, "Bun 1.2");
}

#[test]
fn scrolling_stays_within_the_timeline() {
    let mut d = DashboardState::new();
    for i in 0..15 {
        pause(&mut d, i, "f");
    }
    d.timeline_scroll_offset = 0;
    for _ in 0..40 {
        d.scroll_timeline_down();
    }
    assert_eq!(d.timeline_scroll_offset, 15 - d.timeline_visible_height);
    for _ in 0..40 {
        d.scroll_timeline_up();
    }
    assert_eq!(d.timeline_scroll_offset, 0);
}
