use checkpoint_ts::dashboard::{CheckpointMessage, CheckpointPayload, DashboardState, FunctionStatus, TimelineFunction};
use checkpoint_ts::panels::{
    count_lines, detail_body, edit_verdict, file_display, log_tone, shows_throbber, skip_verdict, status_symbol,
    timeline_row, HeaderTone, LogTone, Verdict,
};

fn call(status: FunctionStatus) -> TimelineFunction {
    TimelineFunction {
        name: "fetch".to_string(),
        status,
        duration: Some("3ms".to_string()),
        checkpoint_id: 1,
        return_preview: Some("x".repeat(60)),
        return_type: None,
        return_value: None,
        error_preview: Some("boom".to_string()),
        is_promoted: true,
        stack_depth: 2,
    }
}

#[test]
fn timeline_rows_show_the_call() {
    let r = timeline_row(&call(FunctionStatus::Completed));
    assert_eq!(r.mark, "✓ ");
    assert_eq!(r.label, "    fetch");
    assert_eq!(r.badge, " (async*)");
    assert_eq!(r.duration, " (3ms)");
    assert_eq!(r.outcome, format!(" → {}…", "x".repeat(50)));
    let f = timeline_row(&call(FunctionStatus::Failed));
    assert_eq!(f.mark, "✗ ");
    assert_eq!(f.outcome, " ⚠ boom");
    let p = timeline_row(&call(FunctionStatus::Pending));
    assert_eq!(p.outcome, "");
    assert_eq!(status_symbol(FunctionStatus::Skipped), "⊘");
    assert_eq!(status_symbol(FunctionStatus::Current), "►");
}

#[test]
fn log_tones() {
    assert_eq!(log_tone("[12:00:00] ERROR: x"), LogTone::Error);
    assert_eq!(log_tone("a warning"), LogTone::Warning);
    assert_eq!(log_tone("→ Sending"), LogTone::Traffic);
    assert_eq!(log_tone("Checkpoint: f"), LogTone::Checkpoint);
    assert_eq!(log_tone("hello"), LogTone::Plain);
}

#[test]
fn header_texts() {
    assert_eq!(file_display(&Some("\"a b.ts\"".to_string())), "a b.ts");
    assert_eq!(file_display(&Some("\"\"".to_string())), "");
    assert_eq!(file_display(&None), "No file");
    assert!(shows_throbber("Loading"));
    assert!(!shows_throbber("Paused"));
    let mut d = DashboardState::new();
    assert_eq!(d.status_display(), "Unknown");
    assert_eq!(d.header_tone(), HeaderTone::Normal);
    d.handle_checkpoint_message(CheckpointMessage {
        kind: None,
        id: Some(1),
        payload: Some(CheckpointPayload {
            function_name: Some("f".to_string()),
            args: None,
            context: None,
            stack_depth: None,
            caller_name: None,
            status: None,
            duration: String::new(),
            return_preview: None,
            return_type: None,
            return_value: None,
            error_preview: None,
        }),
    });
    assert_eq!(d.status_display(), "⏸ Paused (1 queued)");
    assert_eq!(d.header_tone(), HeaderTone::Paused);
    assert_eq!(d.checkpoint_summary(30), "Function: f()  Queue: 1\nCalled by: <root>Stack depth: 0");
}

#[test]
fn windows_fit_the_panels() {
    let mut d = DashboardState::new();
    assert_eq!(d.log_window(5), (0, 1));
    assert_eq!(d.log_visible_height, 5);
    assert_eq!(d.timeline_window(4), (0, 0));
}

#[test]
fn detail_text_and_lines() {
    let body = detail_body(7, "[\n  1\n]", &Some("ctx".to_string()));
    assert_eq!(body, "ID: 7\n\nArgs:\n[\n  1\n]\n\nContext: ctx");
    assert_eq!(count_lines(&body), body.lines().count());
    for s in ["", "\n", "a\n", "a\nb", "a\n\nb\n", "\n\n"] {
        assert_eq!(count_lines(s), s.lines().count(), "text {:?}", s);
    }
}

#[test]
fn popup_verdicts() {
    assert_eq!(skip_verdict("  "), ("→ Will skip with: null".to_string(), Verdict::Neutral));
    assert_eq!(skip_verdict("{\"a\":1}"), ("✓ Valid JSON".to_string(), Verdict::Good));
    assert_eq!(skip_verdict("{").1, Verdict::Bad);
    assert!(skip_verdict("{").0.starts_with("✗ "));
    assert_eq!(edit_verdict(""), ("✗ Args cannot be empty".to_string(), Verdict::Bad));
    assert_eq!(edit_verdict("[1, 2, 3]"), ("✓ Valid JSON array (3 args)".to_string(), Verdict::Good));
    assert_eq!(edit_verdict("7"), ("✗ Args must be a JSON array".to_string(), Verdict::Bad));
}
