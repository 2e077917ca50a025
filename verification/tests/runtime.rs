use checkpoint_ts::dashboard::StatusMessage;
use checkpoint_ts::runtime::{load_app_command, runtime_dir, runtime_files, shutdown_command, RuntimeStartup};

fn status(kind: &str) -> StatusMessage {
    StatusMessage { log: None, kind: Some(kind.to_string()), version: None, message: None }
}

#[test]
fn runtime_lies_beside_the_transforms() {
    assert_eq!(runtime_dir("/p/.checkpoint/transforms/main.ts").as_deref(), Some("/p/.checkpoint/runtime"));
    assert!(runtime_dir("main.ts").is_none());
    let (index, log, err) = runtime_files("/r");
    assert_eq!(index, "/r/index.ts");
    assert_eq!(log, "/r/runtime.log");
    assert_eq!(err, "/r/runtime.error.log");
}

#[test]
fn startup_waits_for_the_ready_notice() {
    let mut s = RuntimeStartup::new();
    assert!(s.keep_waiting());
    s.polled(None);
    s.polled(Some(status("log")));
    assert!(s.keep_waiting());
    s.polled(Some(status("runtime_ready")));
    assert!(!s.keep_waiting());
    assert_eq!(s.attempts, 3);
    assert_eq!(s.next_buffered().unwrap().kind.as_deref(), Some("log"));
    assert_eq!(s.next_buffered().unwrap().kind.as_deref(), Some("runtime_ready"));
    assert!(s.next_buffered().is_none());
}

#[test]
fn startup_gives_up_after_twenty_polls() {
    let mut s = RuntimeStartup::new();
    let mut n = 0;
    while s.keep_waiting() {
        s.polled(None);
        n += 1;
    }
    assert_eq!(n, 20);
    assert!(!s.ready);
}

#[test]
fn commands() {
    assert_eq!(load_app_command(), "{\"type\":\"load_app\"}");
    assert_eq!(shutdown_command(), "{\"type\":\"shutdown\"}");
}
