use checkpoint_ts::entry::PathKind;
use checkpoint_ts::project::{join_path, CheckpointConfig, ProjectContext, RootSearch};

fn climb(mut s: RootSearch, with_package: &[&str], files: &[&str]) -> String {
    for _ in 0..64 {
        match s.query() {
            Some(p) => {
                let kind = if files.contains(&p.as_str()) {
                    PathKind::File
                } else if with_package.iter().any(|d| join_path(d, "package.json") == p) {
                    PathKind::File
                } else if p.ends_with("package.json") {
                    PathKind::Missing
                } else {
                    PathKind::Other
                };
                s.answer(kind);
            }
            None => break,
        }
    }
    s.root().expect("the climb ends")
}

#[test]
fn root_is_the_nearest_package() {
    let s = ProjectContext::find_project_root("/w/app/src/main.ts");
    assert_eq!(climb(s, &["/w/app"], &["/w/app/src/main.ts"]), "/w/app");
}

#[test]
fn without_package_the_start_is_the_root() {
    let s = ProjectContext::find_project_root("/w/app/src/main.ts");
    assert_eq!(climb(s, &[], &["/w/app/src/main.ts"]), "/w/app/src");
}

#[test]
fn a_directory_entry_starts_at_itself() {
    let s = ProjectContext::find_project_root("/w/app");
    assert_eq!(climb(s, &["/w/app", "/w"], &[]), "/w/app");
}

#[test]
fn context_paths() {
    let ctx = ProjectContext::discover("/w/app".to_string(), CheckpointConfig::new());
    assert_eq!(ctx.checkpoint_dir, "/w/app/.checkpoint");
    assert_eq!(ctx.transforms_dir(), "/w/app/.checkpoint/transforms");
    assert!(!ctx.minify_wanted(false));
    assert!(ctx.minify_wanted(true));
    let mut cfg = CheckpointConfig::new();
    cfg.minify = Some(true);
    let ctx2 = ProjectContext::discover("".to_string(), cfg);
    assert_eq!(ctx2.checkpoint_dir, ".checkpoint");
    assert!(ctx2.minify_wanted(false));
    assert_eq!(join_path("/a/", "b"), "/a/b");
    assert_eq!(join_path("/a", "/abs"), "/abs");
}
