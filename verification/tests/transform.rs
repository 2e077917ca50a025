use checkpoint_ts::cache::TransformCache;
use checkpoint_ts::project::{CheckpointConfig, ProjectContext};
use checkpoint_ts::transform::{
    compute_runtime_import_path, copy_skips, load_promoted_manifest, sort_names, walk_keeps, FileAction,
    PromotedManifest, TransformService,
};

fn service() -> TransformService {
    let ctx = ProjectContext::discover("/work/app".to_string(), CheckpointConfig::new());
    TransformService::new(ctx, TransformCache::new())
}

#[test]
fn runtime_import_climbs_one_level_per_component() {
    assert_eq!(compute_runtime_import_path("index.ts"), "../runtime/checkpoint-runtime");
    assert_eq!(compute_runtime_import_path("src/lib/util.ts"), "../../../runtime/checkpoint-runtime");
}

#[test]
fn sources_are_recognised_by_extension() {
    let s = service();
    assert!(s.is_transformable_extension("a/b.ts"));
    assert!(s.is_transformable_extension("x.jsx"));
    assert!(!s.is_transformable_extension("style.css"));
    assert!(!s.is_transformable_extension(".ts"));
    assert!(!s.is_transformable_extension("README"));
    assert_eq!(s.plan_for("m.tsx"), FileAction::Transform);
    assert_eq!(s.plan_for("logo.png"), FileAction::Copy);
}

#[test]
fn output_and_relative_paths() {
    let s = service();
    assert_eq!(s.output_path_for("src/a.ts"), "/work/app/.checkpoint/transforms/src/a.ts");
    assert_eq!(s.relative_path_of("/work/app/src/a.ts"), "src/a.ts");
    assert_eq!(s.relative_path_of("/elsewhere/b.ts"), "/elsewhere/b.ts");
}

#[test]
fn walk_skips_generated_directories() {
    assert!(!walk_keeps("/p/node_modules"));
    assert!(!walk_keeps("/p/.git"));
    assert!(!walk_keeps(".checkpoint"));
    assert!(walk_keeps("/p/src"));
    assert!(copy_skips("dist"));
    assert!(copy_skips("target"));
    assert!(!copy_skips("index.ts"));
}

#[test]
fn names_sort_by_code_point() {
    let v = sort_names(vec!["b".to_string(), "B".to_string(), "a".to_string(), "ab".to_string()]);
    assert_eq!(v, vec!["B".to_string(), "a".to_string(), "ab".to_string(), "b".to_string()]);
}

#[test]
fn manifest_update_and_collect() {
    let mut m = PromotedManifest::new();
    m.update("a.ts".to_string(), vec!["z".to_string(), "y".to_string()]);
    m.update("b.ts".to_string(), vec!["y".to_string(), "x".to_string()]);
    let mut all = m.all_promoted();
    all.sort();
    assert_eq!(all, vec!["x".to_string(), "y".to_string(), "z".to_string()]);
    m.update("a.ts".to_string(), vec![]);
    let mut rest = load_promoted_manifest(Some(m));
    rest.sort();
    assert_eq!(rest, vec!["x".to_string(), "y".to_string()]);
    assert!(load_promoted_manifest(None).is_empty());
}

#[test]
fn cached_output_needs_the_same_hash() {
    let mut s = service();
    assert!(s.cached_output("a.ts", "h1").is_none());
    s.cache.update("a.ts".to_string(), "h1".to_string(), "/out/a.ts".to_string());
    assert_eq!(s.cached_output("a.ts", "h1").as_deref(), Some("/out/a.ts"));
    assert!(s.cached_output("a.ts", "h2").is_none());
}

#[test]
fn transformed_entry_and_runtime_copy() {
    let ctx = ProjectContext::discover("/w".to_string(), CheckpointConfig::new());
    assert_eq!(ctx.transformed_entry("/w/src/main.ts").as_deref(), Some("/w/.checkpoint/transforms/main.ts"));
    assert!(ctx.transformed_entry("/").is_none());
    assert_eq!(ctx.runtime_copy_dir(), "/w/.checkpoint/runtime");
}
