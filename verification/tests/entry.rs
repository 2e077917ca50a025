use checkpoint_ts::entry::{find_entry_file, EntryError, EntryQuery, EntrySearch, PathKind};
use std::collections::HashMap;

struct Fs {
    kinds: HashMap<String, PathKind>,
    files: HashMap<String, Result<String, String>>,
}

fn run(mut s: EntrySearch, fs: &Fs) -> Result<String, EntryError> {
    for _ in 0..8 {
        match s.query() {
            Some(EntryQuery::Kind(p)) => {
                let k = fs.kinds.get(&p).copied().unwrap_or(PathKind::Missing);
                s.answer_kind(k);
            }
            Some(EntryQuery::Read(p)) => {
                let t = fs.files.get(&p).cloned().unwrap_or(Err("missing".to_string()));
                s.answer_text(t);
            }
            None => break,
        }
    }
    s.outcome().expect("the search ends within eight answers")
}

fn fs(kinds: &[(&str, PathKind)], files: &[(&str, Result<&str, &str>)]) -> Fs {
    Fs {
        kinds: kinds.iter().map(|(p, k)| (p.to_string(), *k)).collect(),
        files: files.iter().map(|(p, t)| (p.to_string(), t.map(|x| x.to_string()).map_err(|e| e.to_string()))).collect(),
    }
}

#[test]
fn no_path_is_not_found() {
    let r = run(find_entry_file(None), &fs(&[], &[]));
    match r {
        Err(e @ EntryError::PathNotFound(_)) => assert_eq!(e.describe(), "Path does not exist: "),
        other => panic!("unexpected {:?}", other),
    }
}

#[test]
fn a_file_is_its_own_entry() {
    let f = fs(&[("app.ts", PathKind::File)], &[]);
    assert_eq!(run(find_entry_file(Some("app.ts")), &f).unwrap(), "app.ts");
}

#[test]
fn missing_path_is_reported() {
    let r = run(find_entry_file(Some("nope")), &fs(&[], &[]));
    assert!(matches!(r, Err(EntryError::PathNotFound(p)) if p == "nope"));
}

#[test]
fn package_main_wins() {
    let f = fs(
        &[("proj", PathKind::Other), ("proj/package.json", PathKind::File), ("proj/src/main.ts", PathKind::File),
            ("proj/index.ts", PathKind::File)],
        &[("proj/package.json", Ok("{\"main\": \"  src/main.ts \"}"))],
    );
    assert_eq!(run(find_entry_file(Some("proj")), &f).unwrap(), "proj/src/main.ts");
}

#[test]
fn missing_main_falls_back_to_index_files() {
    let f = fs(
        &[("proj", PathKind::Other), ("proj/package.json", PathKind::File), ("proj/main.js", PathKind::File)],
        &[("proj/package.json", Ok("{\"main\": \"gone.ts\"}"))],
    );
    assert_eq!(run(find_entry_file(Some("proj")), &f).unwrap(), "proj/main.js");
}

#[test]
fn invalid_package_json_is_reported() {
    let f = fs(
        &[("proj", PathKind::Other), ("proj/package.json", PathKind::File)],
        &[("proj/package.json", Ok("{not json"))],
    );
    let r = run(find_entry_file(Some("proj")), &f);
    match r {
        Err(e @ EntryError::InvalidPackageJson) => assert_eq!(e.describe(), "Invalid package.json format"),
        other => panic!("unexpected {:?}", other),
    }
}

#[test]
fn unreadable_package_json_is_reported() {
    let f = fs(
        &[("proj", PathKind::Other), ("proj/package.json", PathKind::File)],
        &[("proj/package.json", Err("permission denied"))],
    );
    let r = run(find_entry_file(Some("proj")), &f);
    match r {
        Err(e @ EntryError::PackageJsonReadError(_)) => {
            assert_eq!(e.describe(), "Cannot read package.json: permission denied")
        }
        other => panic!("unexpected {:?}", other),
    }
}

#[test]
fn empty_directory_has_no_entry() {
    let f = fs(&[("proj/", PathKind::Other)], &[]);
    let r = run(find_entry_file(Some("proj/")), &f);
    match r {
        Err(e @ EntryError::NoEntryFound(_)) => assert_eq!(
            e.describe(),
            "No entry file found in proj/. Looked for: package.json main, index.ts, index.js, main.ts, main.js"
        ),
        other => panic!("unexpected {:?}", other),
    }
}

#[test]
fn non_string_main_is_ignored() {
    let f = fs(
        &[("p", PathKind::Other), ("p/package.json", PathKind::File), ("p/index.js", PathKind::File)],
        &[("p/package.json", Ok("{\"main\": 3}"))],
    );
    assert_eq!(run(find_entry_file(Some("p")), &f).unwrap(), "p/index.js");
}
