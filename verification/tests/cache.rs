use checkpoint_ts::cache::{to_hex_lower, TransformCache};

#[test]
fn hash_is_sha256_hex() {
    assert_eq!(
        TransformCache::compute_hash("abc"),
        "ba7816bf8f01cfea414140de5dae2223b00361a396177a9cb410ff61f20015ad"
    );
    assert_eq!(
        TransformCache::compute_hash(""),
        "e3b0c44298fc1c149afbf4c8996fb92427ae41e4649b934ca495991b7852b855"
    );
}

#[test]
fn hex_is_two_lower_digits_per_byte() {
    assert_eq!(to_hex_lower(&vec![0, 15, 16, 255]), "000f10ff");
}

#[test]
fn cache_reads_what_was_written() {
    let mut c = TransformCache::new();
    c.update("a.ts".to_string(), "h".to_string(), "/o/a.ts".to_string());
    c.update("b.ts".to_string(), "k".to_string(), "/o/b.ts".to_string());
    c.update("a.ts".to_string(), "h2".to_string(), "/o/a2.ts".to_string());
    assert_eq!(c.version, "0.1.0");
    assert!(c.is_cached("a.ts", "h2"));
    assert!(!c.is_cached("a.ts", "h"));
    assert_eq!(c.get_transform_path("a.ts").map(|s| s.as_str()), Some("/o/a2.ts"));
    assert_eq!(c.get_transform_path("b.ts").map(|s| s.as_str()), Some("/o/b.ts"));
    assert!(c.get_transform_path("c.ts").is_none());
    assert_eq!(c.files.len(), 2);
    assert!(!c.files[0].1.last_transform.is_empty());
    for (path, entry) in &c.files {
        let stamp = &entry.last_transform;
        assert!(stamp.ends_with("+00:00"), "{}: {}", path, stamp);
        let t = stamp.find('T').unwrap();
        assert_eq!(t, 10);
        assert_eq!(&stamp[4..5], "-");
        assert_eq!(&stamp[t + 3..t + 4], ":");
        assert_eq!(&stamp[t + 6..t + 7], ":");
        let frac = stamp.len() - 6 - (t + 9);
        assert!([0, 4, 7, 10].contains(&frac), "{}", stamp);
    }
    let paths: Vec<&String> = c.files.iter().map(|(p, _)| p).collect();
    assert_eq!(paths.len(), 2);
    assert_ne!(paths[0], paths[1]);
}

#[test]
fn other_versions_are_dropped() {
    let mut old = TransformCache::new();
    old.update("a.ts".to_string(), "h".to_string(), "/o".to_string());
    old.version = "0.0.9".to_string();
    let c = TransformCache::accept_loaded(old);
    assert!(c.files.is_empty());
    let mut cur = TransformCache::new();
    cur.update("a.ts".to_string(), "h".to_string(), "/o".to_string());
    let d = TransformCache::accept_loaded(cur);
    assert_eq!(d.files.len(), 1);
}
