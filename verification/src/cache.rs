//! The transform cache: for each source file, the hash of the content it was
//! last transformed from and where the transformed copy lies.

use vstd::prelude::*;
use vstd::string::StringSliceAdditionalSpecFns;
use crate::clock::{rfc3339_utc, utc_now_rfc3339};
use crate::text::{push_char, same_text};

verus! {

/// The version the cache records; a cache written by another version is
/// not trusted.
pub open spec fn cache_version() -> Seq<char> {
    "0.1.0"@
}

/// The version this build writes into the cache.
pub fn cache_version_string() -> (s: String)
    ensures
        s@ == cache_version(),
{
    String::from_str("0.1.0")
}

/// What the cache remembers of one file.
#[derive(Debug)]
pub struct FileCache {
    /// Lower-case hex SHA-256 of the content last transformed.
    pub hash: String,
    /// When it was transformed, in RFC 3339 form.
    pub last_transform: String,
    pub transform_path: String,
}

/// The cache of every transformed file, by path relative to the project
/// root. No path occurs twice.
#[derive(Debug)]
pub struct TransformCache {
    pub version: String,
    pub files: Vec<(String, FileCache)>,
}

/// No path occurs twice among `files`.
pub open spec fn distinct_paths(files: Seq<(String, FileCache)>) -> bool {
    forall|i: int, j: int| 0 <= i < j < files.len() ==> files[i].0@ != files[j].0@
}

/// The entry of `file` in `files`, if any (the first one).
pub open spec fn lookup(files: Seq<(String, FileCache)>, file: Seq<char>) -> Option<FileCache>
    decreases files.len(),
{
    if files.len() == 0 {
        None
    } else if files[0].0@ == file {
        Some(files[0].1)
    } else {
        lookup(files.drop_first(), file)
    }
}

/// The SHA-256 digest of `data`.
pub uninterp spec fn sha256(data: Seq<u8>) -> Seq<u8>;

/// Hashes the UTF-8 bytes of `text` with sha2's `Sha256::digest`; the
/// digest is 32 bytes long.
#[verifier::external_body]
fn sha256_of(text: &str) -> (d: Vec<u8>)
    ensures
        d@ == sha256(text.spec_bytes()),
        d@.len() == 32,
{
    <sha2::Sha256 as sha2::Digest>::digest(text.as_bytes()).to_vec()
}

/// The lower-case hex digit of `v < 16`.
pub open spec fn hex_digit(v: int) -> char {
    if v < 10 { (v + 48) as char } else { (v + 87) as char }
}

/// The lower-case hex rendering of `bytes`, two digits per byte, as `{:x}`
/// prints a digest.
pub open spec fn hex_lower(bytes: Seq<u8>) -> Seq<char>
    decreases bytes.len(),
{
    if bytes.len() == 0 {
        Seq::empty()
    } else {
        hex_lower(bytes.drop_last()).push(hex_digit(bytes.last() as int / 16)).push(hex_digit(bytes.last() as int % 16))
    }
}

fn hex_char(v: u8) -> (c: char)
    requires
        v < 16,
    ensures
        c == hex_digit(v as int),
{
    if v < 10 { (v + 48) as char } else { (v + 87) as char }
}

/// The lower-case hex rendering of `bytes`.
pub fn to_hex_lower(bytes: &Vec<u8>) -> (s: String)
    ensures
        s@ == hex_lower(bytes@),
{
    let mut s = String::new();
    let mut i: usize = 0;
    while i < bytes.len()
        invariant
            i <= bytes@.len(),
            s@ == hex_lower(bytes@.subrange(0, i as int)),
        decreases bytes.len() - i,
    {
        let b = bytes[i];
        push_char(&mut s, hex_char(b / 16));
        push_char(&mut s, hex_char(b % 16));
        proof {
            let pre = bytes@.subrange(0, i + 1);
            assert(pre.drop_last() =~= bytes@.subrange(0, i as int));
        }
        i += 1;
    }
    assert(bytes@.subrange(0, bytes@.len() as int) =~= bytes@);
    s
}

impl TransformCache {
    /// An empty cache of no version.
    pub fn new() -> (c: Self)
        ensures
            c.version@ == Seq::<char>::empty(),
            c.files@.len() == 0,
    {
        TransformCache { version: String::new(), files: Vec::new() }
    }

    /// The cache as loaded: a cache of another version is dropped for an
    /// empty one.
    pub fn accept_loaded(loaded: TransformCache) -> (c: TransformCache)
        ensures
            loaded.version@ == cache_version() ==> c == loaded,
            loaded.version@ != cache_version() ==> c.version@ == Seq::<char>::empty() && c.files@.len() == 0,
    {
        let v = cache_version_string();
        if loaded.version == v {
            loaded
        } else {
            TransformCache::new()
        }
    }

    /// The hash the cache keys a content by: its SHA-256, in lower-case hex.
    pub fn compute_hash(content: &str) -> (h: String)
        ensures
            h@ == hex_lower(sha256(content.spec_bytes())),
            h@.len() == 64,
    {
        let d = sha256_of(content);
        let h = to_hex_lower(&d);
        proof { lemma_hex_len(d@); }
        h
    }

    fn find(&self, file_path: &str) -> (r: Option<usize>)
        ensures
            r matches Some(i) ==> i < self.files@.len() && lookup(self.files@, file_path@) == Some(self.files@[i as int].1)
                && self.files@[i as int].0@ == file_path@
                && forall|j: int| 0 <= j < i ==> self.files@[j].0@ != file_path@,
            r is None ==> lookup(self.files@, file_path@) is None,
    {
        let mut i: usize = 0;
        assert(self.files@.subrange(0, self.files@.len() as int) =~= self.files@);
        while i < self.files.len()
            invariant
                i <= self.files@.len(),
                forall|j: int| 0 <= j < i ==> self.files@[j].0@ != file_path@,
                lookup(self.files@, file_path@) == lookup(self.files@.subrange(i as int, self.files@.len() as int), file_path@),
            decreases self.files.len() - i,
        {
            let ghost rest = self.files@.subrange(i as int, self.files@.len() as int);
            if same_text(self.files[i].0.as_str(), file_path) {
                return Some(i);
            }
            assert(rest.drop_first() =~= self.files@.subrange(i + 1, self.files@.len() as int));
            i += 1;
        }
        None
    }

    /// Whether `file_path` was last transformed from content of hash
    /// `current_hash`.
    pub fn is_cached(&self, file_path: &str, current_hash: &str) -> (r: bool)
        ensures
            r == (lookup(self.files@, file_path@) matches Some(c) && c.hash@ == current_hash@),
    {
        match self.find(file_path) {
            Some(i) => same_text(self.files[i].1.hash.as_str(), current_hash),
            None => false,
        }
    }

    /// Where the transformed copy of `file_path` lies, if it was transformed.
    pub fn get_transform_path(&self, file_path: &str) -> (r: Option<&String>)
        ensures
            match lookup(self.files@, file_path@) {
                Some(c) => r matches Some(p) && *p == c.transform_path,
                None => r is None,
            },
    {
        match self.find(file_path) {
            Some(i) => Some(&self.files[i].1.transform_path),
            None => None,
        }
    }

    /// Records that `file_path` was transformed now, from content of hash
    /// `hash`, into `transform_path`; the cache takes this build's version.
    pub fn update(&mut self, file_path: String, hash: String, transform_path: String)
        ensures
            final(self).version@ == cache_version(),
            lookup(final(self).files@, file_path@) matches Some(c) && c.hash == hash && c.transform_path == transform_path
                && rfc3339_utc(c.last_transform@),
            forall|other: Seq<char>| other != file_path@ ==> lookup(final(self).files@, other) == lookup(old(self).files@, other),
            distinct_paths(old(self).files@) ==> distinct_paths(final(self).files@),
    {
        self.version = cache_version_string();
        let stamp = utc_now_rfc3339();
        let entry = FileCache { hash, last_transform: stamp, transform_path };
        match self.find(file_path.as_str()) {
            Some(i) => {
                let ghost before = self.files@;
                let old_entry = self.files.remove(i);
                self.files.insert(i, (old_entry.0, entry));
                proof {
                    assert(self.files@ =~= before.update(i as int, (before[i as int].0, entry)));
                    lemma_lookup_update(before, i as int, entry, file_path@);
                    assert forall|other: Seq<char>| other != file_path@ implies
                        lookup(self.files@, other) == lookup(before, other) by {
                        lemma_lookup_update(before, i as int, entry, other);
                    }
                }
            },
            None => {
                let ghost before = self.files@;
                self.files.push((file_path, entry));
                proof {
                    lemma_lookup_none(before, file_path@);
                    lemma_lookup_push(before, (file_path, entry), file_path@);
                    assert forall|other: Seq<char>| other != file_path@ implies
                        lookup(self.files@, other) == lookup(before, other) by {
                        lemma_lookup_push(before, (file_path, entry), other);
                    }
                }
            },
        }
    }
}

proof fn lemma_hex_len(b: Seq<u8>)
    ensures
        hex_lower(b).len() == 2 * b.len(),
    decreases b.len(),
{
    if b.len() > 0 {
        lemma_hex_len(b.drop_last());
    }
}

proof fn lemma_lookup_update(files: Seq<(String, FileCache)>, i: int, entry: FileCache, other: Seq<char>)
    requires
        0 <= i < files.len(),
        forall|j: int| 0 <= j < i ==> files[j].0@ != files[i].0@,
    ensures
        lookup(files.update(i, (files[i].0, entry)), files[i].0@) == Some(entry),
        other != files[i].0@ ==> lookup(files.update(i, (files[i].0, entry)), other) == lookup(files, other),
    decreases files.len(),
{
    let g = files.update(i, (files[i].0, entry));
    if i == 0 {
        assert(g.drop_first() =~= files.drop_first());
    } else {
        assert(g.drop_first() =~= files.drop_first().update(i - 1, (files[i].0, entry)));
        lemma_lookup_update(files.drop_first(), i - 1, entry, other);
    }
}

proof fn lemma_lookup_none(files: Seq<(String, FileCache)>, file: Seq<char>)
    requires
        lookup(files, file) is None,
    ensures
        forall|j: int| 0 <= j < files.len() ==> files[j].0@ != file,
    decreases files.len(),
{
    if files.len() > 0 {
        lemma_lookup_none(files.drop_first(), file);
        assert forall|j: int| 0 <= j < files.len() implies files[j].0@ != file by {
            if j > 0 {
                assert(files[j] == files.drop_first()[j - 1]);
            }
        }
    }
}

proof fn lemma_lookup_push(files: Seq<(String, FileCache)>, kv: (String, FileCache), other: Seq<char>)
    requires
        lookup(files, kv.0@) is None,
    ensures
        lookup(files.push(kv), kv.0@) == Some(kv.1),
        other != kv.0@ ==> lookup(files.push(kv), other) == lookup(files, other),
    decreases files.len(),
{
    if files.len() == 0 {
        assert(files.push(kv).drop_first() =~= Seq::<(String, FileCache)>::empty());
        assert(lookup(Seq::<(String, FileCache)>::empty(), other) is None);
        assert(lookup(files, other) is None);
    } else {
        assert(files.push(kv).drop_first() =~= files.drop_first().push(kv));
        lemma_lookup_push(files.drop_first(), kv, other);
    }
}

/// Read your write: right after `file` is recorded with hash `h` and copy
/// `p`, the cache says it is cached under `h` (and under no other hash) and
/// hands out `p`; what it says of every other file is unchanged.
pub proof fn law_cache_read_your_write(before: Seq<(String, FileCache)>, after: Seq<(String, FileCache)>,
    file: Seq<char>, h: String, p: String, other: Seq<char>, other_hash: Seq<char>)
    requires
        lookup(after, file) matches Some(c) && c.hash == h && c.transform_path == p,
        forall|o: Seq<char>| o != file ==> lookup(after, o) == lookup(before, o),
    ensures
        lookup(after, file) matches Some(c) && (c.hash@ == other_hash <==> h@ == other_hash),
        lookup(after, file) matches Some(c) && c.transform_path == p,
        other != file ==> lookup(after, other) == lookup(before, other),
{
}

} // verus!
