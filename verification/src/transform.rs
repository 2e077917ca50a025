//! The project transformer's bookkeeping: which files it instruments, where
//! their imports of the runtime point, and the manifest of functions it made
//! asynchronous.

use vstd::prelude::*;
use vstd::multiset::Multiset;
use crate::cache::TransformCache;
use crate::project::{join_path, path_joined, ProjectContext};
use crate::text::{chars_of, concat, same_text, string_of};
use crate::dashboard::{contains_name, has_name};

verus! {

// ---------------------------------------------------------------------------
// Paths
// ---------------------------------------------------------------------------

/// What `Path::file_name` gives for `path`.
pub uninterp spec fn path_file_name(path: Seq<char>) -> Option<Seq<char>>;

/// What `Path::components().count()` gives for `path`.
pub uninterp spec fn path_component_count(path: Seq<char>) -> nat;

/// The last component of `path`, as `Path::file_name` gives it (`None` when
/// the path ends in `..` or has no components).
#[verifier::external_body]
fn file_name_of(path: &str) -> (r: Option<String>)
    ensures
        match r {
            Some(n) => path_file_name(path@) == Some(n@),
            None => path_file_name(path@) is None,
        },
{
    std::path::Path::new(path).file_name().map(|n| n.to_string_lossy().into_owned())
}

/// How many components `path` has, as `Path::components` counts them.
#[verifier::external_body]
fn component_count(path: &str) -> (n: usize)
    ensures
        n == path_component_count(path@),
{
    std::path::Path::new(path).components().count()
}

/// The position of the last `.` in `s`, if any.
pub open spec fn last_dot(s: Seq<char>) -> int
    decreases s.len(),
{
    if s.len() == 0 {
        -1
    } else if s.last() == '.' {
        s.len() - 1
    } else {
        last_dot(s.drop_last())
    }
}

/// The extension of a file name, as `Path::extension` defines it: the part
/// after the last `.`, unless there is no `.` or the only one begins the
/// name.
pub open spec fn extension(name: Seq<char>) -> Option<Seq<char>> {
    let d = last_dot(name);
    if d <= 0 { None } else { Some(name.subrange(d + 1, name.len() as int)) }
}

/// The extension of `path`, as `Path::extension` gives it.
pub open spec fn path_extension(path: Seq<char>) -> Option<Seq<char>> {
    match path_file_name(path) {
        Some(n) => extension(n),
        None => None,
    }
}

proof fn lemma_last_dot(s: Seq<char>)
    ensures
        -1 <= last_dot(s) < s.len(),
        last_dot(s) >= 0 ==> s[last_dot(s)] == '.',
        forall|k: int| last_dot(s) < k < s.len() ==> s[k] != '.',
    decreases s.len(),
{
    if s.len() > 0 && s.last() != '.' {
        let t = s.drop_last();
        lemma_last_dot(t);
        assert forall|k: int| last_dot(s) < k < s.len() implies s[k] != '.' by {
            if k < s.len() - 1 {
                assert(s[k] == t[k]);
            }
        }
    }
}

/// The extension of the file name `name`, if it has one.
fn extension_of(name: &str) -> (r: Option<String>)
    ensures
        match r {
            Some(e) => extension(name@) == Some(e@),
            None => extension(name@) is None,
        },
{
    let v = chars_of(name);
    let mut i = v.len();
    assert(name@.subrange(0, name@.len() as int) =~= name@);
    while i > 0 && v[i - 1] != '.'
        invariant
            v@ == name@,
            i <= v@.len(),
            forall|k: int| i <= k < v@.len() ==> v@[k] != '.',
            last_dot(name@) == last_dot(name@.subrange(0, i as int)),
        decreases i,
    {
        proof {
            let pre = name@.subrange(0, i as int);
            assert(pre.drop_last() =~= name@.subrange(0, i - 1));
        }
        i -= 1;
    }
    proof {
        assert(name@.subrange(0, v@.len() as int) =~= name@) by {}
    }
    if i <= 1 {
        proof {
            if i == 1 {
                assert(last_dot(name@.subrange(0, 1)) == 0);
            } else {
                assert(last_dot(name@.subrange(0, 0)) == -1);
            }
        }
        None
    } else {
        proof {
            let pre = name@.subrange(0, i as int);
            assert(pre.last() == '.');
            assert(last_dot(pre) == i - 1);
        }
        Some(string_of(&v, i, v.len()))
    }
}

/// The extensions of the sources the transformer instruments.
pub open spec fn is_source_extension(e: Seq<char>) -> bool {
    e == "ts"@ || e == "js"@ || e == "tsx"@ || e == "jsx"@
}

/// The file at `path` is a source the transformer instruments, by its
/// extension.
pub open spec fn transformable(path: Seq<char>) -> bool {
    path_extension(path) matches Some(e) && is_source_extension(e)
}

/// The `..` parts of an import that climbs `n` directories, joined by `/`.
pub open spec fn parent_steps(n: nat) -> Seq<char>
    decreases n,
{
    if n == 0 {
        Seq::empty()
    } else if n == 1 {
        ".."@
    } else {
        parent_steps((n - 1) as nat) + "/.."@
    }
}

/// The import specifier of the runtime from a file `depth` components below
/// the project root, seen from the copy in the transforms directory.
pub open spec fn runtime_import_for_depth(depth: nat) -> Seq<char> {
    parent_steps(depth) + "/runtime/checkpoint-runtime"@
}

/// The import specifier by which a transformed file at `relative_path`
/// (relative to the project root) reaches the runtime.
pub fn compute_runtime_import_path(relative_path: &str) -> (s: String)
    ensures
        s@ == runtime_import_for_depth(path_component_count(relative_path@)),
{
    let depth = component_count(relative_path);
    let mut s = String::new();
    let mut i: usize = 0;
    while i < depth
        invariant
            i <= depth,
            s@ == parent_steps(i as nat),
        decreases depth - i,
    {
        if i == 0 {
            s.append("..");
        } else {
            s.append("/..");
        }
        i += 1;
    }
    s.append("/runtime/checkpoint-runtime");
    s
}

// ---------------------------------------------------------------------------
// Ordering names
// ---------------------------------------------------------------------------

/// `a` comes before or equals `b` in the order of `String`'s `Ord`
/// (character by character, by code point).
pub open spec fn text_le(a: Seq<char>, b: Seq<char>) -> bool
    decreases a.len(),
{
    if a.len() == 0 {
        true
    } else if b.len() == 0 {
        false
    } else if (a[0] as u32) != (b[0] as u32) {
        (a[0] as u32) < (b[0] as u32)
    } else {
        text_le(a.drop_first(), b.drop_first())
    }
}

/// Each name comes before or equals every later one.
pub open spec fn sorted_names(s: Seq<String>) -> bool {
    forall|i: int, j: int| 0 <= i < j < s.len() ==> text_le(s[i]@, s[j]@)
}

pub(crate) proof fn lemma_text_le_total(a: Seq<char>, b: Seq<char>)
    ensures
        text_le(a, b) || text_le(b, a),
    decreases a.len(),
{
    if a.len() > 0 && b.len() > 0 && (a[0] as u32) == (b[0] as u32) {
        lemma_text_le_total(a.drop_first(), b.drop_first());
    }
}

pub(crate) proof fn lemma_text_le_trans(a: Seq<char>, b: Seq<char>, c: Seq<char>)
    requires
        text_le(a, b),
        text_le(b, c),
    ensures
        text_le(a, c),
    decreases a.len(),
{
    if a.len() > 0 && b.len() > 0 && c.len() > 0 && (a[0] as u32) == (b[0] as u32) && (b[0] as u32) == (c[0] as u32) {
        lemma_text_le_trans(a.drop_first(), b.drop_first(), c.drop_first());
    }
}

pub(crate) proof fn lemma_text_le_refl(a: Seq<char>)
    ensures
        text_le(a, a),
    decreases a.len(),
{
    if a.len() > 0 {
        lemma_text_le_refl(a.drop_first());
    }
}

pub(crate) proof fn lemma_text_le_antisym(a: Seq<char>, b: Seq<char>)
    requires
        text_le(a, b),
        text_le(b, a),
    ensures
        a == b,
    decreases a.len(),
{
    if a.len() > 0 && b.len() > 0 {
        lemma_text_le_antisym(a.drop_first(), b.drop_first());
        assert(a[0] == b[0]) by {
            vstd::utf8::char_u32_cast(a[0], a[0] as u32);
            vstd::utf8::char_u32_cast(b[0], b[0] as u32);
        }
        assert(a =~= seq![a[0]] + a.drop_first());
        assert(b =~= seq![b[0]] + b.drop_first());
    }
}

/// Whether `a` comes before or equals `b`.
pub(crate) fn text_le_exec(a: &str, b: &str) -> (r: bool)
    ensures
        r == text_le(a@, b@),
{
    let x = chars_of(a);
    let y = chars_of(b);
    let mut i: usize = 0;
    assert(a@.subrange(0, a@.len() as int) =~= a@);
    assert(b@.subrange(0, b@.len() as int) =~= b@);
    while i < x.len() && i < y.len() && (x[i] as u32) == (y[i] as u32)
        invariant
            x@ == a@,
            y@ == b@,
            i <= x@.len(),
            i <= y@.len(),
            text_le(a@, b@) == text_le(a@.subrange(i as int, a@.len() as int), b@.subrange(i as int, b@.len() as int)),
        decreases x.len() - i,
    {
        proof {
            let sa = a@.subrange(i as int, a@.len() as int);
            let sb = b@.subrange(i as int, b@.len() as int);
            assert(sa.drop_first() =~= a@.subrange(i + 1, a@.len() as int));
            assert(sb.drop_first() =~= b@.subrange(i + 1, b@.len() as int));
        }
        i += 1;
    }
    proof {
        assert(a@.subrange(0, a@.len() as int) =~= a@);
        assert(b@.subrange(0, b@.len() as int) =~= b@);
    }
    if i == x.len() {
        true
    } else if i == y.len() {
        false
    } else {
        (x[i] as u32) < (y[i] as u32)
    }
}

/// `names` in the order of `String`'s `Ord`, as `sort` leaves them.
pub fn sort_names(names: Vec<String>) -> (r: Vec<String>)
    ensures
        sorted_names(r@),
        r@.to_multiset() == names@.to_multiset(),
{
    let mut r: Vec<String> = Vec::new();
    let mut i: usize = 0;
    proof {
        broadcast use vstd::seq_lib::group_to_multiset_ensures;
        assert(names@.subrange(0, 0) =~= Seq::<String>::empty());
        assert(r@ =~= Seq::<String>::empty());
        assert(r@.to_multiset() =~= Multiset::<String>::empty());
        assert(names@.subrange(0, 0).to_multiset() =~= Multiset::<String>::empty());
    }
    while i < names.len()
        invariant
            i <= names@.len(),
            sorted_names(r@),
            r@.to_multiset() == names@.subrange(0, i as int).to_multiset(),
        decreases names.len() - i,
    {
        let x = names[i].clone();
        let mut p: usize = 0;
        while p < r.len() && text_le_exec(r[p].as_str(), x.as_str())
            invariant
                p <= r@.len(),
                forall|k: int| 0 <= k < p ==> text_le(r@[k]@, x@),
            decreases r.len() - p,
        {
            p += 1;
        }
        proof {
            if p < r@.len() {
                lemma_text_le_total(r@[p as int]@, x@);
                assert(text_le(x@, r@[p as int]@));
            }
        }
        let ghost before = r@;
        r.insert(p, x);
        proof {
            assert forall|a: int, b: int| 0 <= a < b < r@.len() implies text_le(r@[a]@, r@[b]@) by {
                if b < p {
                } else if b == p {
                } else if a < p {
                    lemma_text_le_trans(r@[a]@, x@, before[p as int]@);
                    if b - 1 > p {
                        lemma_text_le_trans(r@[a]@, before[p as int]@, before[b - 1]@);
                    }
                } else if a == p {
                    if b - 1 > p {
                        lemma_text_le_trans(x@, before[p as int]@, before[b - 1]@);
                    }
                } else {
                }
            }
            assert(names@.subrange(0, i + 1) =~= names@.subrange(0, i as int).push(names@[i as int]));
            vstd::seq_lib::to_multiset_build(names@.subrange(0, i as int), names@[i as int]);
            vstd::seq_lib::to_multiset_insert(before, p as int, x);
        }
        i += 1;
    }
    assert(names@.subrange(0, names@.len() as int) =~= names@);
    r
}

// ---------------------------------------------------------------------------
// The manifest of promoted functions
// ---------------------------------------------------------------------------

/// For each transformed file (by path relative to the project root) the
/// sorted names of the functions the transformer made asynchronous. No path
/// occurs twice.
#[derive(Debug)]
pub struct PromotedManifest {
    pub entries: Vec<(String, Vec<String>)>,
}

/// `names` holds no name twice.
pub open spec fn distinct_names(names: Seq<String>) -> bool {
    forall|i: int, j: int| 0 <= i < j < names.len() ==> names[i]@ != names[j]@
}

/// The position of `file` among the entries, or -1.
pub open spec fn entry_index(entries: Seq<(String, Vec<String>)>, file: Seq<char>) -> int {
    if exists|i: int| 0 <= i < entries.len() && entries[i].0@ == file {
        choose|i: int| 0 <= i < entries.len() && entries[i].0@ == file
    } else {
        -1
    }
}

/// No file has two entries.
pub open spec fn distinct_files(entries: Seq<(String, Vec<String>)>) -> bool {
    forall|i: int, j: int| 0 <= i < j < entries.len() ==> entries[i].0@ != entries[j].0@
}

/// The names recorded for `file`, if it has an entry.
pub open spec fn manifest_lookup(entries: Seq<(String, Vec<String>)>, file: Seq<char>) -> Option<Vec<String>>
    decreases entries.len(),
{
    if entries.len() == 0 {
        None
    } else if entries[0].0@ == file {
        Some(entries[0].1)
    } else {
        manifest_lookup(entries.drop_first(), file)
    }
}

proof fn lemma_lookup_absent(entries: Seq<(String, Vec<String>)>, file: Seq<char>)
    requires
        forall|i: int| 0 <= i < entries.len() ==> entries[i].0@ != file,
    ensures
        manifest_lookup(entries, file) is None,
    decreases entries.len(),
{
    if entries.len() > 0 {
        lemma_lookup_absent(entries.drop_first(), file);
    }
}

proof fn lemma_lookup_remove(entries: Seq<(String, Vec<String>)>, i: int, f: Seq<char>)
    requires
        0 <= i < entries.len(),
        distinct_files(entries),
    ensures
        distinct_files(entries.remove(i)),
        f == entries[i].0@ ==> manifest_lookup(entries.remove(i), f) is None,
        f != entries[i].0@ ==> manifest_lookup(entries.remove(i), f) == manifest_lookup(entries, f),
    decreases entries.len(),
{
    let g = entries.remove(i);
    assert forall|a: int, b: int| 0 <= a < b < g.len() implies g[a].0@ != g[b].0@ by {
        let a0 = if a < i { a } else { a + 1 };
        let b0 = if b < i { b } else { b + 1 };
        assert(g[a] == entries[a0] && g[b] == entries[b0]);
    }
    if f == entries[i].0@ {
        assert forall|k: int| 0 <= k < g.len() implies g[k].0@ != f by {
            let k0 = if k < i { k } else { k + 1 };
            assert(g[k] == entries[k0]);
        }
        lemma_lookup_absent(g, f);
    } else if i == 0 {
        assert(g =~= entries.drop_first());
    } else {
        assert(g.drop_first() =~= entries.drop_first().remove(i - 1));
        assert(distinct_files(entries.drop_first())) by {
            assert forall|a: int, b: int| 0 <= a < b < entries.len() - 1 implies
                entries.drop_first()[a].0@ != entries.drop_first()[b].0@ by {
                assert(entries.drop_first()[a] == entries[a + 1]);
                assert(entries.drop_first()[b] == entries[b + 1]);
            }
        }
        lemma_lookup_remove(entries.drop_first(), i - 1, f);
    }
}

proof fn lemma_lookup_replace(entries: Seq<(String, Vec<String>)>, i: int, names: Vec<String>, f: Seq<char>)
    requires
        0 <= i < entries.len(),
        distinct_files(entries),
    ensures
        distinct_files(entries.update(i, (entries[i].0, names))),
        f == entries[i].0@ ==> manifest_lookup(entries.update(i, (entries[i].0, names)), f) == Some(names),
        f != entries[i].0@ ==> manifest_lookup(entries.update(i, (entries[i].0, names)), f) == manifest_lookup(entries, f),
    decreases entries.len(),
{
    let g = entries.update(i, (entries[i].0, names));
    assert forall|a: int, b: int| 0 <= a < b < g.len() implies g[a].0@ != g[b].0@ by {
        assert(g[a].0 == entries[a].0 && g[b].0 == entries[b].0);
    }
    if i == 0 {
        assert(g.drop_first() =~= entries.drop_first());
    } else {
        assert(g.drop_first() =~= entries.drop_first().update(i - 1, (entries[i].0, names)));
        assert(entries[0].0@ != entries[i].0@);
        assert(distinct_files(entries.drop_first())) by {
            assert forall|a: int, b: int| 0 <= a < b < entries.len() - 1 implies
                entries.drop_first()[a].0@ != entries.drop_first()[b].0@ by {
                assert(entries.drop_first()[a] == entries[a + 1]);
                assert(entries.drop_first()[b] == entries[b + 1]);
            }
        }
        lemma_lookup_replace(entries.drop_first(), i - 1, names, f);
    }
}

proof fn lemma_lookup_append(entries: Seq<(String, Vec<String>)>, kv: (String, Vec<String>), f: Seq<char>)
    requires
        distinct_files(entries),
        forall|i: int| 0 <= i < entries.len() ==> entries[i].0@ != kv.0@,
    ensures
        distinct_files(entries.push(kv)),
        f == kv.0@ ==> manifest_lookup(entries.push(kv), f) == Some(kv.1),
        f != kv.0@ ==> manifest_lookup(entries.push(kv), f) == manifest_lookup(entries, f),
    decreases entries.len(),
{
    if entries.len() == 0 {
        assert(entries.push(kv).drop_first() =~= Seq::<(String, Vec<String>)>::empty());
        assert(manifest_lookup(Seq::<(String, Vec<String>)>::empty(), f) is None);
    } else {
        assert(entries.push(kv).drop_first() =~= entries.drop_first().push(kv));
        assert(distinct_files(entries.drop_first())) by {
            assert forall|a: int, b: int| 0 <= a < b < entries.len() - 1 implies
                entries.drop_first()[a].0@ != entries.drop_first()[b].0@ by {
                assert(entries.drop_first()[a] == entries[a + 1]);
                assert(entries.drop_first()[b] == entries[b + 1]);
            }
        }
        lemma_lookup_append(entries.drop_first(), kv, f);
    }
}

/// The names some entry lists.
pub open spec fn promoted_somewhere(entries: Seq<(String, Vec<String>)>, name: Seq<char>) -> bool {
    exists|i: int| 0 <= i < entries.len() && has_name(#[trigger] entries[i].1@, name)
}

/// Appending `x` to `names` adds exactly the name of `x`.
proof fn lemma_has_name_push(names: Seq<String>, x: String, name: Seq<char>)
    ensures
        has_name(names.push(x), name) <==> (has_name(names, name) || name == x@),
{
    let p = names.push(x);
    if has_name(p, name) {
        let k = choose|k: int| 0 <= k < p.len() && #[trigger] p[k]@ == name;
        if k < names.len() {
            assert(names[k]@ == name);
        } else {
            assert(p[k] == x);
        }
    }
    if has_name(names, name) {
        let k = choose|k: int| 0 <= k < names.len() && #[trigger] names[k]@ == name;
        assert(p[k]@ == name);
    } else if name == x@ {
        assert(p[names.len() as int]@ == name);
    }
}

/// One more element of a prefix adds exactly that element's name.
proof fn lemma_has_name_prefix_step(names: Seq<String>, j: int, name: Seq<char>)
    requires
        0 <= j < names.len(),
    ensures
        has_name(names.subrange(0, j + 1), name) <==> (has_name(names.subrange(0, j), name) || name == names[j]@),
{
    assert(names.subrange(0, j + 1) =~= names.subrange(0, j).push(names[j]));
    lemma_has_name_push(names.subrange(0, j), names[j], name);
}

impl PromotedManifest {
    pub fn new() -> (m: Self)
        ensures
            m.entries@.len() == 0,
    {
        PromotedManifest { entries: Vec::new() }
    }

    fn find(&self, file: &str) -> (r: Option<usize>)
        ensures
            r matches Some(i) ==> i < self.entries@.len() && self.entries@[i as int].0@ == file@,
            r is None ==> forall|i: int| 0 <= i < self.entries@.len() ==> self.entries@[i].0@ != file@,
    {
        let mut i: usize = 0;
        while i < self.entries.len()
            invariant
                i <= self.entries@.len(),
                forall|k: int| 0 <= k < i ==> self.entries@[k].0@ != file@,
            decreases self.entries.len() - i,
        {
            if same_text(self.entries[i].0.as_str(), file) {
                return Some(i);
            }
            i += 1;
        }
        None
    }

    /// Records the functions promoted in `relative_path`: a file with none
    /// loses its entry, any other gets the names sorted.
    pub fn update(&mut self, relative_path: String, promoted: Vec<String>)
        requires
            distinct_files(old(self).entries@),
        ensures
            distinct_files(final(self).entries@),
            promoted@.len() == 0 ==> manifest_lookup(final(self).entries@, relative_path@) is None,
            promoted@.len() > 0 ==> (manifest_lookup(final(self).entries@, relative_path@) matches Some(names)
                && sorted_names(names@) && names@.to_multiset() == promoted@.to_multiset()),
            forall|f: Seq<char>| f != relative_path@ ==> #[trigger] manifest_lookup(final(self).entries@, f)
                == manifest_lookup(old(self).entries@, f),
    {
        let found = self.find(relative_path.as_str());
        let ghost before = self.entries@;
        if promoted.len() == 0 {
            match found {
                Some(i) => {
                    self.entries.remove(i);
                    proof {
                        lemma_lookup_remove(before, i as int, relative_path@);
                        assert forall|f: Seq<char>| f != relative_path@ implies #[trigger] manifest_lookup(self.entries@, f)
                            == manifest_lookup(before, f) by {
                            lemma_lookup_remove(before, i as int, f);
                        }
                    }
                },
                None => {
                    proof { lemma_lookup_absent(before, relative_path@); }
                },
            }
            return;
        }
        let sorted = sort_names(promoted);
        match found {
            Some(i) => {
                let old_entry = self.entries.remove(i);
                self.entries.insert(i, (old_entry.0, sorted));
                proof {
                    assert(self.entries@ =~= before.update(i as int, (before[i as int].0, sorted)));
                    lemma_lookup_replace(before, i as int, sorted, relative_path@);
                    assert forall|f: Seq<char>| f != relative_path@ implies #[trigger] manifest_lookup(self.entries@, f)
                        == manifest_lookup(before, f) by {
                        lemma_lookup_replace(before, i as int, sorted, f);
                    }
                }
            },
            None => {
                self.entries.push((relative_path, sorted));
                proof {
                    lemma_lookup_append(before, (relative_path, sorted), relative_path@);
                    assert forall|f: Seq<char>| f != relative_path@ implies #[trigger] manifest_lookup(self.entries@, f)
                        == manifest_lookup(before, f) by {
                        lemma_lookup_append(before, (relative_path, sorted), f);
                    }
                }
            },
        }
    }

    /// Every promoted name, once each.
    pub fn all_promoted(&self) -> (r: Vec<String>)
        ensures
            distinct_names(r@),
            forall|name: Seq<char>| has_name(r@, name) <==> promoted_somewhere(self.entries@, name),
    {
        let mut r: Vec<String> = Vec::new();
        let mut i: usize = 0;
        while i < self.entries.len()
            invariant
                i <= self.entries@.len(),
                distinct_names(r@),
                forall|name: Seq<char>| #[trigger] has_name(r@, name) <==> promoted_somewhere(self.entries@.subrange(0, i as int), name),
            decreases self.entries.len() - i,
        {
            let names = &self.entries[i].1;
            let ghost r_before = r@;
            let mut j: usize = 0;
            while j < names.len()
                invariant
                    i < self.entries@.len(),
                    j <= names@.len(),
                    names@ == self.entries@[i as int].1@,
                    distinct_names(r@),
                    forall|name: Seq<char>| #[trigger] has_name(r@, name) <==> (has_name(r_before, name)
                        || has_name(names@.subrange(0, j as int), name)),
                decreases names.len() - j,
            {
                let ghost rb = r@;
                let n = names[j].as_str();
                if !contains_name(&r, n) {
                    r.push(names[j].clone());
                } else {
                    assert(has_name(rb, names@[j as int]@));
                }
                proof {
                    let ghost x = names@[j as int];
                    assert forall|name: Seq<char>| #[trigger] has_name(r@, name) <==> (has_name(r_before, name)
                        || has_name(names@.subrange(0, j + 1), name)) by {
                        lemma_has_name_push(rb, x, name);
                        lemma_has_name_prefix_step(names@, j as int, name);
                    }
                }
                j += 1;
            }
            proof {
                assert(names@.subrange(0, names@.len() as int) =~= names@);
                let pre = self.entries@.subrange(0, i as int);
                let post = self.entries@.subrange(0, i + 1);
                assert forall|name: Seq<char>| promoted_somewhere(post, name) <==> (promoted_somewhere(pre, name)
                    || has_name(self.entries@[i as int].1@, name)) by {
                    if promoted_somewhere(post, name) {
                        let k = choose|k: int| 0 <= k < post.len() && has_name(#[trigger] post[k].1@, name);
                        if k < i { assert(pre[k] == post[k]); } else { assert(post[k] == self.entries@[i as int]); }
                    }
                    if promoted_somewhere(pre, name) {
                        let k = choose|k: int| 0 <= k < pre.len() && has_name(#[trigger] pre[k].1@, name);
                        assert(pre[k] == post[k]);
                    }
                    if has_name(self.entries@[i as int].1@, name) {
                        assert(post[i as int] == self.entries@[i as int]);
                    }
                }
            }
            i += 1;
        }
        assert(self.entries@.subrange(0, self.entries@.len() as int) =~= self.entries@);
        r
    }
}

/// The promoted names of a project, given its manifest as loaded (`None`
/// when it is missing or unreadable, which counts as empty).
pub fn load_promoted_manifest(manifest: Option<PromotedManifest>) -> (r: Vec<String>)
    ensures
        distinct_names(r@),
        forall|name: Seq<char>| has_name(r@, name) <==> match manifest {
            Some(m) => promoted_somewhere(m.entries@, name),
            None => false,
        },
{
    match manifest {
        Some(m) => m.all_promoted(),
        None => Vec::new(),
    }
}

// ---------------------------------------------------------------------------
// The service
// ---------------------------------------------------------------------------

/// Transforms the sources of one project, remembering what it did in the
/// project's cache.
#[derive(Debug)]
pub struct TransformService {
    pub ctx: ProjectContext,
    pub cache: TransformCache,
}

impl TransformService {
    /// A service for `ctx`, starting from the cache loaded for it.
    pub fn new(ctx: ProjectContext, cache: TransformCache) -> (s: Self)
        ensures
            s.ctx == ctx,
            s.cache == cache,
    {
        TransformService { ctx, cache }
    }

    /// Whether the file at `path` is a source the transformer instruments
    /// (by its extension: `ts`, `js`, `tsx` or `jsx`); other files are copied.
    pub fn is_transformable_extension(&self, path: &str) -> (r: bool)
        ensures
            r == transformable(path@),
    {
        match file_name_of(path) {
            Some(name) => match extension_of(name.as_str()) {
                Some(e) => same_text(e.as_str(), "ts") || same_text(e.as_str(), "js")
                    || same_text(e.as_str(), "tsx") || same_text(e.as_str(), "jsx"),
                None => false,
            },
            None => false,
        }
    }

    /// The transformed copy of `relative_path` the cache holds for content of
    /// hash `hash`, if any; the caller still checks that the copy exists.
    pub fn cached_output(&self, relative_path: &str, hash: &str) -> (r: Option<String>)
        ensures
            match crate::cache::lookup(self.cache.files@, relative_path@) {
                Some(c) => if c.hash@ == hash@ { r == Some(c.transform_path) } else { r is None },
                None => r is None,
            },
    {
        if self.cache.is_cached(relative_path, hash) {
            match self.cache.get_transform_path(relative_path) {
                Some(p) => Some(p.clone()),
                None => None,
            }
        } else {
            None
        }
    }

    /// Where the transformed copy of (or the copied asset at) `relative_path`
    /// goes: under `transforms` in the checkpoint directory.
    pub fn output_path_for(&self, relative_path: &str) -> (p: String)
        ensures
            p@ == path_joined(path_joined(self.ctx.checkpoint_dir@, "transforms"@), relative_path@),
    {
        let dir = join_path(self.ctx.checkpoint_dir.as_str(), "transforms");
        join_path(dir.as_str(), relative_path)
    }

    /// Where `file` lies relative to the project root; a file outside the
    /// root keeps its path.
    pub fn relative_path_of(&self, file: &str) -> (p: String)
        ensures
            p@ == match path_strip_prefix(file@, self.ctx.root@) {
                Some(r) => r,
                None => file@,
            },
    {
        match strip_prefix_of(file, self.ctx.root.as_str()) {
            Some(r) => r,
            None => String::from_str(file),
        }
    }

    /// What the project walk does with the file at `path`: instrument a
    /// source, copy anything else.
    pub fn plan_for(&self, path: &str) -> (a: FileAction)
        ensures
            a == (if transformable(path@) {
                FileAction::Transform
            } else {
                FileAction::Copy
            }),
    {
        if self.is_transformable_extension(path) { FileAction::Transform } else { FileAction::Copy }
    }
}

/// What `Path::strip_prefix` gives for `path` and `base`: the rest of
/// `path` after the components of `base`, when `path` starts with them.
pub uninterp spec fn path_strip_prefix(path: Seq<char>, base: Seq<char>) -> Option<Seq<char>>;

/// `Path::strip_prefix` of `path` by `base`.
#[verifier::external_body]
fn strip_prefix_of(path: &str, base: &str) -> (r: Option<String>)
    ensures
        match r {
            Some(x) => path_strip_prefix(path@, base@) == Some(x@),
            None => path_strip_prefix(path@, base@) is None,
        },
{
    std::path::Path::new(path).strip_prefix(base).ok().map(|p| p.to_string_lossy().into_owned())
}

/// What the project walk does with a file.
#[derive(Clone, Copy, Debug, PartialEq, Eq, Structural)]
pub enum FileAction {
    Transform,
    Copy,
}

/// The directories the project walk never enters.
pub open spec fn walked_into(path: Seq<char>) -> bool {
    let name = match path_file_name(path) {
        Some(n) => n,
        None => Seq::empty(),
    };
    name != "node_modules"@ && name != ".checkpoint"@ && name != ".git"@
}

/// Whether the project walk enters (or takes) the entry at `path`: all but
/// `node_modules`, `.checkpoint` and `.git`.
pub fn walk_keeps(path: &str) -> (r: bool)
    ensures
        r == walked_into(path@),
{
    let name = match file_name_of(path) {
        Some(n) => n,
        None => String::new(),
    };
    !(same_text(name.as_str(), "node_modules") || same_text(name.as_str(), ".checkpoint")
        || same_text(name.as_str(), ".git"))
}

/// The entries copying the runtime's directory leaves out.
pub open spec fn copy_skipped(name: Seq<char>) -> bool {
    name == "node_modules"@ || name == ".git"@ || name == "dist"@ || name == "build"@ || name == "target"@
}

/// Whether copying the runtime's directory leaves out the entry `name`:
/// dependencies, version control and build output.
pub fn copy_skips(name: &str) -> (r: bool)
    ensures
        r == copy_skipped(name@),
{
    same_text(name, "node_modules") || same_text(name, ".git") || same_text(name, "dist")
        || same_text(name, "build") || same_text(name, "target")
}

impl ProjectContext {
    /// Where the transformed copy of the entry file lies: under
    /// `transforms` in the checkpoint directory, by the entry's file name;
    /// none when the entry path has no file name.
    pub fn transformed_entry(&self, entry_file: &str) -> (p: Option<String>)
        ensures
            match p {
                Some(x) => path_file_name(entry_file@) matches Some(n)
                    && x@ == path_joined(path_joined(self.checkpoint_dir@, "transforms"@), n),
                None => path_file_name(entry_file@) is None,
            },
    {
        match file_name_of(entry_file) {
            Some(n) => {
                let dir = join_path(self.checkpoint_dir.as_str(), "transforms");
                Some(join_path(dir.as_str(), n.as_str()))
            },
            None => None,
        }
    }

    /// Where the runtime is copied to: `runtime` in the checkpoint directory.
    pub fn runtime_copy_dir(&self) -> (p: String)
        ensures
            p@ == path_joined(self.checkpoint_dir@, "runtime"@),
    {
        join_path(self.checkpoint_dir.as_str(), "runtime")
    }
}

/// TypeScript and JavaScript sources, and their JSX forms, are instrumented:
/// a file whose extension is `ts`, `js`, `tsx` or `jsx` is transformed. A
/// file without an extension is copied, and so is one whose extension is
/// shorter than two or longer than three characters or does not end in `s`
/// or `x` (`json`, `md`, `css`, `map`, ...).
pub proof fn law_sources_are_instrumented(path: Seq<char>)
    ensures
        path_extension(path) == Some("ts"@) ==> transformable(path),
        path_extension(path) == Some("js"@) ==> transformable(path),
        path_extension(path) == Some("tsx"@) ==> transformable(path),
        path_extension(path) == Some("jsx"@) ==> transformable(path),
        path_extension(path) is None ==> !transformable(path),
        path_extension(path) matches Some(e) ==> (e.len() < 2 || e.len() > 3 ==> !transformable(path)),
        path_extension(path) matches Some(e) ==> (e.len() > 0 && e.last() != 's' && e.last() != 'x'
            ==> !transformable(path)),
{
    reveal_strlit("ts");
    reveal_strlit("js");
    reveal_strlit("tsx");
    reveal_strlit("jsx");
}

} // verus!
