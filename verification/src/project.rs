//! The project a debugging session runs in: its root, its `.checkpoint`
//! directory and its settings.

use vstd::prelude::*;
use crate::entry::PathKind;
use crate::text::{concat, push_char};

verus! {

/// Settings read from `.checkpointrc.json`.
#[derive(Debug)]
pub struct CheckpointConfig {
    pub output_dir: Option<String>,
    pub minify: Option<bool>,
    pub preserve_sessions: Option<u32>,
}

impl CheckpointConfig {
    /// No setting given.
    pub fn new() -> (c: Self)
        ensures
            c.output_dir is None,
            c.minify is None,
            c.preserve_sessions is None,
    {
        CheckpointConfig { output_dir: None, minify: None, preserve_sessions: None }
    }
}

#[derive(Debug)]
pub struct ProjectContext {
    pub root: String,
    pub checkpoint_dir: String,
    pub config: CheckpointConfig,
}

/// `rel` appended to `base` as `Path::join` does on Unix for a relative
/// `rel`: with one separator between them, none added when `base` is empty
/// or already ends in one.
pub open spec fn joined(base: Seq<char>, rel: Seq<char>) -> Seq<char> {
    if base.len() == 0 {
        rel
    } else if base.last() == '/' {
        base + rel
    } else {
        base.push('/') + rel
    }
}

/// `rel` appended to `base` as `Path::join` does on Unix; an absolute `rel`
/// replaces `base`.
pub open spec fn path_joined(base: Seq<char>, rel: Seq<char>) -> Seq<char> {
    if rel.len() > 0 && rel[0] == '/' { rel } else { joined(base, rel) }
}

/// Joins two paths the way `Path::join` does on Unix.
pub fn join_path(base: &str, rel: &str) -> (p: String)
    ensures
        p@ == path_joined(base@, rel@),
{
    let rel_len = rel.unicode_len();
    if rel_len > 0 && rel.get_char(0) == '/' {
        return String::from_str(rel);
    }
    let n = base.unicode_len();
    if n == 0 {
        String::from_str(rel)
    } else if base.get_char(n - 1) == '/' {
        concat(base, rel)
    } else {
        let mut p = String::from_str(base);
        push_char(&mut p, '/');
        p.append(rel);
        p
    }
}

impl ProjectContext {
    /// The context of a project found at `root`, with the settings read for
    /// it; its checkpoint directory is `root/.checkpoint`.
    pub fn discover(root: String, config: CheckpointConfig) -> (c: Self)
        ensures
            c.root == root,
            c.checkpoint_dir@ == path_joined(root@, ".checkpoint"@),
            c.config == config,
    {
        let checkpoint_dir = join_path(root.as_str(), ".checkpoint");
        ProjectContext { root, checkpoint_dir, config }
    }

    /// Where transformed copies of the project's files go.
    pub fn transforms_dir(&self) -> (p: String)
        ensures
            p@ == path_joined(self.checkpoint_dir@, "transforms"@),
    {
        join_path(self.checkpoint_dir.as_str(), "transforms")
    }

    /// Whether minified output is wanted: asked on the command line or set
    /// in the settings.
    pub fn minify_wanted(&self, minify_flag: bool) -> (m: bool)
        ensures
            m == (minify_flag || self.config.minify == Some(true)),
    {
        minify_flag || match self.config.minify { Some(b) => b, None => false }
    }
}

// ---------------------------------------------------------------------------
// Finding the project root
// ---------------------------------------------------------------------------

/// What `Path::parent` gives for `path`: the path without its last
/// component, `None` for a root or an empty path.
pub uninterp spec fn path_parent(path: Seq<char>) -> Option<Seq<char>>;

/// `Path::parent` of `path`; a parent is a proper prefix of the path, so it
/// is shorter.
#[verifier::external_body]
pub(crate) fn parent_of(path: &str) -> (r: Option<String>)
    ensures
        match r {
            Some(q) => path_parent(path@) == Some(q@) && q@.len() < path@.len(),
            None => path_parent(path@) is None,
        },
{
    std::path::Path::new(path).parent().map(|q| q.to_string_lossy().into_owned())
}

/// Where a search for the project root stands.
#[derive(Clone, Copy, Debug, PartialEq, Eq, Structural)]
pub enum RootStage {
    /// What is the entry file?
    Entry,
    /// Is there a `package.json` in the current directory?
    Climb,
    /// The current directory is the root.
    Done,
}

/// A search for the root of the project an entry file belongs to: the
/// nearest directory, from the entry's own upwards, that holds a
/// `package.json`; the entry's directory when none does.
#[derive(Debug)]
pub struct RootSearch {
    pub entry: String,
    /// Where the climb started.
    pub start: String,
    /// The directory looked at now.
    pub current: String,
    pub stage: RootStage,
}

/// The directory a climb starts from: the entry's parent when the entry is
/// a file (the entry itself when it has none), else the entry itself.
pub open spec fn climb_start(entry: Seq<char>, kind: PathKind) -> Seq<char> {
    if kind == PathKind::File {
        match path_parent(entry) {
            Some(p) => p,
            None => entry,
        }
    } else {
        entry
    }
}

impl ProjectContext {
    /// Starts the search for the root of the project `entry_file` belongs
    /// to. Ask `query` which path to look at and hand what is there to
    /// `answer`, until `root` gives the root.
    pub fn find_project_root(entry_file: &str) -> (s: RootSearch)
        ensures
            s.entry@ == entry_file@,
            s.stage == RootStage::Entry,
    {
        RootSearch {
            entry: String::from_str(entry_file),
            start: String::from_str(entry_file),
            current: String::from_str(entry_file),
            stage: RootStage::Entry,
        }
    }
}

impl RootSearch {
    /// The path the search needs to know about next: the entry file, then
    /// the `package.json` of each directory climbed to; none once done.
    pub fn query(&self) -> (q: Option<String>)
        ensures
            self.stage == RootStage::Entry ==> (q matches Some(p) && p@ == self.entry@),
            self.stage == RootStage::Climb ==> (q matches Some(p) && p@ == path_joined(self.current@, "package.json"@)),
            self.stage == RootStage::Done ==> q is None,
    {
        match self.stage {
            RootStage::Entry => Some(self.entry.clone()),
            RootStage::Climb => Some(join_path(self.current.as_str(), "package.json")),
            RootStage::Done => None,
        }
    }

    /// Hands the search what is at the path it asked about. The entry
    /// decides where the climb starts; a `package.json` that exists ends it;
    /// a missing one moves it to the parent directory, or, at the top, back
    /// to where it started, which is then the root.
    pub fn answer(&mut self, kind: PathKind)
        ensures
            final(self).entry == old(self).entry,
            old(self).stage == RootStage::Entry ==> {
                &&& final(self).stage == RootStage::Climb
                &&& final(self).start@ == climb_start(old(self).entry@, kind)
                &&& final(self).current@ == final(self).start@
            },
            old(self).stage == RootStage::Climb ==> final(self).start == old(self).start,
            old(self).stage == RootStage::Climb && kind != PathKind::Missing ==> {
                &&& final(self).stage == RootStage::Done
                &&& final(self).current == old(self).current
            },
            old(self).stage == RootStage::Climb && kind == PathKind::Missing ==> match path_parent(old(self).current@) {
                Some(p) => final(self).stage == RootStage::Climb && final(self).current@ == p
                    && p.len() < old(self).current@.len(),
                None => final(self).stage == RootStage::Done && final(self).current@ == old(self).start@,
            },
            old(self).stage == RootStage::Done ==> *final(self) == *old(self),
    {
        match self.stage {
            RootStage::Entry => {
                let start = if kind == PathKind::File {
                    match parent_of(self.entry.as_str()) {
                        Some(p) => p,
                        None => self.entry.clone(),
                    }
                } else {
                    self.entry.clone()
                };
                self.current = start.clone();
                self.start = start;
                self.stage = RootStage::Climb;
            },
            RootStage::Climb => {
                if kind != PathKind::Missing {
                    self.stage = RootStage::Done;
                } else {
                    match parent_of(self.current.as_str()) {
                        Some(p) => {
                            self.current = p;
                        },
                        None => {
                            self.current = self.start.clone();
                            self.stage = RootStage::Done;
                        },
                    }
                }
            },
            RootStage::Done => {},
        }
    }

    /// The root, once found.
    pub fn root(&self) -> (r: Option<String>)
        ensures
            self.stage == RootStage::Done ==> (r matches Some(p) && p@ == self.current@),
            self.stage != RootStage::Done ==> r is None,
    {
        if self.stage == RootStage::Done {
            Some(self.current.clone())
        } else {
            None
        }
    }
}

} // verus!
