//! Finding the entry file of a project: the file given, the `main` of its
//! `package.json`, or one of the usual index files.
//!
//! The search asks questions about the file system one at a time (what a
//! path is, what a file holds) and its caller answers them; the decisions
//! are made here.

use vstd::prelude::*;
use crate::project::{join_path, path_joined};
use crate::text::{concat, trim, trimmed};

verus! {

/// Why no entry file was found.
#[derive(Debug)]
pub enum EntryError {
    /// The path given does not exist (or none was given: the empty path).
    PathNotFound(String),
    /// `package.json` exists but could not be read; the I/O error's text.
    PackageJsonReadError(String),
    /// `package.json` is not valid JSON.
    InvalidPackageJson,
    /// The directory holds none of the entry files looked for.
    NoEntryFound(String),
}

/// What a path names on disk.
#[derive(Clone, Copy, Debug, PartialEq, Eq, Structural)]
pub enum PathKind {
    Missing,
    File,
    /// A directory, or anything else that exists but is no file.
    Other,
}

/// A question the search asks its caller.
#[derive(Debug)]
pub enum EntryQuery {
    /// What is at this path?
    Kind(String),
    /// What does this file hold? (`Err` with the I/O error's text when it
    /// cannot be read.)
    Read(String),
}

/// Where a search stands.
#[derive(Debug)]
pub enum EntryStage {
    /// What is the path given?
    Base,
    /// Is there a `package.json` in the directory?
    Package,
    /// What does the `package.json` hold?
    ReadPackage,
    /// Is the `main` the package names a file? (its path)
    Main(String),
    /// Is the `i`-th usual entry file there?
    Candidate(usize),
    Found(String),
    Failed(EntryError),
}

/// A search for the entry file under `base`.
#[derive(Debug)]
pub struct EntrySearch {
    pub base: String,
    pub stage: EntryStage,
}

/// An error, by its texts.
pub enum ErrorView {
    PathNotFound(Seq<char>),
    PackageJsonReadError(Seq<char>),
    InvalidPackageJson,
    NoEntryFound(Seq<char>),
}

/// A stage, by its texts.
pub enum StageView {
    Base,
    Package,
    ReadPackage,
    Main(Seq<char>),
    Candidate(nat),
    Found(Seq<char>),
    Failed(ErrorView),
}

/// A question, by its texts.
pub enum QueryView {
    Kind(Seq<char>),
    Read(Seq<char>),
}

impl EntryError {
    pub open spec fn view(&self) -> ErrorView {
        match self {
            EntryError::PathNotFound(p) => ErrorView::PathNotFound(p@),
            EntryError::PackageJsonReadError(e) => ErrorView::PackageJsonReadError(e@),
            EntryError::InvalidPackageJson => ErrorView::InvalidPackageJson,
            EntryError::NoEntryFound(p) => ErrorView::NoEntryFound(p@),
        }
    }
}

impl EntryStage {
    pub open spec fn view(&self) -> StageView {
        match self {
            EntryStage::Base => StageView::Base,
            EntryStage::Package => StageView::Package,
            EntryStage::ReadPackage => StageView::ReadPackage,
            EntryStage::Main(p) => StageView::Main(p@),
            EntryStage::Candidate(i) => StageView::Candidate(*i as nat),
            EntryStage::Found(p) => StageView::Found(p@),
            EntryStage::Failed(e) => StageView::Failed(e.view()),
        }
    }
}

impl EntryQuery {
    pub open spec fn view(&self) -> QueryView {
        match self {
            EntryQuery::Kind(p) => QueryView::Kind(p@),
            EntryQuery::Read(p) => QueryView::Read(p@),
        }
    }
}

/// How many usual entry files are looked for.
pub const CANDIDATES: usize = 4;

/// The usual entry files, in the order they are looked for.
pub open spec fn candidate(i: nat) -> Seq<char> {
    if i == 0 { "index.ts"@ } else if i == 1 { "index.js"@ } else if i == 2 { "main.ts"@ } else { "main.js"@ }
}

/// What `serde_json` makes of a `package.json` text: `None` when it is not
/// valid JSON; else the value's `main` when the value is an object whose
/// `main` is a string, `None` inside when it is not.
pub uninterp spec fn package_main_field(text: Seq<char>) -> Option<Option<Seq<char>>>;

/// Parses `text` with `serde_json::from_str::<serde_json::Value>` and takes
/// `get("main")` and `as_str` of the value.
#[verifier::external_body]
fn package_main(text: &str) -> (r: Option<Option<String>>)
    ensures
        match r {
            None => package_main_field(text@) is None,
            Some(None) => package_main_field(text@) == Some(None::<Seq<char>>),
            Some(Some(m)) => package_main_field(text@) == Some(Some(m@)),
        },
{
    match serde_json::from_str::<serde_json::Value>(text) {
        Ok(v) => Some(v.get("main").and_then(|m| m.as_str()).map(|m| m.to_string())),
        Err(_) => None,
    }
}

/// The path of `package.json` under `base`.
pub open spec fn package_path(base: Seq<char>) -> Seq<char> {
    path_joined(base, "package.json"@)
}

/// What a search at `st` asks, if anything.
pub open spec fn query_of(base: Seq<char>, st: StageView) -> Option<QueryView> {
    match st {
        StageView::Base => Some(QueryView::Kind(base)),
        StageView::Package => Some(QueryView::Kind(package_path(base))),
        StageView::ReadPackage => Some(QueryView::Read(package_path(base))),
        StageView::Main(p) => Some(QueryView::Kind(p)),
        StageView::Candidate(i) => Some(QueryView::Kind(path_joined(base, candidate(i)))),
        _ => None,
    }
}

/// Where a search at `st` goes once it learns `kind` of the path it asked
/// about; a stage that asked for a file's text stays.
pub open spec fn kind_answered(base: Seq<char>, st: StageView, kind: PathKind) -> StageView {
    match st {
        StageView::Base => match kind {
            PathKind::Missing => StageView::Failed(ErrorView::PathNotFound(base)),
            PathKind::File => StageView::Found(base),
            PathKind::Other => StageView::Package,
        },
        StageView::Package => if kind == PathKind::Missing { StageView::Candidate(0) } else { StageView::ReadPackage },
        StageView::Main(p) => if kind == PathKind::File { StageView::Found(p) } else { StageView::Candidate(0) },
        StageView::Candidate(i) => if kind == PathKind::File {
            StageView::Found(path_joined(base, candidate(i)))
        } else if i + 1 < CANDIDATES {
            StageView::Candidate(i + 1)
        } else {
            StageView::Failed(ErrorView::NoEntryFound(base))
        },
        _ => st,
    }
}

/// Where a search at `st` goes once it learns what `package.json` holds
/// (or why it could not be read); other stages stay.
pub open spec fn text_answered(base: Seq<char>, st: StageView, text: Result<Seq<char>, Seq<char>>) -> StageView {
    match st {
        StageView::ReadPackage => match text {
            Err(e) => StageView::Failed(ErrorView::PackageJsonReadError(e)),
            Ok(t) => match package_main_field(t) {
                None => StageView::Failed(ErrorView::InvalidPackageJson),
                Some(None) => StageView::Candidate(0),
                Some(Some(m)) => StageView::Main(path_joined(base, trimmed(m))),
            },
        },
        _ => st,
    }
}

/// The search starting at `path`; with no path it has failed already.
pub open spec fn search_start(path: Option<Seq<char>>) -> (Seq<char>, StageView) {
    match path {
        None => (Seq::empty(), StageView::Failed(ErrorView::PathNotFound(Seq::empty()))),
        Some(p) => (p, StageView::Base),
    }
}

/// Starts the search for the entry file of `path`: the file itself when it
/// is one; for a directory, the `main` its `package.json` names when that
/// is a file, else the first of `index.ts`, `index.js`, `main.ts` and
/// `main.js` there. Ask `query` what it needs and hand the answers to
/// `answer_kind` and `answer_text` until `outcome` gives the result.
pub fn find_entry_file(path: Option<&str>) -> (s: EntrySearch)
    ensures
        (s.base@, s.stage.view()) == search_start(match path { Some(p) => Some(p@), None => None }),
{
    match path {
        None => EntrySearch {
            base: String::new(),
            stage: EntryStage::Failed(EntryError::PathNotFound(String::new())),
        },
        Some(p) => EntrySearch { base: String::from_str(p), stage: EntryStage::Base },
    }
}

/// The name of the `i`-th usual entry file.
fn candidate_name(i: usize) -> (s: &'static str)
    requires
        i < CANDIDATES,
    ensures
        s@ == candidate(i as nat),
{
    if i == 0 { "index.ts" } else if i == 1 { "index.js" } else if i == 2 { "main.ts" } else { "main.js" }
}

impl EntrySearch {
    /// What the search needs to know next; nothing once it is over.
    pub fn query(&self) -> (q: Option<EntryQuery>)
        ensures
            match q {
                Some(x) => query_of(self.base@, self.stage.view()) == Some(x.view()),
                None => query_of(self.base@, self.stage.view()) is None,
            },
    {
        match &self.stage {
            EntryStage::Base => Some(EntryQuery::Kind(self.base.clone())),
            EntryStage::Package => Some(EntryQuery::Kind(join_path(self.base.as_str(), "package.json"))),
            EntryStage::ReadPackage => Some(EntryQuery::Read(join_path(self.base.as_str(), "package.json"))),
            EntryStage::Main(p) => Some(EntryQuery::Kind(p.clone())),
            EntryStage::Candidate(i) => {
                if *i < CANDIDATES {
                    Some(EntryQuery::Kind(join_path(self.base.as_str(), candidate_name(*i))))
                } else {
                    Some(EntryQuery::Kind(join_path(self.base.as_str(), "main.js")))
                }
            },
            EntryStage::Found(_) => None,
            EntryStage::Failed(_) => None,
        }
    }

    /// Hands the search what is at the path it asked about.
    pub fn answer_kind(&mut self, kind: PathKind)
        ensures
            final(self).base == old(self).base,
            final(self).stage.view() == kind_answered(old(self).base@, old(self).stage.view(), kind),
    {
        let mut stage = EntryStage::Base;
        std::mem::swap(&mut stage, &mut self.stage);
        self.stage = match stage {
            EntryStage::Base => match kind {
                PathKind::Missing => EntryStage::Failed(EntryError::PathNotFound(self.base.clone())),
                PathKind::File => EntryStage::Found(self.base.clone()),
                PathKind::Other => EntryStage::Package,
            },
            EntryStage::Package => if kind == PathKind::Missing {
                EntryStage::Candidate(0)
            } else {
                EntryStage::ReadPackage
            },
            EntryStage::Main(p) => if kind == PathKind::File { EntryStage::Found(p) } else { EntryStage::Candidate(0) },
            EntryStage::Candidate(i) => if kind == PathKind::File {
                let name = if i < CANDIDATES { candidate_name(i) } else { "main.js" };
                EntryStage::Found(join_path(self.base.as_str(), name))
            } else if i < CANDIDATES - 1 {
                EntryStage::Candidate(i + 1)
            } else {
                EntryStage::Failed(EntryError::NoEntryFound(self.base.clone()))
            },
            other => other,
        };
    }

    /// Hands the search what the file it asked for holds, or the text of the
    /// error reading it.
    pub fn answer_text(&mut self, text: Result<String, String>)
        ensures
            final(self).base == old(self).base,
            final(self).stage.view() == text_answered(old(self).base@, old(self).stage.view(),
                match text { Ok(t) => Ok(t@), Err(e) => Err(e@) }),
    {
        let mut stage = EntryStage::Base;
        std::mem::swap(&mut stage, &mut self.stage);
        self.stage = match stage {
            EntryStage::ReadPackage => match text {
                Err(e) => EntryStage::Failed(EntryError::PackageJsonReadError(e)),
                Ok(t) => match package_main(t.as_str()) {
                    None => EntryStage::Failed(EntryError::InvalidPackageJson),
                    Some(None) => EntryStage::Candidate(0),
                    Some(Some(m)) => {
                        let main = trim(m.as_str());
                        EntryStage::Main(join_path(self.base.as_str(), main.as_str()))
                    },
                },
            },
            other => other,
        };
    }

    /// The result, once the search is over.
    pub fn outcome(self) -> (r: Option<Result<String, EntryError>>)
        ensures
            match self.stage.view() {
                StageView::Found(p) => r matches Some(Ok(q)) && q@ == p,
                StageView::Failed(e) => r matches Some(Err(x)) && x.view() == e,
                _ => r is None,
            },
    {
        match self.stage {
            EntryStage::Found(p) => Some(Ok(p)),
            EntryStage::Failed(e) => Some(Err(e)),
            _ => None,
        }
    }
}

// ---------------------------------------------------------------------------
// The search as a whole
// ---------------------------------------------------------------------------

/// The usual entry files from the `i`-th on: the first that is a file.
pub open spec fn first_candidate(base: Seq<char>, kind: spec_fn(Seq<char>) -> PathKind, i: nat) -> StageView
    decreases CANDIDATES - i,
{
    if i >= CANDIDATES {
        StageView::Failed(ErrorView::NoEntryFound(base))
    } else if kind(path_joined(base, candidate(i))) == PathKind::File {
        StageView::Found(path_joined(base, candidate(i)))
    } else {
        first_candidate(base, kind, i + 1)
    }
}

/// The entry file of `base` on a file system where `kind` tells what each
/// path is and `text` what each file holds: `base` itself if it is a file;
/// for a directory, the `main` of its `package.json` if that names a file,
/// else the first usual entry file; and the errors for a missing `base`, an
/// unreadable or invalid `package.json`, or no entry file at all.
pub open spec fn entry_of(base: Seq<char>, kind: spec_fn(Seq<char>) -> PathKind,
    text: spec_fn(Seq<char>) -> Result<Seq<char>, Seq<char>>) -> StageView {
    let pkg = package_path(base);
    match kind(base) {
        PathKind::Missing => StageView::Failed(ErrorView::PathNotFound(base)),
        PathKind::File => StageView::Found(base),
        PathKind::Other => if kind(pkg) == PathKind::Missing {
            first_candidate(base, kind, 0)
        } else {
            match text(pkg) {
                Err(e) => StageView::Failed(ErrorView::PackageJsonReadError(e)),
                Ok(t) => match package_main_field(t) {
                    None => StageView::Failed(ErrorView::InvalidPackageJson),
                    Some(None) => first_candidate(base, kind, 0),
                    Some(Some(m)) => if kind(path_joined(base, trimmed(m))) == PathKind::File {
                        StageView::Found(path_joined(base, trimmed(m)))
                    } else {
                        first_candidate(base, kind, 0)
                    },
                },
            }
        },
    }
}

/// Where a search at `st` stands after answering at most `steps` of its
/// questions from `kind` and `text`.
pub open spec fn run(base: Seq<char>, st: StageView, kind: spec_fn(Seq<char>) -> PathKind,
    text: spec_fn(Seq<char>) -> Result<Seq<char>, Seq<char>>, steps: nat) -> StageView
    decreases steps,
{
    if steps == 0 {
        st
    } else {
        match query_of(base, st) {
            None => st,
            Some(QueryView::Kind(p)) => run(base, kind_answered(base, st, kind(p)), kind, text, (steps - 1) as nat),
            Some(QueryView::Read(p)) => run(base, text_answered(base, st, text(p)), kind, text, (steps - 1) as nat),
        }
    }
}

proof fn lemma_run_candidates(base: Seq<char>, kind: spec_fn(Seq<char>) -> PathKind,
    text: spec_fn(Seq<char>) -> Result<Seq<char>, Seq<char>>, i: nat, steps: nat)
    requires
        i < CANDIDATES,
        steps >= CANDIDATES - i,
    ensures
        run(base, StageView::Candidate(i), kind, text, steps) == first_candidate(base, kind, i),
    decreases CANDIDATES - i,
{
    let next = kind_answered(base, StageView::Candidate(i), kind(path_joined(base, candidate(i))));
    if kind(path_joined(base, candidate(i))) == PathKind::File {
        assert(run(base, next, kind, text, (steps - 1) as nat) == next) by {
            if steps - 1 > 0 {
                assert(query_of(base, next) is None);
            }
        }
    } else if i + 1 < CANDIDATES {
        lemma_run_candidates(base, kind, text, i + 1, (steps - 1) as nat);
    } else {
        assert(run(base, next, kind, text, (steps - 1) as nat) == next) by {
            if steps - 1 > 0 {
                assert(query_of(base, next) is None);
            }
        }
    }
}

/// Answering the questions of a search for the entry file of `path`
/// truthfully, eight answers at most, ends it with the entry file of that
/// path on the file system answered about, or with the error it gives.
pub proof fn law_search_finds_entry(path: Seq<char>, kind: spec_fn(Seq<char>) -> PathKind,
    text: spec_fn(Seq<char>) -> Result<Seq<char>, Seq<char>>)
    ensures
        run(path, StageView::Base, kind, text, 8) == entry_of(path, kind, text),
{
    let base = path;
    let pkg = package_path(base);
    let s1 = kind_answered(base, StageView::Base, kind(base));
    assert(run(base, StageView::Base, kind, text, 8) == run(base, s1, kind, text, 7));
    if kind(base) == PathKind::Other {
        let s2 = kind_answered(base, s1, kind(pkg));
        assert(run(base, s1, kind, text, 7) == run(base, s2, kind, text, 6));
        if kind(pkg) == PathKind::Missing {
            lemma_run_candidates(base, kind, text, 0, 6);
        } else {
            let s3 = text_answered(base, s2, text(pkg));
            assert(run(base, s2, kind, text, 6) == run(base, s3, kind, text, 5));
            match text(pkg) {
                Err(e) => {
                    assert(run(base, s3, kind, text, 5) == s3);
                },
                Ok(t) => match package_main_field(t) {
                    None => {
                        assert(run(base, s3, kind, text, 5) == s3);
                    },
                    Some(None) => {
                        lemma_run_candidates(base, kind, text, 0, 5);
                    },
                    Some(Some(m)) => {
                        let main = path_joined(base, trimmed(m));
                        let s4 = kind_answered(base, s3, kind(main));
                        assert(run(base, s3, kind, text, 5) == run(base, s4, kind, text, 4));
                        if kind(main) == PathKind::File {
                            assert(run(base, s4, kind, text, 4) == s4);
                        } else {
                            lemma_run_candidates(base, kind, text, 0, 4);
                        }
                    },
                },
            }
        }
    } else {
        assert(run(base, s1, kind, text, 7) == s1);
    }
}

impl EntryError {
    /// The message shown for the error.
    pub fn describe(&self) -> (m: String)
        ensures
            m@ == match self.view() {
                ErrorView::PathNotFound(p) => "Path does not exist: "@ + p,
                ErrorView::PackageJsonReadError(e) => "Cannot read package.json: "@ + e,
                ErrorView::InvalidPackageJson => "Invalid package.json format"@,
                ErrorView::NoEntryFound(p) => "No entry file found in "@ + p
                    + ". Looked for: package.json main, index.ts, index.js, main.ts, main.js"@,
            },
    {
        match self {
            EntryError::PathNotFound(p) => concat("Path does not exist: ", p.as_str()),
            EntryError::PackageJsonReadError(e) => concat("Cannot read package.json: ", e.as_str()),
            EntryError::InvalidPackageJson => String::from_str("Invalid package.json format"),
            EntryError::NoEntryFound(p) => {
                let mut m = concat("No entry file found in ", p.as_str());
                m.append(". Looked for: package.json main, index.ts, index.js, main.ts, main.js");
                m
            },
        }
    }
}

/// A directory whose `package.json` is missing, or names no `main`, is
/// entered by the first of `index.ts`, `index.js`, `main.ts` and `main.js`
/// in it that is a file: `index.ts` whenever it is one, whatever else
/// exists; when none is a file, the search fails with no entry found.
pub proof fn law_usual_entry_files_in_order(base: Seq<char>, kind: spec_fn(Seq<char>) -> PathKind,
    text: spec_fn(Seq<char>) -> Result<Seq<char>, Seq<char>>)
    requires
        kind(base) == PathKind::Other,
        kind(package_path(base)) == PathKind::Missing
            || (text(package_path(base)) matches Ok(t) && package_main_field(t) == Some::<Option<Seq<char>>>(None)),
    ensures
        kind(path_joined(base, "index.ts"@)) == PathKind::File
            ==> entry_of(base, kind, text) == StageView::Found(path_joined(base, "index.ts"@)),
        kind(path_joined(base, "index.ts"@)) != PathKind::File
            && kind(path_joined(base, "index.js"@)) == PathKind::File
            ==> entry_of(base, kind, text) == StageView::Found(path_joined(base, "index.js"@)),
        kind(path_joined(base, "index.ts"@)) != PathKind::File
            && kind(path_joined(base, "index.js"@)) != PathKind::File
            && kind(path_joined(base, "main.ts"@)) == PathKind::File
            ==> entry_of(base, kind, text) == StageView::Found(path_joined(base, "main.ts"@)),
        kind(path_joined(base, "index.ts"@)) != PathKind::File
            && kind(path_joined(base, "index.js"@)) != PathKind::File
            && kind(path_joined(base, "main.ts"@)) != PathKind::File
            && kind(path_joined(base, "main.js"@)) == PathKind::File
            ==> entry_of(base, kind, text) == StageView::Found(path_joined(base, "main.js"@)),
        kind(path_joined(base, "index.ts"@)) != PathKind::File
            && kind(path_joined(base, "index.js"@)) != PathKind::File
            && kind(path_joined(base, "main.ts"@)) != PathKind::File
            && kind(path_joined(base, "main.js"@)) != PathKind::File
            ==> entry_of(base, kind, text) == StageView::Failed(ErrorView::NoEntryFound(base)),
{
    assert(entry_of(base, kind, text) == first_candidate(base, kind, 0));
    reveal_with_fuel(first_candidate, 5);
}

} // verus!
