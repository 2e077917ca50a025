//! Starting the JavaScript runtime next to a transformed application:
//! where it lives, how long to wait for it to report ready, which status
//! messages arrived meanwhile, and the commands sent to it.

use vstd::prelude::*;
use crate::dashboard::StatusMessage;
use crate::project::{join_path, parent_of, path_joined, path_parent};
use crate::rpc::{json_object, json_string, member};
use crate::text::same_text;

verus! {

/// How many times the runtime is polled for its ready notice.
pub const READY_ATTEMPTS: u32 = 20;

/// The runtime's directory for the transformed application at `app_path`:
/// `runtime` beside the directory that holds the application's directory.
pub open spec fn runtime_dir_for(app_path: Seq<char>) -> Option<Seq<char>> {
    match path_parent(app_path) {
        Some(p) => match path_parent(p) {
            Some(q) => Some(path_joined(q, "runtime"@)),
            None => None,
        },
        None => None,
    }
}

/// The runtime's directory for the application at `app_path`, when the
/// path has two levels of parents.
pub fn runtime_dir(app_path: &str) -> (d: Option<String>)
    ensures
        match d {
            Some(x) => runtime_dir_for(app_path@) == Some(x@),
            None => runtime_dir_for(app_path@) is None,
        },
{
    match parent_of(app_path) {
        Some(p) => match parent_of(p.as_str()) {
            Some(q) => Some(join_path(q.as_str(), "runtime")),
            None => None,
        },
        None => None,
    }
}

/// The runtime's entry script, its log and its error log, in `dir`.
pub fn runtime_files(dir: &str) -> (f: (String, String, String))
    ensures
        f.0@ == path_joined(dir@, "index.ts"@),
        f.1@ == path_joined(dir@, "runtime.log"@),
        f.2@ == path_joined(dir@, "runtime.error.log"@),
{
    (join_path(dir, "index.ts"), join_path(dir, "runtime.log"), join_path(dir, "runtime.error.log"))
}

/// Waiting for the runtime to report ready: how often it was polled,
/// whether it is ready, and the status messages received meanwhile, to be
/// handed out in order afterwards.
#[derive(Debug)]
pub struct RuntimeStartup {
    pub attempts: u32,
    pub ready: bool,
    pub buffered: Vec<StatusMessage>,
}

/// Whether `m` is the runtime's ready notice.
pub open spec fn is_ready_notice(m: StatusMessage) -> bool {
    m.kind matches Some(k) && k@ == "runtime_ready"@
}

impl RuntimeStartup {
    /// Nothing polled yet.
    pub fn new() -> (s: Self)
        ensures
            s.attempts == 0,
            !s.ready,
            s.buffered@.len() == 0,
    {
        RuntimeStartup { attempts: 0, ready: false, buffered: Vec::new() }
    }

    /// Whether to poll again: not ready, and fewer than twenty polls made.
    pub fn keep_waiting(&self) -> (r: bool)
        ensures
            r == (self.attempts < READY_ATTEMPTS && !self.ready),
    {
        self.attempts < READY_ATTEMPTS && !self.ready
    }

    /// Records one poll and the status message it brought, if any: the
    /// message is kept, and the ready notice ends the wait.
    pub fn polled(&mut self, message: Option<StatusMessage>)
        requires
            old(self).attempts < READY_ATTEMPTS,
        ensures
            final(self).attempts == old(self).attempts + 1,
            match message {
                Some(m) => final(self).buffered@ == old(self).buffered@.push(m)
                    && final(self).ready == (old(self).ready || is_ready_notice(m)),
                None => final(self).buffered@ == old(self).buffered@ && final(self).ready == old(self).ready,
            },
    {
        self.attempts = self.attempts + 1;
        if let Some(m) = message {
            let ready_notice = match &m.kind {
                Some(k) => same_text(k.as_str(), "runtime_ready"),
                None => false,
            };
            if ready_notice {
                self.ready = true;
            }
            self.buffered.push(m);
        }
    }

    /// The oldest status message received while waiting, if any is left.
    pub fn next_buffered(&mut self) -> (m: Option<StatusMessage>)
        ensures
            old(self).buffered@.len() == 0 ==> m is None && final(self).buffered@ == old(self).buffered@,
            old(self).buffered@.len() > 0 ==> m == Some(old(self).buffered@[0])
                && final(self).buffered@ == old(self).buffered@.drop_first(),
            final(self).attempts == old(self).attempts,
            final(self).ready == old(self).ready,
    {
        if self.buffered.len() == 0 {
            None
        } else {
            Some(self.buffered.remove(0))
        }
    }
}

/// A command for the runtime: a JSON object whose `type` is `kind`.
pub open spec fn command_json(kind: Seq<char>) -> Seq<char> {
    json_object(seq![member("type"@, json_string(kind))])
}

/// The command that makes the runtime load the application.
pub fn load_app_command() -> (c: String)
    ensures
        c@ == command_json("load_app"@),
{
    crate::rpc::typed_object("load_app")
}

/// The command that makes the runtime shut down.
pub fn shutdown_command() -> (c: String)
    ensures
        c@ == command_json("shutdown"@),
{
    crate::rpc::typed_object("shutdown")
}

} // verus!
