//! The workbench's dashboard: the file being debugged, where execution is
//! paused, a timeline of calls and a log panel, starting from a sample
//! session.

use vstd::prelude::*;
use crate::clock::local_time_of_day;
use crate::dashboard::{is_log_line, log_effect, LOG_CAPACITY};
use crate::text::{append, concat, decimal, decimal_string, same_text};

verus! {

#[derive(Clone, Copy, Debug, PartialEq, Eq, Structural)]
pub enum FunctionStatus {
    Completed,
    Skipped,
    Current,
    Pending,
}

/// One call on the timeline.
#[derive(Debug)]
pub struct TimelineFunction {
    pub name: String,
    pub status: FunctionStatus,
    pub duration: Option<String>,
}

#[derive(Debug)]
pub struct DashboardState {
    pub file_path: Option<String>,
    pub runtime: String,
    pub execution_time: String,
    pub status: String,
    pub current_function: Option<String>,
    pub current_line: Option<u32>,
    pub called_by: Option<String>,
    pub stack_depth: u32,
    pub timeline_functions: Vec<TimelineFunction>,
    pub logs: Vec<String>,
}

/// `after` is `before` with `msg` logged: a time-stamped line added, the
/// oldest dropped beyond the panel's capacity; nothing else changed.
pub open spec fn logged_once(before: DashboardState, after: DashboardState, msg: Seq<char>) -> bool {
    &&& log_effect(before.logs@, after.logs@, seq![msg])
    &&& after == (DashboardState { logs: after.logs, ..before })
}

pub open spec fn is_entry(f: TimelineFunction, name: Seq<char>, status: FunctionStatus, duration: Option<Seq<char>>) -> bool {
    &&& f.name@ == name
    &&& f.status == status
    &&& match (f.duration, duration) {
        (Some(d), Some(e)) => d@ == e,
        (None, None) => true,
        _ => false,
    }
}

/// The timeline's first entry named `name`, if any, given `status` and
/// `duration`.
pub open spec fn status_updated(before: Seq<TimelineFunction>, after: Seq<TimelineFunction>, name: Seq<char>,
    status: FunctionStatus, duration: Option<String>) -> bool {
    &&& after.len() == before.len()
    &&& (forall|i: int| 0 <= i < before.len() ==> before[i].name@ != name) ==> after == before
    &&& forall|i: int| 0 <= i < before.len() && before[i].name@ == name
        && (forall|j: int| 0 <= j < i ==> before[j].name@ != name) ==> after == before.update(i,
            TimelineFunction { name: before[i].name, status, duration })
}

fn entry(name: &str, status: FunctionStatus, duration: Option<&str>) -> (f: TimelineFunction)
    ensures
        is_entry(f, name@, status, match duration { Some(d) => Some(d@), None => None }),
{
    TimelineFunction {
        name: String::from_str(name),
        status,
        duration: match duration {
            Some(d) => Some(String::from_str(d)),
            None => None,
        },
    }
}

impl DashboardState {
    /// The sample session: four calls completed, `calculateTax` current,
    /// three lines logged, ready on Bun.
    pub fn new() -> (s: Self)
        ensures
            s.file_path is None,
            s.runtime@ == "Bun v1.3.2"@,
            s.execution_time@ == "0s"@,
            s.status@ == "Ready"@,
            s.current_function is None,
            s.current_line is None,
            s.called_by is None,
            s.stack_depth == 0,
            s.timeline_functions@.len() == 5,
            is_entry(s.timeline_functions@[0], "initApp"@, FunctionStatus::Completed, Some("2ms"@)),
            is_entry(s.timeline_functions@[1], "loadConfig"@, FunctionStatus::Completed, Some("15ms"@)),
            is_entry(s.timeline_functions@[2], "connectDB"@, FunctionStatus::Completed, Some("120ms"@)),
            is_entry(s.timeline_functions@[3], "fetchUser"@, FunctionStatus::Completed, Some("45ms"@)),
            is_entry(s.timeline_functions@[4], "calculateTax"@, FunctionStatus::Current, None),
            s.logs@.len() == 3,
            s.logs@[0]@ == "System initialized"@,
            s.logs@[1]@ == "Ready to start debugging..."@,
            s.logs@[2]@ == "Waiting for user input..."@,
    {
        let mut timeline_functions: Vec<TimelineFunction> = Vec::new();
        timeline_functions.push(entry("initApp", FunctionStatus::Completed, Some("2ms")));
        timeline_functions.push(entry("loadConfig", FunctionStatus::Completed, Some("15ms")));
        timeline_functions.push(entry("connectDB", FunctionStatus::Completed, Some("120ms")));
        timeline_functions.push(entry("fetchUser", FunctionStatus::Completed, Some("45ms")));
        timeline_functions.push(entry("calculateTax", FunctionStatus::Current, None));
        let mut logs: Vec<String> = Vec::new();
        logs.push(String::from_str("System initialized"));
        logs.push(String::from_str("Ready to start debugging..."));
        logs.push(String::from_str("Waiting for user input..."));
        DashboardState {
            file_path: None,
            runtime: String::from_str("Bun v1.3.2"),
            execution_time: String::from_str("0s"),
            status: String::from_str("Ready"),
            current_function: None,
            current_line: None,
            called_by: None,
            stack_depth: 0,
            timeline_functions,
            logs,
        }
    }

    /// Logs `message`, time-stamped; the oldest line goes when the panel is
    /// full.
    pub fn add_log(&mut self, message: String)
        ensures
            logged_once(*old(self), *final(self), message@),
    {
        let t = local_time_of_day();
        let mut line = String::from_str("[");
        line.append(t.as_str());
        line.append("] ");
        line.append(message.as_str());
        proof {
            reveal_strlit("[");
            reveal_strlit("] ");
            assert(line@.subrange(11, line@.len() as int) =~= message@);
            assert forall|i: int| 0 <= i < 8 implies line@[1 + i] == t@[i] by {
                assert(line@.subrange(1, 9) =~= t@);
                assert(line@.subrange(1, 9)[i] == line@[1 + i]);
            }
        }
        let ghost before = self.logs@;
        self.logs.push(line);
        if self.logs.len() > LOG_CAPACITY {
            self.logs.remove(0);
        }
        proof {
            let after = self.logs@;
            let d = if before.len() >= LOG_CAPACITY { 1nat } else { 0nat };
            assert(after.subrange(0, after.len() - 1) =~= before.subrange(d as int, before.len() as int));
            assert(after[after.len() - 1 + 0]@ == line@);
        }
    }

    /// Records the file being debugged, logged.
    pub fn set_file(&mut self, file: String)
        ensures
            logged_once(DashboardState { file_path: Some(file), ..*old(self) }, *final(self),
                "File loaded successfully"@),
    {
        self.file_path = Some(file);
        self.add_log(String::from_str("File loaded successfully"));
    }

    /// Records where execution paused, logged as `Paused at f() line n`.
    pub fn set_current_checkpoint(&mut self, function: String, line: u32, called_by: Option<String>)
        ensures
            logged_once(DashboardState {
                current_function: Some(function),
                current_line: Some(line),
                called_by: called_by,
                ..*old(self)
            }, *final(self), "Paused at "@ + function@ + "() line "@ + decimal(line as nat)),
    {
        let mut message = concat("Paused at ", function.as_str());
        append(&mut message, "() line ");
        let digits = decimal_string(line as u64);
        append(&mut message, digits.as_str());
        self.current_function = Some(function);
        self.current_line = Some(line);
        self.called_by = called_by;
        self.add_log(message);
    }

    /// Appends a call to the timeline.
    pub fn add_timeline_function(&mut self, function: TimelineFunction)
        ensures
            final(self).timeline_functions@ == old(self).timeline_functions@.push(function),
            *final(self) == (DashboardState { timeline_functions: final(self).timeline_functions, ..*old(self) }),
    {
        self.timeline_functions.push(function);
    }

    /// Gives the first call named `name` on the timeline a new status and
    /// duration; nothing changes when there is none.
    pub fn update_function_status(&mut self, name: &str, status: FunctionStatus, duration: Option<String>)
        ensures
            status_updated(old(self).timeline_functions@, final(self).timeline_functions@, name@, status, duration),
            *final(self) == (DashboardState { timeline_functions: final(self).timeline_functions, ..*old(self) }),
    {
        let mut i: usize = 0;
        while i < self.timeline_functions.len()
            invariant
                i <= self.timeline_functions@.len(),
                self.timeline_functions@ == old(self).timeline_functions@,
                *self == *old(self),
                forall|j: int| 0 <= j < i ==> self.timeline_functions@[j].name@ != name@,
            decreases self.timeline_functions.len() - i,
        {
            if same_text(self.timeline_functions[i].name.as_str(), name) {
                let ghost before = self.timeline_functions@;
                let old_name = self.timeline_functions[i].name.clone();
                self.timeline_functions.set(i, TimelineFunction { name: old_name, status, duration });
                assert(self.timeline_functions@ == before.update(i as int,
                    TimelineFunction { name: before[i as int].name, status, duration }));
                proof {
                    assert forall|k: int| 0 <= k < before.len() && before[k].name@ == name@
                        && (forall|j: int| 0 <= j < k ==> before[j].name@ != name@) implies k == i by {
                        if k < i {
                        } else if k > i {
                            assert(before[i as int].name@ == name@);
                        }
                    }
                }
                return;
            }
            i += 1;
        }
    }

    pub fn update_execution_time(&mut self, time: String)
        ensures
            *final(self) == (DashboardState { execution_time: time, ..*old(self) }),
    {
        self.execution_time = time;
    }

    /// Sets the status, logged as `Status: s`.
    pub fn set_status(&mut self, status: String)
        ensures
            final(self).status == status,
            logged_once(DashboardState { status: final(self).status, ..*old(self) }, *final(self),
                "Status: "@ + status@),
    {
        let message = concat("Status: ", status.as_str());
        self.status = status;
        self.add_log(message);
    }
}

} // verus!
