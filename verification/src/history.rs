//! The execution history scene: the calls made so far, with what each did.

use vstd::prelude::*;
use crate::text::{decimal, decimal_string, digit, digit_char, push_char};

verus! {

/// What became of a call.
#[derive(Clone, Copy, Debug, PartialEq, Eq, Structural)]
pub enum CallStatus {
    Exec,
    Skip,
    Pause,
}

/// One call in the history.
#[derive(Debug)]
pub struct FunctionCall {
    pub time: String,
    pub function: String,
    pub status: CallStatus,
    pub duration: String,
    pub return_value: String,
}

pub open spec fn status_text(s: CallStatus) -> Seq<char> {
    match s {
        CallStatus::Exec => "✓ Exec"@,
        CallStatus::Skip => "⊘ Skip"@,
        CallStatus::Pause => "⏸ Pause"@,
    }
}

/// The status column's text for a call.
pub fn status_label(s: CallStatus) -> (t: &'static str)
    ensures
        t@ == status_text(s),
{
    match s {
        CallStatus::Exec => "✓ Exec",
        CallStatus::Skip => "⊘ Skip",
        CallStatus::Pause => "⏸ Pause",
    }
}

/// The call history scene's state: totals over the run and the calls made.
/// The total running time is held in whole milliseconds.
#[derive(Debug)]
pub struct ExecutionHistoryState {
    pub total_functions: u32,
    pub skipped: u32,
    pub executed: u32,
    pub total_time_ms: u32,
    pub function_calls: Vec<FunctionCall>,
    pub selected_index: usize,
}

/// A call as plain values: time, function, status, duration, return value.
pub open spec fn call_view(c: FunctionCall) -> (Seq<char>, Seq<char>, CallStatus, Seq<char>, Seq<char>) {
    (c.time@, c.function@, c.status, c.duration@, c.return_value@)
}

/// The calls that a fresh history scene shows, in order.
pub open spec fn sample_calls() -> Seq<(Seq<char>, Seq<char>, CallStatus, Seq<char>, Seq<char>)> {
    seq![
        ("0.0ms"@, "initApp()"@, CallStatus::Exec, "2ms"@, "undefined"@),
        ("2.1ms"@, "loadConfig()"@, CallStatus::Exec, "15ms"@, "{...}"@),
        ("17.3ms"@, "connectDB()"@, CallStatus::Exec, "120ms"@, "Connection"@),
        ("137.8ms"@, "fetchUser()"@, CallStatus::Exec, "45ms"@, "User{id:123}"@),
        ("183.2ms"@, "validateUser()"@, CallStatus::Skip, "0ms"@, "true (injected)"@),
        ("183.3ms"@, "loadPermissions()"@, CallStatus::Skip, "0ms"@, "['read','write']"@),
        ("183.4ms"@, "processOrder()"@, CallStatus::Exec, "25ms"@, "order{...}"@),
        ("208.7ms"@, "calculateTax()"@, CallStatus::Pause, "?"@, "?"@),
    ]
}

/// The fraction digits of `r` thousandths (`0 < r < 1000`), without trailing zeros.
pub open spec fn thousandths(r: nat) -> Seq<char> {
    let d1 = r / 100;
    let d2 = (r / 10) % 10;
    let d3 = r % 10;
    if d3 != 0 {
        seq![digit_char(d1), digit_char(d2), digit_char(d3)]
    } else if d2 != 0 {
        seq![digit_char(d1), digit_char(d2)]
    } else {
        seq![digit_char(d1)]
    }
}

/// `ms` milliseconds written in seconds, in the shortest decimal form:
/// `1200` is `1.2`, `1000` is `1`, `5` is `0.005`.
pub open spec fn seconds_text(ms: nat) -> Seq<char> {
    if ms % 1000 == 0 {
        decimal(ms / 1000)
    } else {
        decimal(ms / 1000).push('.') + thousandths(ms % 1000)
    }
}

/// The summary line above the call table.
pub open spec fn summary_text(total: nat, skipped: nat, executed: nat, ms: nat) -> Seq<char> {
    "Total Functions: "@ + decimal(total) + "    Skipped: "@ + decimal(skipped)
        + "    Executed: "@ + decimal(executed) + "    Total Time: "@ + seconds_text(ms) + "s"@
}

fn call(time: &str, function: &str, status: CallStatus, duration: &str, return_value: &str) -> (c:
    FunctionCall)
    ensures
        call_view(c) == (time@, function@, status, duration@, return_value@),
{
    FunctionCall {
        time: String::from_str(time),
        function: String::from_str(function),
        status,
        duration: String::from_str(duration),
        return_value: String::from_str(return_value),
    }
}

/// `ms` milliseconds written in seconds, as `seconds_text` says.
pub fn seconds_string(ms: u32) -> (s: String)
    ensures
        s@ == seconds_text(ms as nat),
{
    let mut s = decimal_string((ms / 1000) as u64);
    let r = ms % 1000;
    if r != 0 {
        push_char(&mut s, '.');
        let d1 = r / 100;
        let d2 = (r / 10) % 10;
        let d3 = r % 10;
        push_char(&mut s, digit(d1 as u64));
        if d2 != 0 || d3 != 0 {
            push_char(&mut s, digit(d2 as u64));
        }
        if d3 != 0 {
            push_char(&mut s, digit(d3 as u64));
        }
    }
    s
}

impl ExecutionHistoryState {
    /// A history scene showing the sample run: 23 functions, 5 skipped,
    /// 18 executed, 1.2 s in all, the first call selected.
    pub fn new() -> (s: Self)
        ensures
            s.total_functions == 23,
            s.skipped == 5,
            s.executed == 18,
            s.total_time_ms == 1200,
            s.selected_index == 0,
            s.function_calls@.len() == sample_calls().len(),
            forall|i: int|
                0 <= i < s.function_calls@.len() ==> call_view(#[trigger] s.function_calls@[i])
                    == sample_calls()[i],
    {
        let function_calls = vec![
            call("0.0ms", "initApp()", CallStatus::Exec, "2ms", "undefined"),
            call("2.1ms", "loadConfig()", CallStatus::Exec, "15ms", "{...}"),
            call("17.3ms", "connectDB()", CallStatus::Exec, "120ms", "Connection"),
            call("137.8ms", "fetchUser()", CallStatus::Exec, "45ms", "User{id:123}"),
            call("183.2ms", "validateUser()", CallStatus::Skip, "0ms", "true (injected)"),
            call("183.3ms", "loadPermissions()", CallStatus::Skip, "0ms", "['read','write']"),
            call("183.4ms", "processOrder()", CallStatus::Exec, "25ms", "order{...}"),
            call("208.7ms", "calculateTax()", CallStatus::Pause, "?", "?"),
        ];
        ExecutionHistoryState {
            total_functions: 23,
            skipped: 5,
            executed: 18,
            total_time_ms: 1200,
            function_calls,
            selected_index: 0,
        }
    }

    /// The summary line: the three counts and the total time in seconds.
    pub fn summary(&self) -> (s: String)
        ensures
            s@ == summary_text(
                self.total_functions as nat,
                self.skipped as nat,
                self.executed as nat,
                self.total_time_ms as nat,
            ),
    {
        let mut s = String::from_str("Total Functions: ");
        s.append(decimal_string(self.total_functions as u64).as_str());
        s.append("    Skipped: ");
        s.append(decimal_string(self.skipped as u64).as_str());
        s.append("    Executed: ");
        s.append(decimal_string(self.executed as u64).as_str());
        s.append("    Total Time: ");
        s.append(seconds_string(self.total_time_ms).as_str());
        s.append("s");
        s
    }
}

} // verus!
