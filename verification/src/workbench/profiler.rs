//! The workbench's profiler scene: totals of a sample session, the functions
//! ranked by time and by calls, and the memory they used.

use vstd::prelude::*;
use crate::profiler::{ordered_by_keys, order_by_keys, SortDirection};
use crate::text::{decimal, decimal_string, digit, digit_char, push_char};

verus! {

/// One profiled function: its time, how often it ran, and the time per call.
#[derive(Clone, Debug)]
pub struct Function {
    pub name: String,
    pub ms: u32,
    pub call_count: u32,
    pub avg: u32,
}

/// Memory figures, in tenths of a megabyte, and the objects created.
#[derive(Clone, Copy, Debug)]
pub struct MemoryUsage {
    pub peak_ram_tenths: u64,
    pub current_ram_tenths: u64,
    pub objects_created: i32,
}

/// The scene's state. The total execution time is held in tenths of a
/// second, the unit in which the scene shows it.
#[derive(Debug)]
pub struct PerformanceProfileState {
    pub total_execution_tenths: Option<u64>,
    pub function_count: Option<u32>,
    pub average: Option<u32>,
    pub functions: Vec<Function>,
    pub memory_usage: MemoryUsage,
}

/// A function as plain values: name, time, calls, time per call.
pub open spec fn function_view(f: Function) -> (Seq<char>, u32, u32, u32) {
    (f.name@, f.ms, f.call_count, f.avg)
}

/// The functions of the sample session, in the order they are held.
pub open spec fn sample_functions() -> Seq<(Seq<char>, u32, u32, u32)> {
    seq![
        ("connectDB"@, 120u32, 12u32, 23u32),
        ("fetchUser"@, 45u32, 10u32, 5u32),
        ("processOrder"@, 25u32, 8u32, 1u32),
        ("loadConfig"@, 15u32, 6u32, 1u32),
        ("initApp"@, 2u32, 1u32, 1u32),
        ("calculateTax"@, 23u32, 12u32, 23u32),
        ("validateInput"@, 5u32, 10u32, 5u32),
        ("formatCurrency"@, 1u32, 8u32, 1u32),
        ("logEvent"@, 1u32, 6u32, 1u32),
    ]
}

/// `t` tenths written with one decimal, as `{:.1}` writes `t / 10`.
pub open spec fn tenths_text(t: nat) -> Seq<char> {
    decimal(t / 10).push('.').push(digit_char(t % 10))
}

/// The statistics line; an absent figure counts as zero.
pub open spec fn stats_text(total_tenths: Option<u64>, count: Option<u32>, average: Option<u32>) -> Seq<char> {
    let t: nat = match total_tenths { Some(t) => t as nat, None => 0 };
    let c: nat = match count { Some(c) => c as nat, None => 0 };
    let a: nat = match average { Some(a) => a as nat, None => 0 };
    "Total Execution: "@ + tenths_text(t) + "s         Functions: "@ + decimal(c)
        + "         Average: "@ + decimal(a) + "ms per function"@
}

/// The memory line's two figures; the object count is written by the caller.
pub open spec fn memory_text(m: MemoryUsage) -> Seq<char> {
    "Peak: "@ + tenths_text(m.peak_ram_tenths as nat) + " MB       Current: "@
        + tenths_text(m.current_ram_tenths as nat) + " MB       Objects Created: "@
}

/// The keys under which a stable ascending sort lists `values` largest first,
/// ties in the order they are held.
pub open spec fn descending_keys(values: Seq<u32>) -> Seq<i64> {
    Seq::new(values.len(), |i: int| (0 - values[i]) as i64)
}

pub open spec fn times(fs: Seq<Function>) -> Seq<u32> {
    Seq::new(fs.len(), |i: int| fs[i].ms)
}

pub open spec fn call_counts(fs: Seq<Function>) -> Seq<u32> {
    Seq::new(fs.len(), |i: int| fs[i].call_count)
}

fn function(name: &str, ms: u32, call_count: u32, avg: u32) -> (f: Function)
    ensures
        function_view(f) == (name@, ms, call_count, avg),
{
    Function { name: String::from_str(name), ms, call_count, avg }
}

/// `t` tenths written with one decimal.
pub fn tenths_string(t: u64) -> (s: String)
    ensures
        s@ == tenths_text(t as nat),
{
    let mut s = decimal_string(t / 10);
    push_char(&mut s, '.');
    push_char(&mut s, digit(t % 10));
    s
}

/// The positions of `values`, largest value first; equal values keep the
/// order in which they are held.
fn largest_first(values: &Vec<u32>) -> (order: Vec<usize>)
    ensures
        ordered_by_keys(descending_keys(values@), order@, SortDirection::Asc),
{
    let mut keys: Vec<i64> = Vec::new();
    let mut i: usize = 0;
    while i < values.len()
        invariant
            i <= values@.len(),
            keys@ == descending_keys(values@).take(i as int),
        decreases values.len() - i,
    {
        keys.push(0i64 - values[i] as i64);
        i += 1;
        assert(keys@ =~= descending_keys(values@).take(i as int));
    }
    assert(keys@ =~= descending_keys(values@));
    order_by_keys(&keys, SortDirection::Asc)
}

impl PerformanceProfileState {
    /// The sample session: 1.2 s in all, 23 functions, 52 ms on average,
    /// nine profiled functions, 45.2 MB at peak, 32.1 MB now, 1247 objects.
    pub fn new() -> (s: Self)
        ensures
            s.total_execution_tenths == Some(12u64),
            s.function_count == Some(23u32),
            s.average == Some(52u32),
            s.functions@.len() == sample_functions().len(),
            forall|i: int|
                0 <= i < s.functions@.len() ==> function_view(#[trigger] s.functions@[i])
                    == sample_functions()[i],
            s.memory_usage.peak_ram_tenths == 452,
            s.memory_usage.current_ram_tenths == 321,
            s.memory_usage.objects_created == 1247,
    {
        let functions = vec![
            function("connectDB", 120, 12, 23),
            function("fetchUser", 45, 10, 5),
            function("processOrder", 25, 8, 1),
            function("loadConfig", 15, 6, 1),
            function("initApp", 2, 1, 1),
            function("calculateTax", 23, 12, 23),
            function("validateInput", 5, 10, 5),
            function("formatCurrency", 1, 8, 1),
            function("logEvent", 1, 6, 1),
        ];
        PerformanceProfileState {
            total_execution_tenths: Some(12),
            function_count: Some(23),
            average: Some(52),
            functions,
            memory_usage: MemoryUsage { peak_ram_tenths: 452, current_ram_tenths: 321, objects_created: 1247 },
        }
    }

    /// Saving a report leaves the scene as it is.
    pub fn save_report(&mut self)
        ensures
            *final(self) == *old(self),
    {
    }

    /// Exporting to CSV leaves the scene as it is.
    pub fn export_csv(&mut self)
        ensures
            *final(self) == *old(self),
    {
    }

    /// The statistics line at the top of the scene.
    pub fn stats_line(&self) -> (s: String)
        ensures
            s@ == stats_text(self.total_execution_tenths, self.function_count, self.average),
    {
        let t = match self.total_execution_tenths { Some(t) => t, None => 0 };
        let c = match self.function_count { Some(c) => c, None => 0 };
        let a = match self.average { Some(a) => a, None => 0 };
        let mut s = String::from_str("Total Execution: ");
        s.append(tenths_string(t).as_str());
        s.append("s         Functions: ");
        s.append(decimal_string(c as u64).as_str());
        s.append("         Average: ");
        s.append(decimal_string(a as u64).as_str());
        s.append("ms per function");
        s
    }

    /// The memory line up to the object count.
    pub fn memory_line(&self) -> (s: String)
        ensures
            s@ == memory_text(self.memory_usage),
    {
        let mut s = String::from_str("Peak: ");
        s.append(tenths_string(self.memory_usage.peak_ram_tenths).as_str());
        s.append(" MB       Current: ");
        s.append(tenths_string(self.memory_usage.current_ram_tenths).as_str());
        s.append(" MB       Objects Created: ");
        s
    }

    /// The functions' positions as the slowest-functions panel lists them:
    /// most time first, equal times in the order they are held.
    pub fn slowest_first(&self) -> (order: Vec<usize>)
        ensures
            ordered_by_keys(descending_keys(times(self.functions@)), order@, SortDirection::Asc),
    {
        let mut ms: Vec<u32> = Vec::new();
        let mut i: usize = 0;
        while i < self.functions.len()
            invariant
                i <= self.functions@.len(),
                ms@ == times(self.functions@).take(i as int),
            decreases self.functions.len() - i,
        {
            ms.push(self.functions[i].ms);
            i += 1;
            assert(ms@ =~= times(self.functions@).take(i as int));
        }
        assert(ms@ =~= times(self.functions@));
        largest_first(&ms)
    }

    /// The functions' positions as the call-frequency panel lists them:
    /// most calls first, equal counts in the order they are held.
    pub fn most_called_first(&self) -> (order: Vec<usize>)
        ensures
            ordered_by_keys(descending_keys(call_counts(self.functions@)), order@, SortDirection::Asc),
    {
        let mut calls: Vec<u32> = Vec::new();
        let mut i: usize = 0;
        while i < self.functions.len()
            invariant
                i <= self.functions@.len(),
                calls@ == call_counts(self.functions@).take(i as int),
            decreases self.functions.len() - i,
        {
            calls.push(self.functions[i].call_count);
            i += 1;
            assert(calls@ =~= call_counts(self.functions@).take(i as int));
        }
        assert(calls@ =~= call_counts(self.functions@));
        largest_first(&calls)
    }
}

} // verus!
