//! Verified core of an interactive checkpoint debugger for TypeScript and
//! JavaScript programs.

pub mod cache;
pub mod clock;
pub mod dashboard;
pub mod entry;
pub mod history;
pub mod instrument;
pub mod ipc;
pub mod json;
pub mod panels;
pub mod profiler;
pub mod project;
pub mod rpc;
pub mod runtime;
pub mod text;
pub mod transform;
pub mod tui;
pub mod workbench;
