//! The workbench front end: a scene stack over a dashboard, a variable
//! editor and a profiler showing a sample session.

pub mod app;
pub mod dashboard;
pub mod profiler;
pub mod variable_editor;
