//! What a log line is made of.

use vstd::prelude::*;

use crate::level::Level;

verus! {

/// A log record, with the name of the thread that wrote it.
#[derive(Clone, Debug)]
pub struct Record {
    pub level: Level,
    /// What the record is about, typically the module path of the call site.
    pub target: String,
    /// The formatted message.
    pub args: String,
    /// The module path of the call site.
    pub module: Option<String>,
    pub file: Option<String>,
    pub line: Option<u32>,
    pub thread_name: Option<String>,
}

} // verus!
