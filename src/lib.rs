//! Task execution and lifecycle management for a code-generation assistant:
//! the task status store, the code-generation step machine, and the text and
//! path rules that the generation workload relies on.

pub mod db;
pub mod file;
pub mod llm;
pub mod storage;
pub mod task;
pub mod text;

use vstd::prelude::*;

verus! {

/// A generated file that the user chose to save.
#[derive(Debug, Clone)]
pub struct CodeFile {
    pub name: String,
    pub path: String,
    pub content: String,
}

} // verus!
