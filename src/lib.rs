//! Finding annotated comments (TODO, FIX, WARNING, NOTE) in source text, and
//! choosing which entries of a directory walk to scan for them.
//!
//! The column of an annotation is 1-based and counts the leading blanks, the
//! comment opener and its optional space: `"  // TODO: x"` has column 6,
//! `"//TODO: x"` column 3.
use vstd::prelude::*;

pub mod chars;
pub mod scan;
pub mod todo;
pub mod todo_type;
pub mod tree;

pub use scan::{scan_file, FileScan};
pub use todo::{parse_todo, LineMismatch, Todo};
pub use todo_type::{contains_todo_type, TodoType};
pub use tree::{parse_ignore_list, scan_entries, Entry, ScanConfig, ScanReport, ScanSummary};

verus! {

} // verus!
