//! Arm instructions of the Armv8-M subset: their structure, their textual
//! form, and a reader for the few that matter.

pub mod format;
pub mod inst;
pub mod parse;
