//! Verified core of the `issuectl` command line: argument value parsers,
//! text handling, the requests that edit flags stand for, the
//! machine-readable help, the picker and reception queue, shell-completion
//! values, TODO-marker scanning, and the text of every report the command
//! line prints.
use vstd::prelude::*;

pub mod aging;
pub mod apply;
pub mod args;
pub mod bulk;
pub mod cli;
pub mod commits;
pub mod complete;
pub mod counts;
pub mod cycles;
pub mod diff;
pub mod display;
pub mod editor;
pub mod formatting;
pub mod help;
pub mod history;
pub mod input;
pub mod intake;
pub mod keys;
pub mod labels;
pub mod laws;
pub mod metrics;
pub mod migrate;
pub mod notes;
pub mod number;
pub mod order;
pub mod outcomes;
pub mod pick;
pub mod ready;
pub mod refs;
pub mod rename;
pub mod report;
pub mod request;
pub mod scan;
pub mod schedule;
pub mod scope;
pub mod settings;
pub mod skills;
pub mod stamp;
pub mod stats;
pub mod sync;
pub mod table;
pub mod text;
pub mod todo;
pub mod tree;
pub mod update;
pub mod usage;

verus! {

} // verus!
