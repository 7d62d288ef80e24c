//! The commands that the tool accepts, as plain values.
use vstd::prelude::*;

verus! {

/// One command and its arguments.
pub enum Commands {
    Create { name: String, script: String },
    Start { name: String, port: Option<String> },
    Stop { name: String },
    List,
    Enter { name: String },
    Logs { name: String },
    Remove { name: String },
    Update,
}

/// A parsed command line.
pub struct Cli {
    pub command: Commands,
}

} // verus!
