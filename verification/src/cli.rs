//! The command line of the bytecode tool.

use vstd::prelude::*;

verus! {

/// The command line: the bytecode file to load, whether to print its
/// instructions, whether to show more (the constants and basic blocks too),
/// and whether to run it.
pub struct Options {
    pub file: Option<String>,
    pub dump_op: bool,
    pub verbose: bool,
    pub run: bool,
}

} // verus!
