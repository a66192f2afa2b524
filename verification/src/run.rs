//! The engine-facing shell of the command-line runner.
//!
//! The runner itself reads a source file, drives the compiler pipeline
//! and performs output: all of that stays outside the verified library.
//! What lives here is the plain data the runner hands around: its options
//! and the kernel value whose callbacks the interpreter invokes.

use vstd::prelude::*;

verus! {

/// Command-line options of the runner: the path of the program to run.
#[derive(Clone, Debug, PartialEq, Eq)]
pub struct Options {
    pub path: String,
}

impl Options {
    pub fn new(path: String) -> (o: Options)
        ensures
            o.path@ == path@,
    {
        Options { path }
    }
}

/// The runner's kernel: the set of host callbacks (printing, breakpoint
/// handling) the interpreter calls back into.  The callbacks themselves
/// perform output and belong to the host; the kernel value is plain.
pub struct Kernel {}

impl Kernel {
    pub fn new() -> Kernel {
        Kernel {  }
    }
}

} // verus!
