//! Where the dump commands start their search for log files.
use std::path::PathBuf;
use vstd::prelude::*;

verus! {

/// Dumps the first decoded entries of every log file under a path.
pub struct Dump {
    pub start_path: PathBuf,
}

impl Dump {
    pub fn new(start_path: PathBuf) -> (r: Dump)
        ensures
            r.start_path == start_path,
    {
        Dump { start_path }
    }
}

/// Dumps every decoded entry of every log file under a path.
pub struct DumpEntries {
    pub start_path: PathBuf,
}

impl DumpEntries {
    pub fn new(start_path: PathBuf) -> (r: DumpEntries)
        ensures
            r.start_path == start_path,
    {
        DumpEntries { start_path }
    }
}

/// Reconstructs the calls of every log file under a path.
pub struct DumpCalls {
    pub start_path: PathBuf,
}

impl DumpCalls {
    pub fn new(start_path: PathBuf) -> (r: DumpCalls)
        ensures
            r.start_path == start_path,
    {
        DumpCalls { start_path }
    }
}

} // verus!
