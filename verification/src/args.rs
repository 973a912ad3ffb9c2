//! Command-line arguments, as plain data.
//!
//! Parsing the command line happens in the surrounding program; the library
//! only fixes what the arguments are and their defaults.

use vstd::prelude::*;
use vstd::string::StringExecFns;

verus! {

/// The arguments the program accepts: the directory holding the
/// configuration, the current one by default.
#[derive(Debug)]
pub struct Args {
    pub directory: String,
}

impl Default for Args {
    fn default() -> (r: Self)
        ensures
            r.directory@ == "./"@,
    {
        Args { directory: String::from_str("./") }
    }
}

} // verus!
