//! The list of hostnames to resolve.  The lines themselves are read from a
//! file or from standard input outside the library and handed in as plain
//! strings.

use vstd::prelude::*;

verus! {

/// The immutable list of target hostnames for one run.
#[derive(Debug)]
pub struct Input {
    hosts: Vec<String>,
}

impl View for Input {
    type V = Seq<String>;

    closed spec fn view(&self) -> Seq<String> {
        self.hosts@
    }
}

impl Input {
    /// Wraps the host list read from the input source, one hostname per line.
    pub fn new(lines: Vec<String>) -> (r: Self)
        ensures
            r@ == lines@,
    {
        Self { hosts: lines }
    }

    /// Hands the host list back out to start the run.
    pub fn hosts(self) -> (r: Vec<String>)
        ensures
            r@ == self@,
    {
        self.hosts
    }
}

/// Derives the output file path from the requested path and the output
/// format: the format name is appended to the file name as an extension.
pub fn make_path(path: &str, format: &str) -> (r: String)
    ensures
        r@ == path@ + "."@ + format@,
{
    let mut r = String::new();
    r.append(path);
    r.append(".");
    r.append(format);
    proof {
        assert(r@ =~= path@ + "."@ + format@);
    }
    r
}

} // verus!
