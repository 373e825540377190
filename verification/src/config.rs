//! The compiler's settings, as read from the command line.
use std::path::PathBuf;

use vstd::prelude::*;

verus! {

/// `std::path::PathBuf`, carried through as an opaque value.
#[verifier::external_type_specification]
#[verifier::external_body]
pub struct ExPathBuf(PathBuf);

/// The name of the output file when none is given.
pub open spec fn default_output_name() -> Seq<char> {
    "a.out"@
}

/// What the compiler is asked to do: the source file, the output file and
/// whether debug mode is on.
#[derive(Debug)]
pub struct PetalConfig {
    pub src: PathBuf,
    pub output_file_name: String,
    pub debug_mode: bool,
}

impl PetalConfig {
    /// The settings for the given arguments: the output file is `output`
    /// where one was given, else `a.out`.
    pub fn new(src: PathBuf, output: Option<String>, debug_mode: bool) -> (c: Self)
        ensures
            c.src == src,
            c.output_file_name@ == match output {
                Some(o) => o@,
                None => default_output_name(),
            },
            c.debug_mode == debug_mode,
    {
        let output_file_name = match output {
            Some(o) => o,
            None => {
                proof {
                    reveal_strlit("a.out");
                }
                String::from_str("a.out")
            },
        };
        PetalConfig { src, output_file_name, debug_mode }
    }
}

} // verus!
