//! What the tool is asked to do.

use crate::utils::text::join;
use vstd::prelude::*;

verus! {

/// The directory to scan, the file to write, and whether to report progress.
pub struct Configuration {
    pub directory: String,
    pub output: String,
    pub use_debug: bool,
}

/// How a flag reads in a description.
pub open spec fn flag_text(flag: bool) -> Seq<char> {
    if flag {
        "true"@
    } else {
        "false"@
    }
}

/// The one-line description of a configuration.
pub open spec fn description_of(directory: Seq<char>, output: Seq<char>, use_debug: bool) -> Seq<
    char,
> {
    "(directory="@ + directory + ", output="@ + output + ", debug="@ + flag_text(use_debug)
        + ")\n"@
}

/// The report of a configuration, line by line.
pub open spec fn report_of(directory: Seq<char>, output: Seq<char>, use_debug: bool) -> Seq<char> {
    "Configuration\n=============\nDirectory: "@ + directory + "\nOutput:    "@ + output
        + "\nDebug:     "@ + flag_text(use_debug) + "\n"@
}

impl Configuration {
    /// The configuration as a report of five lines: a title, a rule, and one
    /// line each for the directory, the output and the flag.
    pub fn report(&self) -> (r: String)
        ensures
            r@ == report_of(self.directory@, self.output@, self.use_debug),
    {
        let mut s = join("Configuration\n=============\nDirectory: ", self.directory.as_str());
        s.append("\nOutput:    ");
        s.append(self.output.as_str());
        s.append("\nDebug:     ");
        if self.use_debug {
            s.append("true");
        } else {
            s.append("false");
        }
        s.append("\n");
        s
    }

    /// The configuration on one line, ended by a line feed.
    pub fn description(&self) -> (r: String)
        ensures
            r@ == description_of(self.directory@, self.output@, self.use_debug),
    {
        let mut s = join("(directory=", self.directory.as_str());
        s.append(", output=");
        s.append(self.output.as_str());
        s.append(", debug=");
        if self.use_debug {
            s.append("true");
        } else {
            s.append("false");
        }
        s.append(")\n");
        s
    }
}

} // verus!
