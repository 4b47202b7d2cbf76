//! The plain option values that select what a run produces: the
//! grouping of the listing and the shape of the attribution bundle.
use vstd::prelude::*;

verus! {

/// How the listing groups its output: one line per license, or one
/// line per crate.
#[derive(Debug, Clone, Copy, PartialEq, Eq, Structural)]
pub enum By {
    License,
    Crate,
}

/// Which attribution bundle variant to produce, each with its
/// output locations.
#[derive(Debug, PartialEq, Eq)]
pub enum Bundle {
    Inline { file: Option<String> },
    NameOnly { file: Option<String> },
    Source { file: Option<String> },
    Split { file: Option<String>, dir: String },
}

impl By {
    /// Parses the grouping argument; anything but the two known
    /// names is rejected.
    pub fn from_name(s: &str) -> (r: Option<By>)
        ensures
            r == Some(By::License) <==> s@ == "license"@,
            r == Some(By::Crate) <==> s@ == "crate"@,
            r is None <==> s@ != "license"@ && s@ != "crate"@,
    {
        proof {
            reveal_strlit("license");
            reveal_strlit("crate");
            assert("license"@.len() != "crate"@.len());
        }
        if crate::parse::eq_str(s, "license") {
            Some(By::License)
        } else if crate::parse::eq_str(s, "crate") {
            Some(By::Crate)
        } else {
            None
        }
    }
}

} // verus!
