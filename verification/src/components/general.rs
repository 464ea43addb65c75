//! General settings: the separator placed between status-line sections.

use vstd::prelude::*;
use vstd::string::StringExecFns;

verus! {

/// General configuration.
pub struct General {
    pub separator: Option<String>,
}

impl Default for General {
    /// The built-in settings: sections separated by a vertical bar.
    fn default() -> (d: Self)
        ensures
            d.separator matches Some(s) && s@ == "|"@,
    {
        General { separator: Some(String::from_str("|")) }
    }
}

} // verus!
