//! Script source: renders what an external shell script printed, or its
//! error output behind an error marker.

use vstd::prelude::*;
use vstd::string::StringExecFns;

use crate::device::SourceError;
use crate::device::outcome_matches;
use crate::section::Component;
use crate::section::SectionSpec;

verus! {

/// What running an external command produced: whether it exited
/// successfully, and its standard output text.
pub struct RunOutput {
    pub success: bool,
    pub stdout: String,
}

/// Script configuration: poll interval, label, icon and the script path.
pub struct Script {
    pub time: Option<u64>,
    pub name: Option<String>,
    pub icon: Option<String>,
    pub path: String,
}

impl Script {
    /// The configured poll interval, in milliseconds.
    pub open spec fn spec_time(&self) -> u64 {
        match self.time {
            Some(t) => t,
            None => 1000,
        }
    }

    /// The configured label.
    pub open spec fn spec_name(&self) -> Seq<char> {
        match self.name {
            Some(n) => n@,
            None => "SCR"@,
        }
    }

    /// The configured icon.
    pub open spec fn spec_icon(&self) -> Seq<char> {
        match self.icon {
            Some(i) => i@,
            None => "\u{f0bc1} "@,
        }
    }

    /// The section rendered from a run of the script: unavailable when the
    /// script could not be started, a failure when it exited with a
    /// non-zero status (the slot then keeps its stale value), and its
    /// output as the value otherwise.
    pub open spec fn spec_convert(&self, run: Option<RunOutput>) -> Result<
        SectionSpec,
        SourceError,
    > {
        match run {
            None => Err(SourceError::Unavailable),
            Some(o) => {
                if o.success {
                    Ok(
                        SectionSpec {
                            icon: self.spec_icon(),
                            name: self.spec_name(),
                            value: o.stdout@,
                        },
                    )
                } else {
                    Err(SourceError::Failed)
                }
            },
        }
    }

    /// Renders the script section from a run of the script.
    pub fn convert(&self, run: Option<RunOutput>) -> (r: Result<Component<'_>, SourceError>)
        ensures
            outcome_matches(r, self.spec_convert(run)),
    {
        let o = match run {
            Some(o) => o,
            None => {
                return Err(SourceError::Unavailable);
            },
        };
        if !o.success {
            return Err(SourceError::Failed);
        }
        let name: &str = match &self.name {
            Some(n) => n.as_str(),
            None => "SCR",
        };
        let icon: &str = match &self.icon {
            Some(i) => i.as_str(),
            None => "\u{f0bc1} ",
        };
        Ok(Component { icon, name, value: o.stdout })
    }

    /// The poll interval, in milliseconds.
    pub fn time(&self) -> (t: u64)
        ensures
            t == self.spec_time(),
    {
        match self.time {
            Some(t) => t,
            None => 1000,
        }
    }
}

impl Default for Script {
    /// The built-in script configuration, with an empty script path.
    fn default() -> (d: Self)
        ensures
            d.time == Some(1000u64),
            d.name matches Some(n) && n@ == "SCR"@,
            d.icon matches Some(i) && i@ == "\u{f0bc1} "@,
            d.path@ == Seq::<char>::empty(),
    {
        Script {
            time: Some(1000),
            name: Some(String::from_str("SCR")),
            icon: Some(String::from_str("\u{f0bc1} ")),
            path: String::new(),
        }
    }
}

} // verus!
