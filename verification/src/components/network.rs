//! Network source: renders reachability of a well-known address as an
//! up or down icon, with no value text.

use vstd::prelude::*;
use vstd::string::StringExecFns;

use crate::device::SourceError;
use crate::device::outcome_matches;
use crate::section::Component;
use crate::section::SectionSpec;

verus! {

/// Network configuration: poll interval, label and the two state icons.
pub struct Network {
    pub time: Option<u64>,
    pub name: Option<String>,
    pub icon_up: Option<String>,
    pub icon_down: Option<String>,
}

impl Network {
    /// The configured poll interval, in milliseconds.
    pub open spec fn spec_time(&self) -> u64 {
        match self.time {
            Some(t) => t,
            None => 1000,
        }
    }

    /// The configured label.
    pub open spec fn spec_name(&self) -> Seq<char> {
        match self.name {
            Some(n) => n@,
            None => "NET"@,
        }
    }

    /// The icon for a probe result.
    pub open spec fn spec_icon(&self, up: bool) -> Seq<char> {
        if up {
            match self.icon_up {
                Some(i) => i@,
                None => "\u{f0002} "@,
            }
        } else {
            match self.icon_down {
                Some(i) => i@,
                None => "\u{f0be1} "@,
            }
        }
    }

    /// The section rendered from a probe result: unavailable when the probe
    /// could not be carried out, else the up or down icon and an empty value.
    pub open spec fn spec_convert(&self, probe: Option<bool>) -> Result<
        SectionSpec,
        SourceError,
    > {
        match probe {
            None => Err(SourceError::Unavailable),
            Some(up) => Ok(
                SectionSpec {
                    icon: self.spec_icon(up),
                    name: self.spec_name(),
                    value: Seq::<char>::empty(),
                },
            ),
        }
    }

    /// Renders the network section from a probe result.
    pub fn convert(&self, probe: Option<bool>) -> (r: Result<Component<'_>, SourceError>)
        ensures
            outcome_matches(r, self.spec_convert(probe)),
    {
        let up = match probe {
            Some(up) => up,
            None => {
                return Err(SourceError::Unavailable);
            },
        };
        let icon: &str = if up {
            match &self.icon_up {
                Some(i) => i.as_str(),
                None => "\u{f0002} ",
            }
        } else {
            match &self.icon_down {
                Some(i) => i.as_str(),
                None => "\u{f0be1} ",
            }
        };
        let name: &str = match &self.name {
            Some(n) => n.as_str(),
            None => "NET",
        };
        Ok(Component { icon, name, value: String::new() })
    }

    /// The poll interval, in milliseconds.
    pub fn time(&self) -> (t: u64)
        ensures
            t == self.spec_time(),
    {
        match self.time {
            Some(t) => t,
            None => 1000,
        }
    }
}

impl Default for Network {
    /// The built-in network configuration.
    fn default() -> (d: Self)
        ensures
            d.time == Some(1000u64),
            d.name matches Some(n) && n@ == "NET"@,
            d.icon_up matches Some(i) && i@ == "\u{f0002} "@,
            d.icon_down matches Some(i) && i@ == "\u{f0be1} "@,
    {
        Network {
            time: Some(1000),
            name: Some(String::from_str("NET")),
            icon_up: Some(String::from_str("\u{f0002} ")),
            icon_down: Some(String::from_str("\u{f0be1} ")),
        }
    }
}

} // verus!
