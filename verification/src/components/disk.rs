//! Disk source: renders how much of a file system is in use, as a
//! percentage of its total size.

use vstd::prelude::*;
use vstd::string::StringExecFns;

use crate::device::SourceError;
use crate::device::outcome_matches;
use crate::section::Component;
use crate::section::SectionSpec;
use crate::text::dec_digits;
use crate::text::floor_percent;
use crate::text::sat_sub;
use crate::text::u64_string;

verus! {

/// Disk configuration: poll interval, label, icon and the mount point.
pub struct Disk {
    pub time: Option<u64>,
    pub name: Option<String>,
    pub icon: Option<String>,
    pub unit: Option<String>,
}

impl Disk {
    /// The configured poll interval, in milliseconds.
    pub open spec fn spec_time(&self) -> u64 {
        match self.time {
            Some(t) => t,
            None => 2000,
        }
    }

    /// The configured label.
    pub open spec fn spec_name(&self) -> Seq<char> {
        match self.name {
            Some(n) => n@,
            None => "DISK"@,
        }
    }

    /// The configured icon.
    pub open spec fn spec_icon(&self) -> Seq<char> {
        match self.icon {
            Some(i) => i@,
            None => "\u{f02ca} "@,
        }
    }

    /// The section rendered from a file-system reading of total and
    /// available bytes: unavailable without a reading, malformed for a
    /// zero-sized file system, else the used share rounded down.
    pub open spec fn spec_convert(&self, reading: Option<(u64, u64)>) -> Result<
        SectionSpec,
        SourceError,
    > {
        match reading {
            None => Err(SourceError::Unavailable),
            Some((total, available)) => {
                if total == 0 {
                    Err(SourceError::Malformed)
                } else {
                    let used = sat_sub(total as int, available as int);
                    Ok(
                        SectionSpec {
                            icon: self.spec_icon(),
                            name: self.spec_name(),
                            value: dec_digits(((used * 100) / (total as int)) as nat) + "%"@,
                        },
                    )
                }
            },
        }
    }

    /// Renders the disk section from a reading of total and available bytes.
    pub fn convert(&self, reading: Option<(u64, u64)>) -> (r: Result<Component<'_>, SourceError>)
        ensures
            outcome_matches(r, self.spec_convert(reading)),
    {
        let (total, available) = match reading {
            Some(p) => p,
            None => {
                return Err(SourceError::Unavailable);
            },
        };
        if total == 0 {
            return Err(SourceError::Malformed);
        }
        let used = if total >= available {
            total - available
        } else {
            0
        };
        let mut value = u64_string(floor_percent(used, total));
        value.append("%");
        let name: &str = match &self.name {
            Some(n) => n.as_str(),
            None => "DISK",
        };
        let icon: &str = match &self.icon {
            Some(i) => i.as_str(),
            None => "\u{f02ca} ",
        };
        Ok(Component { icon, name, value })
    }

    /// The poll interval, in milliseconds.
    pub fn time(&self) -> (t: u64)
        ensures
            t == self.spec_time(),
    {
        match self.time {
            Some(t) => t,
            None => 2000,
        }
    }
}

impl Default for Disk {
    /// The built-in disk configuration, watching the root file system.
    fn default() -> (d: Self)
        ensures
            d.time == Some(2000u64),
            d.name matches Some(n) && n@ == "DISK"@,
            d.icon matches Some(i) && i@ == "\u{f02ca} "@,
            d.unit matches Some(u) && u@ == "/"@,
    {
        Disk {
            time: Some(2000),
            name: Some(String::from_str("DISK")),
            icon: Some(String::from_str("\u{f02ca} ")),
            unit: Some(String::from_str("/")),
        }
    }
}

} // verus!
