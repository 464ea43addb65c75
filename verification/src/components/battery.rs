//! Battery source: renders the charge percentage read from a sysfs
//! capacity file, with an icon for the charge level.

use vstd::prelude::*;
use vstd::string::StringExecFns;

use crate::device::SourceError;
use crate::device::outcome_matches;
use crate::section::Component;
use crate::section::SectionSpec;
use crate::text::dec_digits;
use crate::text::is_u64_text;
use crate::text::parse_u8;
use crate::text::trim;
use crate::text::trimmed;
use crate::text::u64_string;
use crate::text::u64_text_val;

verus! {

/// Battery configuration: poll interval, label, per-level icons and the
/// path of the capacity file that is read for it.
pub struct Battery {
    pub time: Option<u64>,
    pub name: Option<String>,
    pub icon_full: Option<String>,
    pub icon_medium: Option<String>,
    pub icon_low: Option<String>,
    pub path: Option<String>,
}

impl Battery {
    /// The configured poll interval, in milliseconds.
    pub open spec fn spec_time(&self) -> u64 {
        match self.time {
            Some(t) => t,
            None => 1000,
        }
    }

    /// The configured label.
    pub open spec fn spec_name(&self) -> Seq<char> {
        match self.name {
            Some(n) => n@,
            None => "BAT"@,
        }
    }

    /// The icon for a charge percentage: full above 80, medium above 40,
    /// low otherwise.
    pub open spec fn spec_icon(&self, capacity: nat) -> Seq<char> {
        if capacity > 80 {
            match self.icon_full {
                Some(i) => i@,
                None => "\u{f0079}"@,
            }
        } else if capacity > 40 {
            match self.icon_medium {
                Some(i) => i@,
                None => "\u{f007f}"@,
            }
        } else {
            match self.icon_low {
                Some(i) => i@,
                None => "\u{f007a}"@,
            }
        }
    }

    /// The section rendered from the capacity file's contents: unavailable
    /// without contents, malformed unless the trimmed contents are a decimal
    /// percentage that fits in a byte, and otherwise the percentage with the
    /// icon of its level.
    pub open spec fn spec_convert(&self, contents: Option<String>) -> Result<
        SectionSpec,
        SourceError,
    > {
        match contents {
            None => Err(SourceError::Unavailable),
            Some(c) => {
                let t = trimmed(c@);
                if is_u64_text(t) && u64_text_val(t) <= u8::MAX {
                    Ok(
                        SectionSpec {
                            icon: self.spec_icon(u64_text_val(t)),
                            name: self.spec_name(),
                            value: dec_digits(u64_text_val(t)) + "%"@,
                        },
                    )
                } else {
                    Err(SourceError::Malformed)
                }
            },
        }
    }

    /// Renders the battery section from the capacity file's contents.
    pub fn convert(&self, contents: Option<String>) -> (r: Result<Component<'_>, SourceError>)
        ensures
            outcome_matches(r, self.spec_convert(contents)),
    {
        let c = match contents {
            Some(c) => c,
            None => {
                return Err(SourceError::Unavailable);
            },
        };
        let battery_percentage = match parse_u8(trim(c.as_str())) {
            Some(v) => v,
            None => {
                return Err(SourceError::Malformed);
            },
        };
        let mut total = u64_string(battery_percentage as u64);
        total.append("%");
        let name: &str = match &self.name {
            Some(n) => n.as_str(),
            None => "BAT",
        };
        let icon: &str = if battery_percentage > 80 {
            match &self.icon_full {
                Some(i) => i.as_str(),
                None => "\u{f0079}",
            }
        } else if battery_percentage > 40 {
            match &self.icon_medium {
                Some(i) => i.as_str(),
                None => "\u{f007f}",
            }
        } else {
            match &self.icon_low {
                Some(i) => i.as_str(),
                None => "\u{f007a}",
            }
        };
        Ok(Component { icon, name, value: total })
    }

    /// The poll interval, in milliseconds.
    pub fn time(&self) -> (t: u64)
        ensures
            t == self.spec_time(),
    {
        match self.time {
            Some(t) => t,
            None => 1000,
        }
    }
}

impl Default for Battery {
    /// The built-in battery configuration.
    fn default() -> (d: Self)
        ensures
            d.time == Some(1000u64),
            d.name matches Some(n) && n@ == "BAT"@,
            d.icon_full matches Some(i) && i@ == "\u{f0079}"@,
            d.icon_medium matches Some(i) && i@ == "\u{f007f}"@,
            d.icon_low matches Some(i) && i@ == "\u{f007a}"@,
            d.path matches Some(p) && p@ == "/sys/class/power_supply/BAT0/capacity"@,
    {
        Battery {
            time: Some(1000),
            name: Some(String::from_str("BAT")),
            icon_full: Some(String::from_str("\u{f0079}")),
            icon_medium: Some(String::from_str("\u{f007f}")),
            icon_low: Some(String::from_str("\u{f007a}")),
            path: Some(String::from_str("/sys/class/power_supply/BAT0/capacity")),
        }
    }
}

} // verus!
