//! Volume source: renders the playback volume of the default mixer as a
//! percentage of its range, or a muted marker.

use vstd::prelude::*;
use vstd::string::StringExecFns;

use crate::device::SourceError;
use crate::device::outcome_matches;
use crate::section::Component;
use crate::section::SectionSpec;
use crate::text::dec_digits;
use crate::text::rounded_div;
use crate::text::rounded_percent;
use crate::text::u64_string;

verus! {

/// What the mixer reported: muted, or playing at a volume within the
/// mixer's own range.
pub enum VolumeLevel {
    Muted,
    Active { volume: i64, min: i64, max: i64 },
}

/// A value forced into the closed interval from `lo` to `hi`.
pub open spec fn clamped(v: int, lo: int, hi: int) -> int {
    if v < lo {
        lo
    } else if v > hi {
        hi
    } else {
        v
    }
}

/// The volume's place in the mixer range, as a percentage rounded to the
/// nearest whole number; a volume outside the range counts as its nearer end.
pub open spec fn volume_percent(volume: int, min: int, max: int) -> int {
    rounded_div((clamped(volume, min, max) - min) * 100, max - min)
}

/// Volume configuration: poll interval, label and the two state icons.
pub struct Volume {
    pub time: Option<u64>,
    pub name: Option<String>,
    pub icon_active: Option<String>,
    pub icon_muted: Option<String>,
}

impl Volume {
    /// The configured poll interval, in milliseconds.
    pub open spec fn spec_time(&self) -> u64 {
        match self.time {
            Some(t) => t,
            None => 100,
        }
    }

    /// The configured label.
    pub open spec fn spec_name(&self) -> Seq<char> {
        match self.name {
            Some(n) => n@,
            None => "VOL"@,
        }
    }

    /// The icon for a mixer state.
    pub open spec fn spec_icon(&self, muted: bool) -> Seq<char> {
        if muted {
            match self.icon_muted {
                Some(i) => i@,
                None => "\u{f0581} "@,
            }
        } else {
            match self.icon_active {
                Some(i) => i@,
                None => "\u{f028} "@,
            }
        }
    }

    /// The section rendered from a mixer reading: unavailable without one,
    /// a muted marker when muted, malformed for an empty volume range, else
    /// the volume as a share of the range.
    pub open spec fn spec_convert(&self, level: Option<VolumeLevel>) -> Result<
        SectionSpec,
        SourceError,
    > {
        match level {
            None => Err(SourceError::Unavailable),
            Some(VolumeLevel::Muted) => Ok(
                SectionSpec {
                    icon: self.spec_icon(true),
                    name: self.spec_name(),
                    value: "MUTED"@,
                },
            ),
            Some(VolumeLevel::Active { volume, min, max }) => {
                if min < max {
                    Ok(
                        SectionSpec {
                            icon: self.spec_icon(false),
                            name: self.spec_name(),
                            value: dec_digits(
                                volume_percent(volume as int, min as int, max as int) as nat,
                            ) + "%"@,
                        },
                    )
                } else {
                    Err(SourceError::Malformed)
                }
            },
        }
    }

    /// Renders the volume section from a mixer reading.
    pub fn convert(&self, level: Option<VolumeLevel>) -> (r: Result<Component<'_>, SourceError>)
        ensures
            outcome_matches(r, self.spec_convert(level)),
    {
        let state = match level {
            Some(s) => s,
            None => {
                return Err(SourceError::Unavailable);
            },
        };
        let name: &str = match &self.name {
            Some(n) => n.as_str(),
            None => "VOL",
        };
        match state {
            VolumeLevel::Muted => {
                let icon: &str = match &self.icon_muted {
                    Some(i) => i.as_str(),
                    None => "\u{f0581} ",
                };
                Ok(Component { icon, name, value: String::from_str("MUTED") })
            },
            VolumeLevel::Active { volume, min, max } => {
                if !(min < max) {
                    return Err(SourceError::Malformed);
                }
                let cl: i64 = if volume < min {
                    min
                } else if volume > max {
                    max
                } else {
                    volume
                };
                let part_wide = (cl as i128) - (min as i128);
                let whole_wide = (max as i128) - (min as i128);
                let part = part_wide as u64;
                let whole = whole_wide as u64;
                let mut value = u64_string(rounded_percent(part, whole));
                value.append("%");
                let icon: &str = match &self.icon_active {
                    Some(i) => i.as_str(),
                    None => "\u{f028} ",
                };
                Ok(Component { icon, name, value })
            },
        }
    }

    /// The poll interval, in milliseconds.
    pub fn time(&self) -> (t: u64)
        ensures
            t == self.spec_time(),
    {
        match self.time {
            Some(t) => t,
            None => 100,
        }
    }
}

impl Default for Volume {
    /// The built-in volume configuration.
    fn default() -> (d: Self)
        ensures
            d.time == Some(100u64),
            d.name matches Some(n) && n@ == "VOL"@,
            d.icon_active matches Some(i) && i@ == "\u{f028} "@,
            d.icon_muted matches Some(i) && i@ == "\u{f0581} "@,
    {
        Volume {
            time: Some(100),
            name: Some(String::from_str("VOL")),
            icon_active: Some(String::from_str("\u{f028} ")),
            icon_muted: Some(String::from_str("\u{f0581} ")),
        }
    }
}

} // verus!
