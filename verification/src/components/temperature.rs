//! Temperature source: renders a thermal-zone reading, given in
//! thousandths of a degree, as whole degrees Celsius.

use vstd::prelude::*;
use vstd::string::StringExecFns;

use crate::device::SourceError;
use crate::device::outcome_matches;
use crate::section::Component;
use crate::section::SectionSpec;
use crate::text::dec_int;
use crate::text::i64_string;
use crate::text::is_i64_text;
use crate::text::parse_i64;
use crate::text::signed_val;
use crate::text::trim;
use crate::text::trimmed;

verus! {

/// A reading in thousandths of a unit, rounded to whole units; halves
/// round away from zero.
pub open spec fn milli_to_unit(m: int) -> int {
    if m >= 0 {
        (m + 500) / 1000
    } else {
        -(((-m) + 500) / 1000)
    }
}

/// Temperature configuration: poll interval, label, icon and the number
/// of the thermal zone that is read for it.
pub struct Temperature {
    pub time: Option<u64>,
    pub name: Option<String>,
    pub icon: Option<String>,
    pub zone: Option<u8>,
}

impl Temperature {
    /// The configured poll interval, in milliseconds.
    pub open spec fn spec_time(&self) -> u64 {
        match self.time {
            Some(t) => t,
            None => 1000,
        }
    }

    /// The configured label.
    pub open spec fn spec_name(&self) -> Seq<char> {
        match self.name {
            Some(n) => n@,
            None => "TEMP"@,
        }
    }

    /// The configured icon.
    pub open spec fn spec_icon(&self) -> Seq<char> {
        match self.icon {
            Some(i) => i@,
            None => "\u{f03c8} "@,
        }
    }

    /// The configured thermal zone.
    pub open spec fn spec_zone(&self) -> u8 {
        match self.zone {
            Some(z) => z,
            None => 0,
        }
    }

    /// The section rendered from the zone file's contents: unavailable
    /// without contents, malformed unless the trimmed contents are a signed
    /// decimal number of millidegrees, else whole degrees Celsius.
    pub open spec fn spec_convert(&self, contents: Option<String>) -> Result<
        SectionSpec,
        SourceError,
    > {
        match contents {
            None => Err(SourceError::Unavailable),
            Some(c) => {
                let t = trimmed(c@);
                if is_i64_text(t) {
                    Ok(
                        SectionSpec {
                            icon: self.spec_icon(),
                            name: self.spec_name(),
                            value: dec_int(milli_to_unit(signed_val(t))) + "\u{b0}C"@,
                        },
                    )
                } else {
                    Err(SourceError::Malformed)
                }
            },
        }
    }

    /// Renders the temperature section from the zone file's contents.
    pub fn convert(&self, contents: Option<String>) -> (r: Result<Component<'_>, SourceError>)
        ensures
            outcome_matches(r, self.spec_convert(contents)),
    {
        let c = match contents {
            Some(c) => c,
            None => {
                return Err(SourceError::Unavailable);
            },
        };
        let temp_milli = match parse_i64(trim(c.as_str())) {
            Some(v) => v,
            None => {
                return Err(SourceError::Malformed);
            },
        };
        let degrees: i64 = if temp_milli >= 0 {
            let q = ((temp_milli as i128) + 500) / 1000;
            proof {
                assert(0 <= q <= i64::MAX) by (nonlinear_arith)
                    requires
                        q == ((temp_milli as int) + 500) / 1000,
                        0 <= (temp_milli as int) <= i64::MAX,
                ;
            }
            q as i64
        } else {
            let q = ((-(temp_milli as i128)) + 500) / 1000;
            proof {
                assert(0 <= q && -q >= i64::MIN) by (nonlinear_arith)
                    requires
                        q == (-(temp_milli as int) + 500) / 1000,
                        i64::MIN <= (temp_milli as int) < 0,
                ;
            }
            (-q) as i64
        };
        let mut value = i64_string(degrees);
        value.append("\u{b0}C");
        let name: &str = match &self.name {
            Some(n) => n.as_str(),
            None => "TEMP",
        };
        let icon: &str = match &self.icon {
            Some(i) => i.as_str(),
            None => "\u{f03c8} ",
        };
        Ok(Component { icon, name, value })
    }

    /// The poll interval, in milliseconds.
    pub fn time(&self) -> (t: u64)
        ensures
            t == self.spec_time(),
    {
        match self.time {
            Some(t) => t,
            None => 1000,
        }
    }

    /// The thermal zone whose file is read.
    pub fn zone_number(&self) -> (z: u8)
        ensures
            z == self.spec_zone(),
    {
        match self.zone {
            Some(z) => z,
            None => 0,
        }
    }
}

impl Default for Temperature {
    /// The built-in temperature configuration, watching zone zero.
    fn default() -> (d: Self)
        ensures
            d.time == Some(1000u64),
            d.name matches Some(n) && n@ == "TEMP"@,
            d.icon matches Some(i) && i@ == "\u{f03c8} "@,
            d.zone == Some(0u8),
    {
        Temperature {
            time: Some(1000),
            name: Some(String::from_str("TEMP")),
            icon: Some(String::from_str("\u{f03c8} ")),
            zone: Some(0),
        }
    }
}

} // verus!
