//! Date source: renders the current local date and time under a
//! configurable strftime-style format.

use vstd::prelude::*;
use vstd::string::StringExecFns;

use crate::device::SourceError;
use crate::section::Component;

verus! {

/// Whether chrono's strftime scanner accepts every item of the format
/// string; a function of the format string alone.
pub uninterp spec fn strftime_accepts(f: Seq<char>) -> bool;

/// Relies on chrono's `StrftimeItems`: scanning a format string yields its
/// formatting items, with an error item exactly for an unrecognized
/// specifier, and depends on the format string alone.
#[verifier::external_body]
fn strftime_is_valid(f: &str) -> (r: bool)
    ensures
        r == strftime_accepts(f@),
{
    chrono::format::strftime::StrftimeItems::new(f).parse().is_ok()
}

/// Relies on chrono's `Local::now` and `DateTime::format`: formatting the
/// current local time under a format string all of whose items were
/// accepted writes each item and fails on none of them. Nothing is stated
/// of the result: it depends on the clock.
#[verifier::external_body]
fn local_now_formatted(f: &str) -> (r: String)
    requires
        strftime_accepts(f@),
{
    format!("{}", chrono::Local::now().format(f))
}

/// Date configuration: poll interval, format string and icon.
pub struct Date {
    pub time: Option<u64>,
    pub format: Option<String>,
    pub icon: Option<String>,
}

impl Date {
    /// The configured poll interval, in milliseconds.
    pub open spec fn spec_time(&self) -> u64 {
        match self.time {
            Some(t) => t,
            None => 1000,
        }
    }

    /// The configured format string.
    pub open spec fn spec_format(&self) -> Seq<char> {
        match self.format {
            Some(f) => f@,
            None => "%A %d/%m/%Y %H:%M"@,
        }
    }

    /// The configured icon.
    pub open spec fn spec_icon(&self) -> Seq<char> {
        match self.icon {
            Some(i) => i@,
            None => "\u{f133} "@,
        }
    }

    /// What converting may return: success exactly when the format string
    /// is accepted, with the configured icon and no label; the rendered
    /// value itself depends on the clock and is not pinned down.
    pub open spec fn spec_outcome<'a>(&self, r: Result<Component<'a>, SourceError>) -> bool {
        &&& r is Ok <==> strftime_accepts(self.spec_format())
        &&& (r matches Ok(c) ==> c.icon@ == self.spec_icon() && c.name@ == Seq::<char>::empty())
        &&& (r matches Err(e) ==> e == SourceError::Malformed)
    }

    /// Renders the current local time under the configured format.
    pub fn convert(&self) -> (r: Result<Component<'_>, SourceError>)
        ensures
            self.spec_outcome(r),
    {
        proof {
            reveal_strlit("");
        }
        let format: &str = match &self.format {
            Some(f) => f.as_str(),
            None => "%A %d/%m/%Y %H:%M",
        };
        if !strftime_is_valid(format) {
            return Err(SourceError::Malformed);
        }
        let formatted = local_now_formatted(format);
        let icon: &str = match &self.icon {
            Some(i) => i.as_str(),
            None => "\u{f133} ",
        };
        proof {
            assert(""@ =~= Seq::<char>::empty());
        }
        Ok(Component { icon, name: "", value: formatted })
    }

    /// The poll interval, in milliseconds.
    pub fn time(&self) -> (t: u64)
        ensures
            t == self.spec_time(),
    {
        match self.time {
            Some(t) => t,
            None => 1000,
        }
    }
}

impl Default for Date {
    /// The built-in date configuration.
    fn default() -> (d: Self)
        ensures
            d.time == Some(1000u64),
            d.format matches Some(f) && f@ == "%A %d/%m/%Y %H:%M"@,
            d.icon matches Some(i) && i@ == "\u{f133} "@,
    {
        Date {
            time: Some(1000),
            format: Some(String::from_str("%A %d/%m/%Y %H:%M")),
            icon: Some(String::from_str("\u{f133} ")),
        }
    }
}

} // verus!
