//! Memory source: renders how much memory is in use, read from the
//! kernel's meminfo lines, as a percentage of the total.

use vstd::prelude::*;
use vstd::string::StringExecFns;

use crate::device::SourceError;
use crate::device::outcome_matches;
use crate::section::Component;
use crate::section::SectionSpec;
use crate::text::dec_digits;
use crate::text::is_u64_text;
use crate::text::lines_of;
use crate::text::parse_u64;
use crate::text::rounded_div;
use crate::text::rounded_percent;
use crate::text::sat_sub;
use crate::text::split_lines;
use crate::text::split_whitespace;
use crate::text::split_ws;
use crate::text::starts_with;
use crate::text::u64_string;
use crate::text::u64_text_val;

verus! {

/// The numeric value carried by a meminfo line: its second whitespace
/// token, when that token is a number.
pub open spec fn spec_meminfo_val(line: Seq<char>) -> Option<u64> {
    let toks = split_ws(line);
    if toks.len() >= 2 && is_u64_text(toks[1]) {
        Some(u64_text_val(toks[1]) as u64)
    } else {
        None
    }
}

/// The line begins with the given key.
pub open spec fn key_match(line: Seq<char>, key: Seq<char>) -> bool {
    key.len() <= line.len() && line.subrange(0, key.len() as int) == key
}

/// The total, free, buffer and cache readings gathered over the lines in
/// order, a later match overwriting an earlier one; a matching line whose
/// value cannot be read stops the scan.
pub open spec fn meminfo_scan(lines: Seq<Seq<char>>, acc: (u64, u64, u64, u64)) -> Result<
    (u64, u64, u64, u64),
    SourceError,
>
    decreases lines.len(),
{
    if lines.len() == 0 {
        Ok(acc)
    } else {
        let line = lines[0];
        let rest = lines.drop_first();
        if key_match(line, "MemTotal:"@) {
            match spec_meminfo_val(line) {
                Some(v) => meminfo_scan(rest, (v, acc.1, acc.2, acc.3)),
                None => Err(SourceError::Malformed),
            }
        } else if key_match(line, "MemFree:"@) {
            match spec_meminfo_val(line) {
                Some(v) => meminfo_scan(rest, (acc.0, v, acc.2, acc.3)),
                None => Err(SourceError::Malformed),
            }
        } else if key_match(line, "Buffers:"@) {
            match spec_meminfo_val(line) {
                Some(v) => meminfo_scan(rest, (acc.0, acc.1, v, acc.3)),
                None => Err(SourceError::Malformed),
            }
        } else if key_match(line, "Cached:"@) {
            match spec_meminfo_val(line) {
                Some(v) => meminfo_scan(rest, (acc.0, acc.1, acc.2, v)),
                None => Err(SourceError::Malformed),
            }
        } else {
            meminfo_scan(rest, acc)
        }
    }
}

/// Reads the numeric field of one meminfo line: its second whitespace
/// token; fails when no such token stands there or it is not a number.
pub fn parse_meminfo_line(line: &str) -> (r: Result<u64, SourceError>)
    ensures
        r matches Ok(v) ==> spec_meminfo_val(line@) == Some(v),
        r is Err ==> spec_meminfo_val(line@) is None && r == Err::<u64, SourceError>(
            SourceError::Malformed,
        ),
{
    let parts = split_whitespace(line);
    if parts.len() < 2 {
        return Err(SourceError::Malformed);
    }
    proof {
        assert(parts.deep_view()[1] == parts@[1]@);
    }
    match parse_u64(parts[1].as_str()) {
        Some(v) => Ok(v),
        None => Err(SourceError::Malformed),
    }
}

/// Memory configuration: poll interval, label and icon.
pub struct Memory {
    pub time: Option<u64>,
    pub name: Option<String>,
    pub icon: Option<String>,
}

impl Memory {
    /// The configured poll interval, in milliseconds.
    pub open spec fn spec_time(&self) -> u64 {
        match self.time {
            Some(t) => t,
            None => 1000,
        }
    }

    /// The configured label.
    pub open spec fn spec_name(&self) -> Seq<char> {
        match self.name {
            Some(n) => n@,
            None => "RAM"@,
        }
    }

    /// The configured icon.
    pub open spec fn spec_icon(&self) -> Seq<char> {
        match self.icon {
            Some(i) => i@,
            None => "\u{ee}\u{bf}\u{2026} "@,
        }
    }

    /// The section rendered from the meminfo contents: unavailable without
    /// contents, malformed when a matching line cannot be read or total or
    /// free memory is missing, else used memory (total less free, buffers
    /// and cache) as a rounded share of the total.
    pub open spec fn spec_convert(&self, contents: Option<String>) -> Result<
        SectionSpec,
        SourceError,
    > {
        match contents {
            None => Err(SourceError::Unavailable),
            Some(c) => match meminfo_scan(split_lines(c@), (0u64, 0u64, 0u64, 0u64)) {
                Err(e) => Err(e),
                Ok((mem_total, mem_free, buffers, cached)) => {
                    if mem_total == 0 || mem_free == 0 {
                        Err(SourceError::Malformed)
                    } else {
                        let used = sat_sub(
                            sat_sub(sat_sub(mem_total as int, mem_free as int), buffers as int),
                            cached as int,
                        );
                        Ok(
                            SectionSpec {
                                icon: self.spec_icon(),
                                name: self.spec_name(),
                                value: dec_digits(
                                    rounded_div(used * 100, mem_total as int) as nat,
                                ) + "%"@,
                            },
                        )
                    }
                },
            },
        }
    }

    /// Renders the memory section from the meminfo contents.
    #[verifier::loop_isolation(false)]
    pub fn convert(&self, contents: Option<String>) -> (r: Result<Component<'_>, SourceError>)
        ensures
            outcome_matches(r, self.spec_convert(contents)),
    {
        let c = match contents {
            Some(c) => c,
            None => {
                return Err(SourceError::Unavailable);
            },
        };
        let lines = lines_of(c.as_str());
        let ghost ls = lines.deep_view();
        let mut mem_total: u64 = 0;
        let mut mem_free: u64 = 0;
        let mut buffers: u64 = 0;
        let mut cached: u64 = 0;
        let mut i: usize = 0;
        proof {
            assert(ls.subrange(0, ls.len() as int) =~= ls);
        }
        while i < lines.len()
            invariant
                i <= lines.len(),
                ls == lines.deep_view(),
                meminfo_scan(ls, (0u64, 0u64, 0u64, 0u64)) == meminfo_scan(
                    ls.subrange(i as int, ls.len() as int),
                    (mem_total, mem_free, buffers, cached),
                ),
            decreases lines.len() - i,
        {
            let ghost rest = ls.subrange(i as int, ls.len() as int);
            proof {
                assert(rest[0] == ls[i as int]);
                assert(rest.drop_first() =~= ls.subrange(i as int + 1, ls.len() as int));
                assert(lines@[i as int]@ == ls[i as int]);
            }
            let line = lines[i].as_str();
            if starts_with(line, "MemTotal:") {
                match parse_meminfo_line(line) {
                    Ok(v) => {
                        mem_total = v;
                    },
                    Err(e) => {
                        return Err(e);
                    },
                }
            } else if starts_with(line, "MemFree:") {
                match parse_meminfo_line(line) {
                    Ok(v) => {
                        mem_free = v;
                    },
                    Err(e) => {
                        return Err(e);
                    },
                }
            } else if starts_with(line, "Buffers:") {
                match parse_meminfo_line(line) {
                    Ok(v) => {
                        buffers = v;
                    },
                    Err(e) => {
                        return Err(e);
                    },
                }
            } else if starts_with(line, "Cached:") {
                match parse_meminfo_line(line) {
                    Ok(v) => {
                        cached = v;
                    },
                    Err(e) => {
                        return Err(e);
                    },
                }
            }
            i = i + 1;
        }
        proof {
            assert(ls.subrange(i as int, ls.len() as int) =~= Seq::<Seq<char>>::empty());
        }
        if mem_total == 0 || mem_free == 0 {
            return Err(SourceError::Malformed);
        }
        let used0 = if mem_total >= mem_free {
            mem_total - mem_free
        } else {
            0
        };
        let used1 = if used0 >= buffers {
            used0 - buffers
        } else {
            0
        };
        let used = if used1 >= cached {
            used1 - cached
        } else {
            0
        };
        let mut value = u64_string(rounded_percent(used, mem_total));
        value.append("%");
        let name: &str = match &self.name {
            Some(n) => n.as_str(),
            None => "RAM",
        };
        let icon: &str = match &self.icon {
            Some(i) => i.as_str(),
            None => "\u{ee}\u{bf}\u{2026} ",
        };
        Ok(Component { icon, name, value })
    }

    /// The poll interval, in milliseconds.
    pub fn time(&self) -> (t: u64)
        ensures
            t == self.spec_time(),
    {
        match self.time {
            Some(t) => t,
            None => 1000,
        }
    }
}

impl Default for Memory {
    /// The built-in memory configuration.
    fn default() -> (d: Self)
        ensures
            d.time == Some(1000u64),
            d.name matches Some(n) && n@ == "RAM"@,
            d.icon matches Some(i) && i@ == "\u{ee}\u{bf}\u{2026} "@,
    {
        Memory {
            time: Some(1000),
            name: Some(String::from_str("RAM")),
            icon: Some(String::from_str("\u{ee}\u{bf}\u{2026} ")),
        }
    }
}

} // verus!
