//! Processor source: renders how busy the processor was between two
//! readings of the kernel's stat summary line.

use vstd::prelude::*;
use vstd::string::StringExecFns;

use crate::device::SourceError;
use crate::device::outcome_matches;
use crate::section::Component;
use crate::section::SectionSpec;
use crate::text::dec_digits;
use crate::text::is_u64_text;
use crate::text::parse_u64;
use crate::text::rounded_div;
use crate::text::rounded_percent;
use crate::text::sat_sub;
use crate::text::split_whitespace;
use crate::text::split_ws;
use crate::text::starts_with;
use crate::text::u64_string;
use crate::text::u64_text_val;

verus! {

/// The numeric fields among the tokens, in order; a token that is not a
/// number is skipped.
pub open spec fn parsed_times(tokens: Seq<Seq<char>>) -> Seq<u64>
    decreases tokens.len(),
{
    if tokens.len() == 0 {
        Seq::empty()
    } else if is_u64_text(tokens[0]) {
        seq![u64_text_val(tokens[0]) as u64] + parsed_times(tokens.drop_first())
    } else {
        parsed_times(tokens.drop_first())
    }
}

/// The sum of the values.
pub open spec fn seq_sum(s: Seq<u64>) -> int
    decreases s.len(),
{
    if s.len() == 0 {
        0
    } else {
        seq_sum(s.drop_last()) + s.last()
    }
}

/// A sum only grows as values are appended.
proof fn lemma_seq_sum_prefix(s: Seq<u64>, i: int)
    requires
        0 <= i <= s.len(),
    ensures
        seq_sum(s.subrange(0, i)) <= seq_sum(s),
    decreases s.len() - i,
{
    if i == s.len() {
        assert(s.subrange(0, i) =~= s);
    } else {
        assert(s.subrange(0, i + 1).drop_last() =~= s.subrange(0, i));
        lemma_seq_sum_prefix(s, i + 1);
    }
}

/// Idle and total processor time read from the stat summary line: the line
/// must begin `cpu `, at least four numeric fields must follow the label,
/// idle time is the fourth of them and total time their sum.
pub open spec fn spec_cpu_times(line: Seq<char>) -> Option<(u64, u64)> {
    if 4 <= line.len() && line.subrange(0, 4) == "cpu "@ {
        let ts = parsed_times(split_ws(line).drop_first());
        if ts.len() >= 4 && seq_sum(ts) <= u64::MAX {
            Some((ts[3], seq_sum(ts) as u64))
        } else {
            None
        }
    } else {
        None
    }
}

/// Reads idle and total processor time from the stat summary line.
#[verifier::loop_isolation(false)]
pub fn parse_cpu_times(line: &str) -> (r: Option<(u64, u64)>)
    ensures
        r == spec_cpu_times(line@),
{
    proof {
        reveal_strlit("cpu ");
    }
    if !starts_with(line, "cpu ") {
        return None;
    }
    let tokens = split_whitespace(line);
    let ghost toks = tokens.deep_view();
    proof {
        assert(line@.subrange(0, 4)[0] == line@[0]);
        assert(line@[0] == 'c');
        assert(toks.len() >= 1);
        assert(toks.subrange(1, toks.len() as int) =~= toks.drop_first());
    }
    let mut times: Vec<u64> = Vec::new();
    let mut i: usize = 1;
    proof {
        assert(times@ + parsed_times(toks.drop_first()) =~= parsed_times(toks.drop_first()));
    }
    while i < tokens.len()
        invariant
            1 <= i <= tokens.len(),
            toks == tokens.deep_view(),
            parsed_times(toks.drop_first()) == times@ + parsed_times(
                toks.subrange(i as int, toks.len() as int),
            ),
        decreases tokens.len() - i,
    {
        let ghost rest = toks.subrange(i as int, toks.len() as int);
        proof {
            assert(rest[0] == toks[i as int]);
            assert(rest.drop_first() =~= toks.subrange(i as int + 1, toks.len() as int));
            assert(tokens@[i as int]@ == toks[i as int]);
        }
        let ghost before = times@;
        match parse_u64(tokens[i].as_str()) {
            Some(v) => {
                times.push(v);
                proof {
                    assert(times@ =~= before.push(v));
                    assert(before.push(v) + parsed_times(rest.drop_first()) =~= before + (seq![v]
                        + parsed_times(rest.drop_first())));
                }
            },
            None => {},
        }
        i = i + 1;
    }
    proof {
        assert(toks.subrange(i as int, toks.len() as int) =~= Seq::<Seq<char>>::empty());
        assert(times@ + parsed_times(Seq::<Seq<char>>::empty()) =~= times@);
    }
    if times.len() < 4 {
        return None;
    }
    let idle = times[3];
    let mut total: u64 = 0;
    let mut k: usize = 0;
    proof {
        assert(times@.subrange(0, 0) =~= Seq::<u64>::empty());
    }
    while k < times.len()
        invariant
            k <= times.len(),
            parsed_times(toks.drop_first()) == times@,
            total == seq_sum(times@.subrange(0, k as int)),
        decreases times.len() - k,
    {
        let t = times[k];
        proof {
            assert(times@.subrange(0, k as int + 1).drop_last() =~= times@.subrange(0, k as int));
            assert(times@.subrange(0, k as int + 1).last() == times@[k as int]);
        }
        if total > u64::MAX - t {
            proof {
                lemma_seq_sum_prefix(times@, k as int + 1);
            }
            return None;
        }
        total = total + t;
        k = k + 1;
    }
    proof {
        assert(times@.subrange(0, times@.len() as int) =~= times@);
    }
    Some((idle, total))
}

/// The processor usage between two readings of idle and total time, as a
/// rounded percentage of the elapsed total; none when total time did not
/// advance. A reading that went backwards counts as no advance.
pub open spec fn spec_usage(prev: (u64, u64), cur: (u64, u64)) -> Option<int> {
    let idle_delta = sat_sub(cur.0 as int, prev.0 as int);
    let total_delta = sat_sub(cur.1 as int, prev.1 as int);
    if total_delta == 0 {
        None
    } else {
        Some(rounded_div(sat_sub(total_delta, idle_delta) * 100, total_delta))
    }
}

/// Computes the usage percentage between two readings.
pub fn calculate_cpu_usage(prev: (u64, u64), cur: (u64, u64)) -> (r: Option<u64>)
    ensures
        match r {
            Some(v) => spec_usage(prev, cur) == Some(v as int),
            None => spec_usage(prev, cur) is None,
        },
{
    let idle_delta = if cur.0 >= prev.0 {
        cur.0 - prev.0
    } else {
        0
    };
    let total_delta = if cur.1 >= prev.1 {
        cur.1 - prev.1
    } else {
        0
    };
    if total_delta == 0 {
        return None;
    }
    let active = if total_delta >= idle_delta {
        total_delta - idle_delta
    } else {
        0
    };
    Some(rounded_percent(active, total_delta))
}

/// The usage read from two takes of the stat summary line, where both
/// takes parse and time advanced between them.
pub open spec fn spec_usage_of_lines(first: Seq<char>, second: Seq<char>) -> Option<int> {
    match (spec_cpu_times(first), spec_cpu_times(second)) {
        (Some(p), Some(c)) => spec_usage(p, c),
        _ => None,
    }
}

/// Processor configuration: poll interval, label and icon.
pub struct Cpu {
    pub time: Option<u64>,
    pub name: Option<String>,
    pub icon: Option<String>,
}

impl Cpu {
    /// The configured poll interval, in milliseconds.
    pub open spec fn spec_time(&self) -> u64 {
        match self.time {
            Some(t) => t,
            None => 1000,
        }
    }

    /// The configured label.
    pub open spec fn spec_name(&self) -> Seq<char> {
        match self.name {
            Some(n) => n@,
            None => "CPU"@,
        }
    }

    /// The configured icon.
    pub open spec fn spec_icon(&self) -> Seq<char> {
        match self.icon {
            Some(i) => i@,
            None => "\u{ef}\u{2019}\u{bc} "@,
        }
    }

    /// The value shown: the usage between the two takes of the stat line,
    /// and a dash wherever none could be computed.
    pub open spec fn spec_value(&self, readings: Option<(String, String)>) -> Seq<char> {
        match readings {
            None => "-"@,
            Some((first, second)) => match spec_usage_of_lines(first@, second@) {
                Some(u) => dec_digits(u as nat) + "%"@,
                None => "-"@,
            },
        }
    }

    /// The section rendered from two takes of the stat summary line; it
    /// always renders, with a dash standing in for an unreadable usage.
    pub open spec fn spec_convert(&self, readings: Option<(String, String)>) -> Result<
        SectionSpec,
        SourceError,
    > {
        Ok(
            SectionSpec {
                icon: self.spec_icon(),
                name: self.spec_name(),
                value: self.spec_value(readings),
            },
        )
    }

    /// Renders the processor section from two takes of the stat line.
    pub fn convert(&self, readings: Option<(String, String)>) -> (r: Result<
        Component<'_>,
        SourceError,
    >)
        ensures
            outcome_matches(r, self.spec_convert(readings)),
    {
        let usage: Option<u64> = match &readings {
            None => None,
            Some((first, second)) => {
                match (parse_cpu_times(first.as_str()), parse_cpu_times(second.as_str())) {
                    (Some(p), Some(c)) => calculate_cpu_usage(p, c),
                    _ => None,
                }
            },
        };
        let total = match usage {
            Some(u) => {
                let mut v = u64_string(u);
                v.append("%");
                v
            },
            None => String::from_str("-"),
        };
        let name: &str = match &self.name {
            Some(n) => n.as_str(),
            None => "CPU",
        };
        let icon: &str = match &self.icon {
            Some(i) => i.as_str(),
            None => "\u{ef}\u{2019}\u{bc} ",
        };
        Ok(Component { icon, name, value: total })
    }

    /// The poll interval, in milliseconds.
    pub fn time(&self) -> (t: u64)
        ensures
            t == self.spec_time(),
    {
        match self.time {
            Some(t) => t,
            None => 1000,
        }
    }
}

impl Default for Cpu {
    /// The built-in processor configuration.
    fn default() -> (d: Self)
        ensures
            d.time == Some(1000u64),
            d.name matches Some(n) && n@ == "CPU"@,
            d.icon matches Some(i) && i@ == "\u{ef}\u{2019}\u{bc} "@,
    {
        Cpu {
            time: Some(1000),
            name: Some(String::from_str("CPU")),
            icon: Some(String::from_str("\u{ef}\u{2019}\u{bc} ")),
        }
    }
}

} // verus!
