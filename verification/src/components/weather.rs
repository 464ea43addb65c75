//! Weather source: renders the short temperature text fetched for a
//! location, with plus signs dropped and the text cut to five characters.

use vstd::prelude::*;
use vstd::string::StrSliceExecFns;
use vstd::string::StringExecFns;

use crate::device::SourceError;
use crate::device::outcome_matches;
use crate::section::Component;
use crate::section::SectionSpec;

verus! {

/// The text with every plus sign removed.
pub open spec fn remove_plus(s: Seq<char>) -> Seq<char>
    decreases s.len(),
{
    if s.len() == 0 {
        Seq::empty()
    } else if s[0] == '+' {
        remove_plus(s.drop_first())
    } else {
        seq![s[0]] + remove_plus(s.drop_first())
    }
}

/// At most the first `k` characters of the text.
pub open spec fn take_chars(s: Seq<char>, k: int) -> Seq<char> {
    if s.len() > k {
        s.subrange(0, k)
    } else {
        s
    }
}

/// A run without plus signs passes through `remove_plus` unchanged.
proof fn lemma_remove_plus_run(s: Seq<char>, j: int)
    requires
        0 <= j <= s.len(),
        forall|k: int| 0 <= k < j ==> #[trigger] s[k] != '+',
    ensures
        remove_plus(s) == s.subrange(0, j) + remove_plus(s.subrange(j, s.len() as int)),
    decreases j,
{
    if j == 0 {
        assert(s.subrange(0, s.len() as int) =~= s);
        assert(s.subrange(0, 0) + remove_plus(s) =~= remove_plus(s));
    } else {
        lemma_remove_plus_run(s.drop_first(), j - 1);
        assert(s.drop_first().subrange(0, j - 1) =~= s.subrange(1, j));
        assert(s.drop_first().subrange(j - 1, s.drop_first().len() as int) =~= s.subrange(
            j,
            s.len() as int,
        ));
        assert(seq![s[0]] + (s.subrange(1, j) + remove_plus(s.subrange(j, s.len() as int)))
            =~= s.subrange(0, j) + remove_plus(s.subrange(j, s.len() as int)));
    }
}

/// Removes every plus sign from the text.
fn strip_plus(s: &str) -> (r: String)
    ensures
        r@ == remove_plus(s@),
{
    let n = s.unicode_len();
    let mut out = String::new();
    let mut cur: usize = 0;
    proof {
        assert(s@.subrange(0, n as int) =~= s@);
        assert(out@ + remove_plus(s@) =~= remove_plus(s@));
    }
    while cur < n
        invariant
            cur <= n,
            n == s@.len(),
            remove_plus(s@) == out@ + remove_plus(s@.subrange(cur as int, n as int)),
        decreases n - cur,
    {
        let ghost rest = s@.subrange(cur as int, n as int);
        if s.get_char(cur) == '+' {
            proof {
                assert(rest.drop_first() =~= s@.subrange(cur as int + 1, n as int));
            }
            cur = cur + 1;
        } else {
            let mut j: usize = cur + 1;
            while j < n && s.get_char(j) != '+'
                invariant
                    cur < j <= n,
                    n == s@.len(),
                    forall|k: int| cur <= k < j ==> #[trigger] s@[k] != '+',
                decreases n - j,
            {
                j = j + 1;
            }
            proof {
                assert(forall|k: int| 0 <= k < j - cur ==> rest[k] == s@[cur + k]);
                lemma_remove_plus_run(rest, j - cur);
                assert(rest.subrange(0, j - cur) =~= s@.subrange(cur as int, j as int));
                assert(rest.subrange(j - cur, rest.len() as int) =~= s@.subrange(
                    j as int,
                    n as int,
                ));
            }
            let ghost before = out@;
            out.append(s.substring_char(cur, j));
            proof {
                assert(out@ + remove_plus(s@.subrange(j as int, n as int)) =~= before
                    + remove_plus(rest));
            }
            cur = j;
        }
    }
    proof {
        assert(s@.subrange(cur as int, n as int) =~= Seq::<char>::empty());
        assert(out@ + Seq::<char>::empty() =~= out@);
    }
    out
}

/// Weather configuration: poll interval, label, icon and the location
/// whose temperature is fetched.
pub struct Weather {
    pub time: Option<u64>,
    pub name: Option<String>,
    pub icon: Option<String>,
    pub location: String,
}

impl Weather {
    /// The configured poll interval, in milliseconds.
    pub open spec fn spec_time(&self) -> u64 {
        match self.time {
            Some(t) => t,
            None => 1800000,
        }
    }

    /// The configured label.
    pub open spec fn spec_name(&self) -> Seq<char> {
        match self.name {
            Some(n) => n@,
            None => "WEA"@,
        }
    }

    /// The configured icon.
    pub open spec fn spec_icon(&self) -> Seq<char> {
        match self.icon {
            Some(i) => i@,
            None => "\u{d3}\u{e0}\u{f9} "@,
        }
    }

    /// The section rendered from a fetch: unavailable when the fetch could
    /// not be started, a failure when it reported an unsuccessful exit (the
    /// slot then keeps its stale value), and on success its text with plus
    /// signs dropped and cut to five characters.
    pub open spec fn spec_convert(&self, fetch: Option<(bool, String)>) -> Result<
        SectionSpec,
        SourceError,
    > {
        match fetch {
            None => Err(SourceError::Unavailable),
            Some((success, body)) => {
                if success {
                    Ok(
                        SectionSpec {
                            icon: self.spec_icon(),
                            name: self.spec_name(),
                            value: take_chars(remove_plus(body@), 5),
                        },
                    )
                } else {
                    Err(SourceError::Failed)
                }
            },
        }
    }

    /// Renders the weather section from a fetch of the temperature text.
    pub fn convert(&self, fetch: Option<(bool, String)>) -> (r: Result<Component<'_>, SourceError>)
        ensures
            outcome_matches(r, self.spec_convert(fetch)),
    {
        let (success, body) = match fetch {
            Some(f) => f,
            None => {
                return Err(SourceError::Unavailable);
            },
        };
        if !success {
            return Err(SourceError::Failed);
        }
        let stripped = strip_plus(body.as_str());
        let temp = if stripped.as_str().unicode_len() > 5 {
            stripped.as_str().substring_char(0, 5).to_owned()
        } else {
            stripped
        };
        let name: &str = match &self.name {
            Some(n) => n.as_str(),
            None => "WEA",
        };
        let icon: &str = match &self.icon {
            Some(i) => i.as_str(),
            None => "\u{d3}\u{e0}\u{f9} ",
        };
        Ok(Component { icon, name, value: temp })
    }

    /// The poll interval, in milliseconds.
    pub fn time(&self) -> (t: u64)
        ensures
            t == self.spec_time(),
    {
        match self.time {
            Some(t) => t,
            None => 1800000,
        }
    }
}

impl Default for Weather {
    /// The built-in weather configuration, with an empty location.
    fn default() -> (d: Self)
        ensures
            d.time == Some(1800000u64),
            d.name matches Some(n) && n@ == "WEA"@,
            d.icon matches Some(i) && i@ == "\u{d3}\u{e0}\u{f9} "@,
            d.location@ == Seq::<char>::empty(),
    {
        Weather {
            time: Some(1800000),
            name: Some(String::from_str("WEA")),
            icon: Some(String::from_str("\u{d3}\u{e0}\u{f9} ")),
            location: String::new(),
        }
    }
}

} // verus!
