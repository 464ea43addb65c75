//! The polling scheduler and aggregation engine: sources are grouped by
//! poll interval, one worker per group samples them into per-source slots,
//! and an aggregator folds the slots into one separated status line.

use vstd::prelude::*;
use vstd::string::StringExecFns;

use crate::device::Device;
use crate::device::SourceError;
use crate::section::Component;
use crate::section::section_text;

verus! {

/// One interval group: a poll interval and the positions, in configuration
/// order, of the sources that share it. One worker serves one group.
pub struct Group {
    pub time: u64,
    pub members: Vec<usize>,
}

/// The poll intervals of the configured sources, in configuration order.
pub open spec fn times_of(devices: Seq<Device>) -> Seq<u64> {
    devices.map(|i: int, d: Device| d.spec_time())
}

/// The distinct values of the sequence, each at its first appearance.
pub open spec fn distinct_times(times: Seq<u64>) -> Seq<u64>
    decreases times.len(),
{
    if times.len() == 0 {
        Seq::empty()
    } else {
        let prefix = distinct_times(times.drop_last());
        if prefix.contains(times.last()) {
            prefix
        } else {
            prefix.push(times.last())
        }
    }
}

/// The positions holding the value `t`, in increasing order.
pub open spec fn members_for(times: Seq<u64>, t: u64) -> Seq<usize>
    decreases times.len(),
{
    if times.len() == 0 {
        Seq::empty()
    } else {
        let prefix = members_for(times.drop_last(), t);
        if times.last() == t {
            prefix.push((times.len() - 1) as usize)
        } else {
            prefix
        }
    }
}

/// The groups of a configuration: one per distinct interval, in order of
/// first appearance, each holding the positions of its sources in order.
pub open spec fn grouped(times: Seq<u64>, groups: Seq<Group>) -> bool {
    &&& groups.len() == distinct_times(times).len()
    &&& forall|k: int|
        0 <= k < groups.len() ==> (#[trigger] groups[k]).time == distinct_times(times)[k]
    &&& forall|k: int|
        0 <= k < groups.len() ==> (#[trigger] groups[k]).members@ == members_for(
            times,
            distinct_times(times)[k],
        )
}

/// The position lies in some group, and in one carrying its own interval.
pub open spec fn covered_by_a_group(times: Seq<u64>, groups: Seq<Group>, i: int) -> bool {
    exists|k: int|
        0 <= k < groups.len() && (#[trigger] groups[k]).members@.contains(i as usize)
            && groups[k].time == times[i]
}

/// A value appears among the distinct values exactly when it appears at all.
proof fn lemma_distinct_contains(times: Seq<u64>, t: u64)
    ensures
        distinct_times(times).contains(t) <==> times.contains(t),
    decreases times.len(),
{
    broadcast use vstd::seq_lib::group_seq_properties;

    if times.len() > 0 {
        let dl = times.drop_last();
        let last = times.last();
        lemma_distinct_contains(dl, t);
        lemma_distinct_contains(dl, last);
        assert(times.contains(t) <==> (dl.contains(t) || last == t)) by {
            if times.contains(t) {
                let i = choose|i: int| 0 <= i < times.len() && times[i] == t;
                if i < times.len() - 1 {
                    assert(dl[i] == t);
                }
            }
            if dl.contains(t) {
                let i = choose|i: int| 0 <= i < dl.len() && dl[i] == t;
                assert(times[i] == t);
            }
            if last == t {
                assert(times[times.len() - 1] == t);
            }
        }
        let prefix = distinct_times(dl);
        if !prefix.contains(last) {
            assert(distinct_times(times) == prefix.push(last));
            assert(prefix.push(last).contains(t) <==> (prefix.contains(t) || last == t));
        }
    }
}

/// The distinct values are pairwise distinct.
proof fn lemma_distinct_no_dup(times: Seq<u64>)
    ensures
        forall|k1: int, k2: int|
            0 <= k1 < k2 < distinct_times(times).len() ==> #[trigger] distinct_times(
                times,
            )[k1] != #[trigger] distinct_times(times)[k2],
    decreases times.len(),
{
    if times.len() > 0 {
        lemma_distinct_no_dup(times.drop_last());
        let prefix = distinct_times(times.drop_last());
        if !prefix.contains(times.last()) {
            assert forall|k1: int, k2: int|
                0 <= k1 < k2 < distinct_times(times).len() implies #[trigger] distinct_times(
                times,
            )[k1] != #[trigger] distinct_times(times)[k2] by {
                if k2 == distinct_times(times).len() - 1 {
                    assert(prefix[k1] == distinct_times(times)[k1]);
                    assert(prefix.contains(prefix[k1]));
                }
            }
        }
    }
}

/// A value that never appears has no member positions.
proof fn lemma_members_for_absent(times: Seq<u64>, t: u64)
    requires
        !times.contains(t),
    ensures
        members_for(times, t) =~= Seq::<usize>::empty(),
    decreases times.len(),
{
    if times.len() > 0 {
        assert(times[times.len() - 1] != t);
        assert forall|i: int| 0 <= i < times.drop_last().len() implies times.drop_last()[i]
            != t by {
            assert(times[i] == times.drop_last()[i]);
        }
        lemma_members_for_absent(times.drop_last(), t);
    }
}

/// The member positions of a value: each holds the value, they increase
/// strictly, and every position holding the value is among them.
proof fn lemma_members_for_spec(times: Seq<u64>, t: u64)
    requires
        times.len() <= usize::MAX,
    ensures
        forall|j: int|
            0 <= j < members_for(times, t).len() ==> ((#[trigger] members_for(times, t)[j]) as int)
                < times.len() && times[members_for(times, t)[j] as int] == t,
        forall|j1: int, j2: int|
            #![trigger members_for(times, t)[j1], members_for(times, t)[j2]]
            0 <= j1 < j2 < members_for(times, t).len() ==> members_for(times, t)[j1]
                < members_for(times, t)[j2],
        forall|i: int|
            0 <= i < times.len() && times[i] == t ==> #[trigger] members_for(times, t).contains(
                i as usize,
            ),
    decreases times.len(),
{
    broadcast use vstd::seq_lib::group_seq_properties;

    if times.len() > 0 {
        let dl = times.drop_last();
        lemma_members_for_spec(dl, t);
        assert(forall|m: int| 0 <= m < dl.len() ==> #[trigger] dl[m] == times[m]);
        if times.last() == t {
            assert(members_for(times, t) == members_for(dl, t).push((times.len() - 1) as usize));
        } else {
            assert(members_for(times, t) == members_for(dl, t));
        }
        assert forall|j: int| 0 <= j < members_for(times, t).len() implies ((
        #[trigger] members_for(times, t)[j]) as int) < times.len() && times[members_for(
            times,
            t,
        )[j] as int] == t by {
            if j < members_for(dl, t).len() {
                assert(members_for(times, t)[j] == members_for(dl, t)[j]);
                assert(((members_for(dl, t)[j]) as int) < dl.len());
                assert(dl[members_for(dl, t)[j] as int] == t);
                assert(times[members_for(dl, t)[j] as int] == dl[members_for(dl, t)[j] as int]);
            } else {
                assert(times.last() == t);
                assert(members_for(times, t)[j] == (times.len() - 1) as usize);
                assert(times[times.len() - 1] == t);
            }
        }
        assert forall|j1: int, j2: int|
            #![trigger members_for(times, t)[j1], members_for(times, t)[j2]]
            0 <= j1 < j2 < members_for(times, t).len() implies members_for(times, t)[j1]
            < members_for(times, t)[j2] by {
            if j2 < members_for(dl, t).len() {
                assert(members_for(times, t)[j1] == members_for(dl, t)[j1]);
                assert(members_for(times, t)[j2] == members_for(dl, t)[j2]);
            } else {
                assert(times.last() == t);
                assert(members_for(times, t)[j1] == members_for(dl, t)[j1]);
                assert(((members_for(dl, t)[j1]) as int) < dl.len());
                assert(members_for(times, t)[j2] == (times.len() - 1) as usize);
            }
        }
        assert forall|i: int| 0 <= i < times.len() && times[i] == t implies #[trigger] members_for(
            times,
            t,
        ).contains(i as usize) by {
            if i < times.len() - 1 {
                assert(dl[i] == t);
                assert(members_for(dl, t).contains(i as usize));
                let j = choose|j: int|
                    0 <= j < members_for(dl, t).len() && members_for(dl, t)[j] == i as usize;
                assert(members_for(times, t)[j] == i as usize);
            } else {
                assert(times.last() == t);
                assert(members_for(times, t)[members_for(times, t).len() - 1] == i as usize);
            }
        }
    }
}

/// The interval groups of a configuration partition its
/// sources. There is one group per distinct interval value; a group's
/// members are exactly the positions of the sources sharing its interval,
/// in configuration order; and each position lies in the one group whose
/// interval is its own.
pub proof fn lemma_grouping_partition(times: Seq<u64>, groups: Seq<Group>)
    requires
        times.len() <= usize::MAX,
        grouped(times, groups),
    ensures
        forall|k1: int, k2: int|
            0 <= k1 < k2 < groups.len() ==> (#[trigger] groups[k1]).time != (
            #[trigger] groups[k2]).time,
        forall|k: int, j: int|
            #![trigger groups[k].members@[j]]
            0 <= k < groups.len() && 0 <= j < groups[k].members@.len() ==> (
            groups[k].members@[j] as int) < times.len() && times[groups[k].members@[j] as int]
                == groups[k].time,
        forall|k: int, j1: int, j2: int|
            #![trigger groups[k].members@[j1], groups[k].members@[j2]]
            0 <= k < groups.len() && 0 <= j1 < j2 < groups[k].members@.len()
                ==> groups[k].members@[j1] < groups[k].members@[j2],
        forall|i: int|
            0 <= i < times.len() ==> #[trigger] covered_by_a_group(times, groups, i),
        forall|i: int, k: int|
            #![trigger groups[k].members@.contains(i as usize)]
            0 <= i < times.len() && 0 <= k < groups.len() && groups[k].members@.contains(i as usize)
                ==> groups[k].time == times[i],
{
    broadcast use vstd::seq_lib::group_seq_properties;

    lemma_distinct_no_dup(times);
    assert forall|k: int, j: int|
        #![trigger groups[k].members@[j]]
        0 <= k < groups.len() && 0 <= j < groups[k].members@.len() implies (
    groups[k].members@[j] as int) < times.len() && times[groups[k].members@[j] as int]
        == groups[k].time by {
        lemma_members_for_spec(times, groups[k].time);
    }
    assert forall|k: int, j1: int, j2: int|
        #![trigger groups[k].members@[j1], groups[k].members@[j2]]
        0 <= k < groups.len() && 0 <= j1 < j2 < groups[k].members@.len() implies
    groups[k].members@[j1] < groups[k].members@[j2] by {
        lemma_members_for_spec(times, groups[k].time);
    }
    assert forall|i: int| 0 <= i < times.len() implies #[trigger] covered_by_a_group(
        times,
        groups,
        i,
    ) by {
        let t = times[i];
        assert(times.contains(t));
        lemma_distinct_contains(times, t);
        let k = choose|k: int|
            0 <= k < distinct_times(times).len() && distinct_times(times)[k] == t;
        lemma_members_for_spec(times, t);
        assert(distinct_times(times)[k] == t);
        assert(groups[k].members@ == members_for(times, t));
        assert(members_for(times, t).contains(i as usize));
        assert(groups[k].members@.contains(i as usize) && groups[k].time == times[i]);
    }
    assert forall|i: int, k: int|
        #![trigger groups[k].members@.contains(i as usize)]
        0 <= i < times.len() && 0 <= k < groups.len() && groups[k].members@.contains(i as usize)
        implies groups[k].time == times[i] by {
        lemma_members_for_spec(times, groups[k].time);
        let j = choose|j: int|
            0 <= j < groups[k].members@.len() && groups[k].members@[j] == i as usize;
        assert(groups[k].members@ == members_for(times, groups[k].time));
        assert(members_for(times, groups[k].time)[j] == i as usize);
        assert(times[members_for(times, groups[k].time)[j] as int] == groups[k].time);
        assert(((i as usize) as int) == i);
    }
}

/// Partitions the configured sources into interval groups: one group per
/// distinct interval value, in order of first appearance, each listing the
/// positions of the sources that share the interval, in configuration
/// order. One worker is then started per group.
#[verifier::loop_isolation(false)]
pub fn execute(devices: &Vec<Device>) -> (groups: Vec<Group>)
    ensures
        grouped(times_of(devices@), groups@),
{
    let ghost times = times_of(devices@);
    let mut groups: Vec<Group> = Vec::new();
    let mut i: usize = 0;
    proof {
        assert(times.subrange(0, 0) =~= Seq::<u64>::empty());
    }
    while i < devices.len()
        invariant
            i <= devices.len(),
            grouped(times.subrange(0, i as int), groups@),
        decreases devices.len() - i,
    {
        let ghost prefix = times.subrange(0, i as int);
        let ghost next = times.subrange(0, i as int + 1);
        let t = devices[i].time();
        proof {
            assert(next.drop_last() =~= prefix);
            assert(next.last() == t);
            lemma_distinct_contains(prefix, t);
        }
        let mut found: Option<usize> = None;
        let mut j: usize = 0;
        while j < groups.len()
            invariant
                j <= groups.len(),
                match found {
                    Some(f) => f < j && groups@[f as int].time == t,
                    None => forall|k: int| 0 <= k < j ==> (#[trigger] groups@[k]).time != t,
                },
            decreases groups.len() - j,
        {
            if found.is_none() && groups[j].time == t {
                found = Some(j);
            }
            j = j + 1;
        }
        match found {
            Some(f) => {
                proof {
                    // the prefix already holds t, so its distinct values stay
                    assert(distinct_times(prefix)[f as int] == t);
                    assert(distinct_times(prefix).contains(t));
                    lemma_distinct_no_dup(prefix);
                    assert(distinct_times(next) == distinct_times(prefix));
                }
                let mut g = groups.remove(f);
                let ghost old_members = g.members@;
                g.members.push(i);
                let ghost g_new = g;
                groups.insert(f, g);
                proof {
                    assert forall|k: int| 0 <= k < groups@.len() implies (
                    #[trigger] groups@[k]).members@ == members_for(
                        next,
                        distinct_times(next)[k],
                    ) by {
                        if k == f {
                            assert(groups@[k].members@ =~= old_members.push(i as usize));
                        } else {
                            assert(distinct_times(next)[k] != t);
                        }
                    }
                }
            },
            None => {
                proof {
                    // t is new: no group carries it, so the prefix does not
                    assert forall|tt: u64| distinct_times(prefix).contains(tt) implies exists|
                        k: int,
                    | 0 <= k < groups@.len() && (#[trigger] groups@[k]).time == tt by {
                        let k = choose|k: int|
                            0 <= k < distinct_times(prefix).len() && distinct_times(prefix)[k]
                                == tt;
                        assert(groups@[k].time == tt);
                    }
                    assert(!distinct_times(prefix).contains(t));
                    lemma_members_for_absent(prefix, t);
                    assert(distinct_times(next) == distinct_times(prefix).push(t));
                }
                let mut members: Vec<usize> = Vec::new();
                members.push(i);
                let g = Group { time: t, members };
                let ghost g_new = g;
                groups.push(g);
                proof {
                    assert(g_new.members@ =~= Seq::<usize>::empty().push(i as usize));
                    assert forall|k: int| 0 <= k < groups@.len() implies (
                    #[trigger] groups@[k]).members@ == members_for(
                        next,
                        distinct_times(next)[k],
                    ) by {
                        if k < groups@.len() - 1 {
                            assert(distinct_times(prefix)[k] == groups@[k].time);
                            assert(distinct_times(prefix).contains(distinct_times(prefix)[k]));
                            lemma_distinct_contains(prefix, distinct_times(next)[k]);
                        } else {
                            assert(members_for(next, t) =~= members_for(prefix, t).push(
                                i as usize,
                            ));
                        }
                    }
                }
            },
        }
        i = i + 1;
    }
    proof {
        assert(times.subrange(0, devices.len() as int) =~= times);
    }
    groups
}

/// Fresh slots for a configuration: one empty text per source, in
/// configuration order.
pub fn new_slots(count: usize) -> (slots: Vec<String>)
    ensures
        slots@.len() == count,
        forall|i: int| 0 <= i < count ==> #[trigger] slots.deep_view()[i] == Seq::<char>::empty(),
{
    let mut slots: Vec<String> = Vec::new();
    let mut i: usize = 0;
    while i < count
        invariant
            i <= count,
            slots@.len() == i,
            forall|k: int| 0 <= k < i ==> #[trigger] slots.deep_view()[k] == Seq::<char>::empty(),
        decreases count - i,
    {
        let ghost before = slots.deep_view();
        let empty_text = String::new();
        slots.push(empty_text);
        proof {
            assert(slots.deep_view() =~= before.push(Seq::<char>::empty()));
        }
        i = i + 1;
    }
    slots
}

/// Writes one sampling outcome into a source's slot: a successful sample
/// replaces the slot's text with the newly rendered section, and a failed
/// one leaves the slot exactly as it was, so the stale value stays shown.
pub fn apply_outcome<'a>(slot: &mut String, outcome: Result<Component<'a>, SourceError>)
    ensures
        match outcome {
            Ok(c) => final(slot)@ == section_text(c.icon@, c.name@, c.value@),
            Err(_) => final(slot)@ == old(slot)@,
        },
{
    match outcome {
        Ok(c) => {
            *slot = c.to_text();
        },
        Err(_) => {},
    }
}

/// One value joined onto an accumulated line: an empty value adds nothing,
/// the first kept value stands alone, and a later one follows a separator.
pub open spec fn join_step(acc: Seq<char>, v: Seq<char>, sep: Seq<char>) -> Seq<char> {
    if v.len() == 0 {
        acc
    } else if acc.len() == 0 {
        v
    } else {
        acc + sep + v
    }
}

/// The slot values joined in order: the non-empty ones, separated.
pub open spec fn spec_join(vals: Seq<Seq<char>>, sep: Seq<char>) -> Seq<char>
    decreases vals.len(),
{
    if vals.len() == 0 {
        Seq::empty()
    } else {
        join_step(spec_join(vals.drop_last(), sep), vals.last(), sep)
    }
}

/// Joins the non-empty slot values, in slot order, with the separator.
#[verifier::loop_isolation(false)]
pub fn render_status(slots: &Vec<String>, separator: &str) -> (r: String)
    ensures
        r@ == spec_join(slots.deep_view(), separator@),
{
    let mut acc = String::new();
    let mut i: usize = 0;
    proof {
        assert(slots.deep_view().subrange(0, 0) =~= Seq::<Seq<char>>::empty());
    }
    while i < slots.len()
        invariant
            i <= slots.len(),
            acc@ == spec_join(slots.deep_view().subrange(0, i as int), separator@),
        decreases slots.len() - i,
    {
        proof {
            assert(slots.deep_view().subrange(0, i as int + 1).drop_last()
                =~= slots.deep_view().subrange(0, i as int));
            assert(slots.deep_view().subrange(0, i as int + 1).last() == slots.deep_view()[
                i as int
            ]);
            assert(slots.deep_view()[i as int] == slots@[i as int]@);
        }
        if !slots[i].as_str().is_empty() {
            if acc.as_str().is_empty() {
                acc = slots[i].clone();
            } else {
                acc.append(separator);
                acc.append(slots[i].as_str());
            }
        }
        i = i + 1;
    }
    proof {
        assert(slots.deep_view().subrange(0, slots@.len() as int) =~= slots.deep_view());
    }
    acc
}

/// The non-empty values of the sequence, in order.
pub open spec fn nonempties(vals: Seq<Seq<char>>) -> Seq<Seq<char>>
    decreases vals.len(),
{
    if vals.len() == 0 {
        Seq::empty()
    } else if vals.last().len() > 0 {
        nonempties(vals.drop_last()).push(vals.last())
    } else {
        nonempties(vals.drop_last())
    }
}

/// The values placed side by side with one separator between neighbours.
pub open spec fn sep_interleaved(vals: Seq<Seq<char>>, sep: Seq<char>) -> Seq<char>
    decreases vals.len(),
{
    if vals.len() == 0 {
        Seq::empty()
    } else if vals.len() == 1 {
        vals[0]
    } else {
        sep_interleaved(vals.drop_last(), sep) + sep + vals.last()
    }
}

/// An interleaving of non-empty values is itself non-empty.
proof fn lemma_interleaved_nonempty(vals: Seq<Seq<char>>, sep: Seq<char>)
    requires
        vals.len() > 0,
        vals.last().len() > 0,
    ensures
        sep_interleaved(vals, sep).len() > 0,
{
}

/// The joined status line consists of exactly the non-empty
/// slot values, in slot (that is, configuration) order, with one separator
/// between neighbours — grouping plays no part in the field order.
pub proof fn lemma_join_in_order(vals: Seq<Seq<char>>, sep: Seq<char>)
    ensures
        spec_join(vals, sep) == sep_interleaved(nonempties(vals), sep),
    decreases vals.len(),
{
    if vals.len() > 0 {
        lemma_join_in_order(vals.drop_last(), sep);
        if vals.last().len() > 0 {
            let fs = nonempties(vals.drop_last()).push(vals.last());
            assert(fs.drop_last() =~= nonempties(vals.drop_last()));
            if nonempties(vals.drop_last()).len() == 0 {
                assert(sep_interleaved(nonempties(vals.drop_last()), sep).len() == 0);
            } else {
                lemma_nonempties_all_nonempty(vals.drop_last());
                lemma_interleaved_nonempty(nonempties(vals.drop_last()), sep);
            }
        }
    }
}

/// Every value kept by `nonempties` is non-empty.
proof fn lemma_nonempties_all_nonempty(vals: Seq<Seq<char>>)
    ensures
        forall|j: int|
            0 <= j < nonempties(vals).len() ==> (#[trigger] nonempties(vals)[j]).len() > 0,
    decreases vals.len(),
{
    if vals.len() > 0 {
        lemma_nonempties_all_nonempty(vals.drop_last());
        if vals.last().len() > 0 {
            assert forall|j: int| 0 <= j < nonempties(vals).len() implies (
            #[trigger] nonempties(vals)[j]).len() > 0 by {
                if j < nonempties(vals.drop_last()).len() {
                    assert(nonempties(vals)[j] == nonempties(vals.drop_last())[j]);
                } else {
                    assert(nonempties(vals)[j] == vals.last());
                }
            }
        }
    }
}

/// A slot holding the empty string contributes neither
/// text nor a separator — the joined line equals the line with that slot
/// left out entirely.
pub proof fn lemma_empty_slot_suppressed(vals: Seq<Seq<char>>, sep: Seq<char>, i: int)
    requires
        0 <= i < vals.len(),
        vals[i].len() == 0,
    ensures
        spec_join(vals.remove(i), sep) == spec_join(vals, sep),
    decreases vals.len(),
{
    if i == vals.len() - 1 {
        assert(vals.remove(i) =~= vals.drop_last());
    } else {
        assert(vals.drop_last()[i] == vals[i]);
        lemma_empty_slot_suppressed(vals.drop_last(), sep, i);
        assert(vals.remove(i).drop_last() =~= vals.drop_last().remove(i));
        assert(vals.remove(i).last() == vals.last());
    }
}

/// The aggregation loop's state: it emits joined lines until its sink
/// reports a failed delivery, and then never again.
pub struct Aggregator {
    pub active: bool,
}

impl Aggregator {
    /// A fresh aggregator, ready to emit.
    pub fn new() -> (a: Aggregator)
        ensures
            a.active,
    {
        Aggregator { active: true }
    }

    /// One tick: while the aggregator is running and some slot has text,
    /// the joined line to hand to the sink; nothing otherwise, and nothing
    /// ever again once it has stopped.
    pub fn tick(&self, slots: &Vec<String>, separator: &str) -> (r: Option<String>)
        ensures
            match r {
                Some(line) => self.active && line@ == spec_join(slots.deep_view(), separator@)
                    && line@.len() > 0,
                None => !self.active || spec_join(slots.deep_view(), separator@).len() == 0,
            },
    {
        if !self.active {
            return None;
        }
        let line = render_status(slots, separator);
        if line.as_str().is_empty() {
            None
        } else {
            Some(line)
        }
    }

    /// Records the sink's verdict on one delivery: a failure stops the
    /// aggregator for good, rather than retrying against a broken sink.
    pub fn record_delivery(&mut self, delivered: bool)
        ensures
            final(self).active == (old(self).active && delivered),
    {
        if !delivered {
            self.active = false;
        }
    }
}

/// The pass durations as plain integers.
pub open spec fn durations_of(durations: Seq<u64>) -> Seq<int> {
    durations.map(|i: int, d: u64| d as int)
}

/// When each sampling pass of a worker begins: the first at time zero, and
/// each later one after the pass before it has run its whole course and
/// the group's interval has then elapsed (fixed delay, not fixed rate).
pub open spec fn pass_start(durations: Seq<int>, interval: int, k: int) -> int
    decreases k,
{
    if k <= 0 {
        0
    } else {
        pass_start(durations, interval, k - 1) + durations[k - 1] + interval
    }
}

/// Between the starts of two neighbouring passes lie the
/// group's whole interval and the whole duration of the earlier pass — a
/// slow pass stretches its group's effective period.
pub proof fn lemma_fixed_delay(durations: Seq<int>, interval: int, k: int)
    requires
        0 <= k < durations.len(),
    ensures
        pass_start(durations, interval, k + 1) - pass_start(durations, interval, k) >= interval
            + durations[k],
{
}

/// The start times of the first passes of a worker, from the durations its
/// passes took; nothing if some start time overflows.
#[verifier::loop_isolation(false)]
pub fn pass_starts(durations: &Vec<u64>, interval: u64) -> (r: Option<Vec<u64>>)
    ensures
        r matches Some(starts) ==> starts@.len() == durations@.len() + 1 && forall|k: int|
            0 <= k <= durations@.len() ==> #[trigger] starts@[k] as int == pass_start(
                durations_of(durations@),
                interval as int,
                k,
            ),
        r is None ==> exists|k: int|
            0 <= k <= durations@.len() && #[trigger] pass_start(
                durations_of(durations@),
                interval as int,
                k,
            ) > u64::MAX,
{
    let ghost ds = durations_of(durations@);
    let mut starts: Vec<u64> = Vec::new();
    let mut cur: u64 = 0;
    starts.push(0);
    let mut k: usize = 0;
    while k < durations.len()
        invariant
            k <= durations.len(),
            starts@.len() == k + 1,
            cur as int == pass_start(ds, interval as int, k as int),
            forall|j: int|
                0 <= j <= k ==> #[trigger] starts@[j] as int == pass_start(
                    ds,
                    interval as int,
                    j,
                ),
        decreases durations.len() - k,
    {
        let d = durations[k];
        proof {
            assert(ds[k as int] == d);
        }
        if cur > u64::MAX - d {
            proof {
                assert(pass_start(ds, interval as int, k as int + 1) > u64::MAX);
            }
            return None;
        }
        let after_pass = cur + d;
        if after_pass > u64::MAX - interval {
            proof {
                assert(pass_start(ds, interval as int, k as int + 1) > u64::MAX);
            }
            return None;
        }
        cur = after_pass + interval;
        starts.push(cur);
        k = k + 1;
    }
    Some(starts)
}

} // verus!
