use std::collections::BTreeMap;
use std::ops::Bound;
use vstd::prelude::*;

verus! {

broadcast use vstd::laws_cmp::group_laws_cmp;

/// The net liquidity recorded at a tick: zero where the tick is not
/// initialized.
pub open spec fn net_at(ticks: Map<i32, i128>, tick: i32) -> i128 {
    if ticks.contains_key(tick) {
        ticks[tick]
    } else {
        0
    }
}

/// The table with the net liquidity at `tick` set to `net`. Only initialized
/// ticks are kept: a net of zero removes the entry.
pub open spec fn with_net(ticks: Map<i32, i128>, tick: i32, net: i128) -> Map<i32, i128> {
    if net == 0 {
        ticks.remove(tick)
    } else {
        ticks.insert(tick, net)
    }
}

/// Reads the net liquidity at a tick.
pub fn read_net(ticks: &BTreeMap<i32, i128>, tick: i32) -> (r: i128)
    ensures
        r == net_at(ticks@, tick),
{
    match ticks.get(&tick) {
        Some(v) => *v,
        None => 0,
    }
}

/// Writes the net liquidity at a tick, dropping the entry where it is zero.
pub fn write_net(ticks: &mut BTreeMap<i32, i128>, tick: i32, net: i128)
    ensures
        final(ticks)@ == with_net(old(ticks)@, tick, net),
{
    if net == 0 {
        ticks.remove(&tick);
    } else {
        ticks.insert(tick, net);
    }
}

/// Whether `t` is the initialized tick next at or below `tick`.
pub open spec fn is_floor_tick(ticks: Map<i32, i128>, tick: i32, t: i32) -> bool {
    &&& ticks.contains_key(t)
    &&& t <= tick
    &&& forall|j: i32| t < j <= tick ==> !ticks.contains_key(j)
}

/// Whether `t` is the initialized tick next above `tick`.
pub open spec fn is_ceiling_tick(ticks: Map<i32, i128>, tick: i32, t: i32) -> bool {
    &&& ticks.contains_key(t)
    &&& t > tick
    &&& forall|j: i32| tick < j < t ==> !ticks.contains_key(j)
}

/// The initialized tick that a price meets next: going down, the largest at
/// or below `tick`; going up, the smallest above it.
pub open spec fn next_tick(ticks: Map<i32, i128>, tick: i32, downward: bool) -> Option<i32> {
    if downward {
        if exists|t: i32| is_floor_tick(ticks, tick, t) {
            Some(choose|t: i32| is_floor_tick(ticks, tick, t))
        } else {
            None
        }
    } else {
        if exists|t: i32| is_ceiling_tick(ticks, tick, t) {
            Some(choose|t: i32| is_ceiling_tick(ticks, tick, t))
        } else {
            None
        }
    }
}

/// The last entry that `BTreeMap::range` yields for the keys up to and
/// including `tick`: the entry of the largest such key, if there is one.
#[verifier::external_body]
fn last_at_or_below(ticks: &BTreeMap<i32, i128>, tick: i32) -> (r: Option<(i32, i128)>)
    ensures
        match r {
            Some(e) => is_floor_tick(ticks@, tick, e.0) && ticks@[e.0] == e.1,
            None => forall|j: i32| j <= tick ==> !ticks@.contains_key(j),
        },
{
    ticks.range(..=tick).next_back().map(|(k, v)| (*k, *v))
}

/// The first entry that `BTreeMap::range` yields for the keys above `tick`:
/// the entry of the smallest such key, if there is one.
#[verifier::external_body]
fn first_above(ticks: &BTreeMap<i32, i128>, tick: i32) -> (r: Option<(i32, i128)>)
    ensures
        match r {
            Some(e) => is_ceiling_tick(ticks@, tick, e.0) && ticks@[e.0] == e.1,
            None => forall|j: i32| j > tick ==> !ticks@.contains_key(j),
        },
{
    ticks.range((Bound::Excluded(tick), Bound::Unbounded)).next().map(|(k, v)| (*k, *v))
}

/// Finds the initialized tick that a price meets next, with the net
/// liquidity recorded there.
pub fn find_next_tick(ticks: &BTreeMap<i32, i128>, tick: i32, downward: bool) -> (r: Option<
    (i32, i128),
>)
    ensures
        match r {
            Some(e) => next_tick(ticks@, tick, downward) == Some(e.0) && ticks@.contains_key(e.0)
                && ticks@[e.0] == e.1 && (if downward {
                e.0 <= tick
            } else {
                e.0 > tick
            }),
            None => next_tick(ticks@, tick, downward) is None,
        },
{
    if downward {
        let r = last_at_or_below(ticks, tick);
        proof {
            match r {
                Some(e) => {
                    let c = choose|t: i32| is_floor_tick(ticks@, tick, t);
                    assert(is_floor_tick(ticks@, tick, c));
                    assert(c == e.0);
                },
                None => {},
            }
        }
        r
    } else {
        let r = first_above(ticks, tick);
        proof {
            match r {
                Some(e) => {
                    let c = choose|t: i32| is_ceiling_tick(ticks@, tick, t);
                    assert(is_ceiling_tick(ticks@, tick, c));
                    assert(c == e.0);
                },
                None => {},
            }
        }
        r
    }
}

} // verus!
