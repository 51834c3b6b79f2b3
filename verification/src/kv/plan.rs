//! Plans: the standing intent to capture a channel whenever it is on air, one
//! per channel, and the time of the last poll of the plans.

use crate::clock::now_millis;
use crate::error::{RecordError, StoreFault};
use crate::keys::{plan_key, polling_key, Family};
use crate::kv::live::{live_lookup, lookup};
use crate::kv::{is_family_listing, Entries, Store};
use crate::model::{RecordingPlan, RecordingPlanView};
use crate::rows::{plan_bytes, plan_fits, plan_of_bytes};
use crate::wire::{be_bytes_i64, be_value_i64, get_i64, put_i64};
use vstd::prelude::*;

verus! {

/// The views of a list of plans.
pub open spec fn plans_view(ps: Seq<RecordingPlan>) -> Seq<RecordingPlanView> {
    Seq::new(ps.len(), |i: int| ps[i]@)
}

/// What is stored as the plan of `url`, if anything.
pub open spec fn plan_entry(m: Entries, url: Seq<char>) -> Option<Seq<u8>> {
    if m.contains_key(plan_key(url)) {
        Some(m[plan_key(url)])
    } else {
        None
    }
}

/// The plan of `url`, if one is stored and can be read.
pub open spec fn plan_lookup(m: Entries, url: Seq<char>) -> Option<RecordingPlanView> {
    match plan_entry(m, url) {
        Some(bytes) => plan_of_bytes(bytes),
        None => None,
    }
}

/// The time of the last poll that the store remembers: 0 where it remembers
/// none.
pub open spec fn last_polling_time(m: Entries) -> Result<i64, RecordError> {
    if !m.contains_key(polling_key()) {
        Ok(0)
    } else if m[polling_key()].len() == 8 {
        Ok(be_value_i64(m[polling_key()]))
    } else {
        Err(RecordError::StoreFailure(StoreFault::Malformed))
    }
}

/// The bytes of the plan with its switch set, from what was found under the
/// plan's key.
pub open spec fn switched_plan(entry: Option<Seq<u8>>, enabled: bool) -> Result<
    Seq<u8>,
    RecordError,
> {
    match entry {
        None => Err(RecordError::StoreFailure(StoreFault::PlanNotFound)),
        Some(bytes) => match plan_of_bytes(bytes) {
            Some(p) => Ok(plan_bytes(RecordingPlanView { enabled, ..p })),
            None => Err(RecordError::StoreFailure(StoreFault::Malformed)),
        },
    }
}

/// The first position from `i` on whose plan was created before `t`; the
/// length of the list where there is none.
pub open spec fn first_older(plans: Seq<RecordingPlanView>, t: i64, i: int) -> int
    decreases plans.len() - i,
{
    if i < 0 || i >= plans.len() {
        plans.len() as int
    } else if plans[i].created_at < t {
        i
    } else {
        first_older(plans, t, i + 1)
    }
}

/// The list with `p` placed before the first plan that was created earlier.
pub open spec fn placed(plans: Seq<RecordingPlanView>, p: RecordingPlanView) -> Seq<
    RecordingPlanView,
> {
    plans.insert(first_older(plans, p.created_at, 0), p)
}

/// The plan with the cached descriptor of its channel filled in where the
/// plan carries none of its own.
pub open spec fn with_live(p: RecordingPlanView, m: Entries) -> RecordingPlanView {
    if p.live_info is None {
        RecordingPlanView { live_info: live_lookup(m, p.url), ..p }
    } else {
        p
    }
}

/// The plans among the listed entries, latest creation first; with
/// `only_enabled`, the enabled ones alone. Plans created at the same time stay
/// in the order of the listing, and entries that cannot be read are left out.
pub open spec fn listed_plans(
    m: Entries,
    listing: Seq<(String, Vec<u8>)>,
    only_enabled: bool,
) -> Seq<RecordingPlanView>
    decreases listing.len(),
{
    if listing.len() == 0 {
        Seq::empty()
    } else {
        let rest = listed_plans(m, listing.drop_last(), only_enabled);
        match plan_of_bytes(listing.last().1@) {
            Some(p) => if p.enabled || !only_enabled {
                placed(rest, with_live(p, m))
            } else {
                rest
            },
            None => rest,
        }
    }
}

/// No plan of the list was created later than a plan before it.
pub open spec fn latest_first(plans: Seq<RecordingPlanView>) -> bool {
    forall|i: int, j: int| 0 <= i < j < plans.len() ==> plans[i].created_at >= plans[j].created_at
}

/// The place found for a creation time lies in the list, behind every plan
/// created no earlier and, unless it is the end, at a plan created earlier.
pub proof fn lemma_first_older(plans: Seq<RecordingPlanView>, t: i64, i: int)
    requires
        0 <= i <= plans.len(),
    ensures
        i <= first_older(plans, t, i) <= plans.len(),
        forall|k: int| i <= k < first_older(plans, t, i) ==> plans[k].created_at >= t,
        first_older(plans, t, i) < plans.len() ==> plans[first_older(plans, t, i)].created_at < t,
    decreases plans.len() - i,
{
    if i < plans.len() && plans[i].created_at >= t {
        lemma_first_older(plans, t, i + 1);
    }
}

/// The listed plans come latest creation first, and with `only_enabled` all
/// of them are enabled.
pub proof fn lemma_listed_plans(m: Entries, listing: Seq<(String, Vec<u8>)>, only_enabled: bool)
    ensures
        latest_first(listed_plans(m, listing, only_enabled)),
        only_enabled ==> forall|i: int|
            0 <= i < listed_plans(m, listing, only_enabled).len() ==> (#[trigger] listed_plans(
                m,
                listing,
                only_enabled,
            )[i]).enabled,
    decreases listing.len(),
{
    if listing.len() > 0 {
        lemma_listed_plans(m, listing.drop_last(), only_enabled);
        let rest = listed_plans(m, listing.drop_last(), only_enabled);
        match plan_of_bytes(listing.last().1@) {
            Some(p) => {
                if p.enabled || !only_enabled {
                    let x = with_live(p, m);
                    lemma_first_older(rest, x.created_at, 0);
                    let at = first_older(rest, x.created_at, 0);
                    let out = placed(rest, x);
                    assert forall|i: int, j: int| 0 <= i < j < out.len() implies out[i].created_at
                        >= out[j].created_at by {
                        if j < at {
                            assert(out[i] == rest[i] && out[j] == rest[j]);
                        } else if j == at {
                            assert(out[i] == rest[i]);
                        } else if i < at {
                            assert(out[i] == rest[i] && out[j] == rest[j - 1]);
                        } else if i == at {
                            assert(out[j] == rest[j - 1]);
                            assert(rest[at].created_at >= rest[j - 1].created_at || at == j - 1);
                        } else {
                            assert(out[i] == rest[i - 1] && out[j] == rest[j - 1]);
                        }
                    }
                    if only_enabled {
                        assert forall|i: int| 0 <= i < out.len() implies (#[trigger] out[i]).enabled by {
                            if i < at {
                                assert(out[i] == rest[i]);
                            } else if i > at {
                                assert(out[i] == rest[i - 1]);
                            }
                        }
                    }
                }
            },
            None => {},
        }
    }
}

/// Every entry of the listing that can be read as a plan, and is enabled
/// where only enabled plans are listed, is among the listed plans.
pub proof fn lemma_listed_plans_hold(
    m: Entries,
    listing: Seq<(String, Vec<u8>)>,
    only_enabled: bool,
    j: int,
)
    requires
        0 <= j < listing.len(),
        plan_of_bytes(listing[j].1@) matches Some(p) && (p.enabled || !only_enabled),
    ensures
        exists|i: int|
            0 <= i < listed_plans(m, listing, only_enabled).len() && #[trigger] listed_plans(
                m,
                listing,
                only_enabled,
            )[i] == with_live(plan_of_bytes(listing[j].1@)->Some_0, m),
    decreases listing.len(),
{
    let rest = listed_plans(m, listing.drop_last(), only_enabled);
    let wanted = with_live(plan_of_bytes(listing[j].1@)->Some_0, m);
    if j == listing.len() - 1 {
        lemma_first_older(rest, wanted.created_at, 0);
        let at = first_older(rest, wanted.created_at, 0);
        assert(listed_plans(m, listing, only_enabled)[at] == wanted);
    } else {
        assert(listing.drop_last()[j] == listing[j]);
        lemma_listed_plans_hold(m, listing.drop_last(), only_enabled, j);
        let i = choose|i: int| 0 <= i < rest.len() && #[trigger] rest[i] == wanted;
        match plan_of_bytes(listing.last().1@) {
            Some(p) => {
                if p.enabled || !only_enabled {
                    let x = with_live(p, m);
                    lemma_first_older(rest, x.created_at, 0);
                    let at = first_older(rest, x.created_at, 0);
                    if i < at {
                        assert(listed_plans(m, listing, only_enabled)[i] == wanted);
                    } else {
                        assert(listed_plans(m, listing, only_enabled)[i + 1] == wanted);
                    }
                } else {
                    assert(listed_plans(m, listing, only_enabled)[i] == wanted);
                }
            },
            None => {
                assert(listed_plans(m, listing, only_enabled)[i] == wanted);
            },
        }
    }
}

/// Remembers `now` as the time of the last poll.
pub fn mark_polling_time_at(store: &mut Store, now: i64) -> (r: Result<(), RecordError>)
    ensures
        match r {
            Ok(()) => final(store)@ == old(store)@.insert(polling_key(), be_bytes_i64(now)),
            Err(e) => e.is_backend(),
        },
{
    let mut value: Vec<u8> = Vec::new();
    put_i64(&mut value, now);
    assert(value@ =~= be_bytes_i64(now));
    store.write("polling_time", value.as_slice())
}

/// Remembers the current time as the time of the last poll.
pub fn mark_polling_time(store: &mut Store) -> (r: Result<(), RecordError>)
    ensures
        match r {
            Ok(()) => exists|now: i64|
                now >= 0 && final(store)@ == old(store)@.insert(polling_key(), be_bytes_i64(now)),
            Err(e) => e.is_backend(),
        },
{
    let now = now_millis();
    let r = mark_polling_time_at(store, now);
    if r.is_ok() {
        assert(now >= 0 && store@ == old(store)@.insert(polling_key(), be_bytes_i64(now)));
    }
    r
}

/// The time of the last poll, 0 where none was remembered.
pub fn get_last_polling_time(store: &Store) -> (r: Result<i64, RecordError>)
    ensures
        match r {
            Ok(t) => last_polling_time(store@) == Ok::<i64, RecordError>(t),
            Err(e) => e.is_backend() || last_polling_time(store@) == Err::<i64, RecordError>(e),
        },
{
    match store.read("polling_time") {
        Ok(Some(value)) => {
            if value.len() == 8 {
                let t = get_i64(value.as_slice(), 0);
                assert(value@.subrange(0, 8) =~= value@);
                Ok(t)
            } else {
                Err(RecordError::StoreFailure(StoreFault::Malformed))
            }
        },
        Ok(None) => Ok(0),
        Err(e) => Err(e),
    }
}

/// Stores the plan under its channel, replacing the channel's earlier plan.
/// A plan is always short enough to be written, so it reads back as it is.
pub fn add(store: &mut Store, plan: &RecordingPlan) -> (r: Result<(), RecordError>)
    ensures
        match r {
            Ok(()) => final(store)@ == old(store)@.insert(plan_key(plan@.url), plan_bytes(plan@)),
            Err(e) => e.is_backend(),
        },
        plan_fits(plan@),
{
    let key = Family::Plan.key(plan.url.as_str());
    let value = plan.to_bytes();
    store.write(key.as_str(), value.as_slice())
}

/// The plan of `url`: none where the channel has no plan, an error where what
/// is stored cannot be read.
pub fn get(store: &Store, url: String) -> (r: Result<Option<RecordingPlan>, RecordError>)
    ensures
        match r {
            Ok(Some(p)) => plan_lookup(store@, url@) == Some(p@),
            Ok(None) => plan_entry(store@, url@) is None,
            Err(e) => e.is_backend() || (e == RecordError::StoreFailure(StoreFault::Malformed)
                && plan_entry(store@, url@) is Some && plan_lookup(store@, url@) is None),
        },
{
    let key = Family::Plan.key(url.as_str());
    match store.read(key.as_str()) {
        Ok(Some(bytes)) => match RecordingPlan::from_bytes(bytes.as_slice()) {
            Some(p) => Ok(Some(p)),
            None => Err(RecordError::StoreFailure(StoreFault::Malformed)),
        },
        Ok(None) => Ok(None),
        Err(e) => Err(e),
    }
}

/// Removes the plan of `url`; no error where the channel has none.
pub fn delete(store: &mut Store, url: &str) -> (r: Result<(), RecordError>)
    ensures
        match r {
            Ok(()) => final(store)@ == old(store)@.remove(plan_key(url@)),
            Err(e) => e.is_backend(),
        },
{
    let key = Family::Plan.key(url);
    store.erase(key.as_str())
}

/// The bytes of the plan with its switch set, from what was found under the
/// plan's key.
pub fn switch_plan(entry: &Option<Vec<u8>>, enabled: bool) -> (r: Result<Vec<u8>, RecordError>)
    ensures
        match r {
            Ok(bytes) => switched_plan(
                match *entry {
                    Some(v) => Some(v@),
                    None => None,
                },
                enabled,
            ) == Ok::<Seq<u8>, RecordError>(bytes@),
            Err(e) => switched_plan(
                match *entry {
                    Some(v) => Some(v@),
                    None => None,
                },
                enabled,
            ) == Err::<Seq<u8>, RecordError>(e),
        },
{
    match entry {
        None => Err(RecordError::StoreFailure(StoreFault::PlanNotFound)),
        Some(bytes) => match RecordingPlan::from_bytes(bytes.as_slice()) {
            Some(p) => {
                let mut p = p;
                p.enabled = enabled;
                Ok(p.to_bytes())
            },
            None => Err(RecordError::StoreFailure(StoreFault::Malformed)),
        },
    }
}

/// Switches the plan of `url` on or off. Fails, and changes nothing, where
/// the channel has no plan or the plan cannot be read.
pub fn update_status(store: &mut Store, url: &str, enabled: bool) -> (r: Result<(), RecordError>)
    ensures
        match r {
            Ok(()) => switched_plan(plan_entry(old(store)@, url@), enabled) matches Ok(bytes)
                && final(store)@ == old(store)@.insert(plan_key(url@), bytes),
            Err(e) => e.is_backend() || (final(store)@ == old(store)@ && switched_plan(
                plan_entry(old(store)@, url@),
                enabled,
            ) == Err::<Seq<u8>, RecordError>(e)),
        },
{
    let key = Family::Plan.key(url);
    let found = match store.read(key.as_str()) {
        Ok(x) => x,
        Err(e) => {
            return Err(e);
        },
    };
    let bytes = match switch_plan(&found, enabled) {
        Ok(b) => b,
        Err(e) => {
            return Err(e);
        },
    };
    store.write(key.as_str(), bytes.as_slice())
}

/// Places `p` before the first plan that was created earlier than it.
fn place(plans: &mut Vec<RecordingPlan>, p: RecordingPlan)
    ensures
        plans_view(final(plans)@) == placed(plans_view(old(plans)@), p@),
{
    let mut i: usize = 0;
    while i < plans.len() && plans[i].created_at >= p.created_at
        invariant
            i <= plans@.len(),
            first_older(plans_view(plans@), p.created_at, 0) == first_older(
                plans_view(plans@),
                p.created_at,
                i as int,
            ),
        decreases plans@.len() - i,
    {
        i += 1;
    }
    assert(first_older(plans_view(plans@), p.created_at, i as int) == i);
    assert(plans_view(plans@.insert(i as int, p)) =~= plans_view(plans@).insert(i as int, p@));
    plans.insert(i, p);
}

fn collect(store: &Store, only_enabled: bool) -> (r: Result<Vec<RecordingPlan>, RecordError>)
    ensures
        match r {
            Ok(plans) => exists|listing: Seq<(String, Vec<u8>)>|
                is_family_listing(store@, Family::Plan, listing) && plans_view(plans@)
                    == listed_plans(store@, listing, only_enabled),
            Err(e) => e.is_backend(),
        },
{
    let listing = match store.scan(Family::Plan) {
        Ok(x) => x,
        Err(e) => {
            return Err(e);
        },
    };
    let mut plans: Vec<RecordingPlan> = Vec::new();
    let mut i: usize = 0;
    assert(plans_view(plans@) =~= listed_plans(store@, listing@.subrange(0, 0), only_enabled));
    while i < listing.len()
        invariant
            i <= listing@.len(),
            plans_view(plans@) == listed_plans(
                store@,
                listing@.subrange(0, i as int),
                only_enabled,
            ),
        decreases listing@.len() - i,
    {
        let found = RecordingPlan::from_bytes(listing[i].1.as_slice());
        proof {
            assert(listing@.subrange(0, i + 1).drop_last() =~= listing@.subrange(0, i as int));
            assert(listing@.subrange(0, i + 1).last() == listing@[i as int]);
        }
        match found {
            Some(p) => {
                if p.enabled || !only_enabled {
                    let mut p = p;
                    if p.live_info.is_none() {
                        match lookup(store, p.url.as_str()) {
                            Ok(live) => {
                                p.live_info = live;
                            },
                            Err(e) => {
                                return Err(e);
                            },
                        }
                    }
                    place(&mut plans, p);
                }
            },
            None => {},
        }
        i += 1;
    }
    assert(listing@.subrange(0, i as int) =~= listing@);
    Ok(plans)
}

/// All plans, latest creation first, each with the cached descriptor of its
/// channel where it carries none of its own.
pub fn get_all(store: &Store) -> (r: Result<Vec<RecordingPlan>, RecordError>)
    ensures
        match r {
            Ok(plans) => exists|listing: Seq<(String, Vec<u8>)>|
                is_family_listing(store@, Family::Plan, listing) && plans_view(plans@)
                    == listed_plans(store@, listing, false),
            Err(e) => e.is_backend(),
        },
{
    collect(store, false)
}

/// The enabled plans, latest creation first, each with the cached descriptor
/// of its channel where it carries none of its own.
pub fn get_enabled(store: &Store) -> (r: Result<Vec<RecordingPlan>, RecordError>)
    ensures
        match r {
            Ok(plans) => exists|listing: Seq<(String, Vec<u8>)>|
                is_family_listing(store@, Family::Plan, listing) && plans_view(plans@)
                    == listed_plans(store@, listing, true),
            Err(e) => e.is_backend(),
        },
{
    collect(store, true)
}

} // verus!
