//! What changes when a presence set is replaced by an authoritative one.

use vstd::prelude::*;

use crate::players::PlayerSet;
use crate::status::{is_notice, is_status_event, join_suffix, leave_suffix, notice, string_views, ServiceEvent};

verus! {

/// The names of `auth` that are not in `old`, in `auth`'s order.
pub open spec fn joined_names(old: Seq<Seq<char>>, auth: Seq<Seq<char>>) -> Seq<Seq<char>> {
    auth.filter(|n: Seq<char>| !old.contains(n))
}

/// The names of `old` that are not in `auth`, in `old`'s order.
pub open spec fn left_names(old: Seq<Seq<char>>, auth: Seq<Seq<char>>) -> Seq<Seq<char>> {
    old.filter(|n: Seq<char>| !auth.contains(n))
}

/// The names of `from` that are not in `other`, in `from`'s order.
pub fn names_missing_from(from: &PlayerSet, other: &PlayerSet) -> (r: Vec<String>)
    ensures
        string_views(r@) == from@.filter(|n: Seq<char>| !other@.contains(n)),
{
    let ghost pred = |n: Seq<char>| !other@.contains(n);
    let mut r: Vec<String> = Vec::new();
    let mut i: usize = 0;
    let len = from.len();
    assert(from@.take(0) =~= Seq::<Seq<char>>::empty());
    while i < len
        invariant
            len == from@.len(),
            i <= len,
            pred == (|n: Seq<char>| !other@.contains(n)),
            string_views(r@) == from@.take(i as int).filter(pred),
        decreases len - i,
    {
        let name = from.get(i);
        let ghost before = from@.take(i as int);
        proof {
            assert(from@.take(i + 1) =~= before.push(from@[i as int]));
            before.lemma_filter_push(from@[i as int], pred);
        }
        if !other.contains(name.as_str()) {
            r.push(name.clone());
            assert(string_views(r@) =~= before.filter(pred).push(from@[i as int]));
            assert(pred(from@[i as int]));
        } else {
            assert(!pred(from@[i as int]));
        }
        assert(string_views(r@) == from@.take(i + 1).filter(pred));
        i = i + 1;
    }
    assert(from@.take(len as int) =~= from@);
    r
}

/// The events of one presence resynchronisation: a status change if `changed`, then a
/// join notice for each of `joined`, then a leave notice for each of `left`.
pub open spec fn sync_events(
    events: Seq<ServiceEvent>,
    changed: bool,
    online: bool,
    max: u32,
    names: Seq<Seq<char>>,
    with_present: bool,
    joined: Seq<Seq<char>>,
    left: Seq<Seq<char>>,
) -> bool {
    let k: int = if changed { 1 } else { 0 };
    &&& events.len() == k + joined.len() + left.len()
    &&& changed ==> is_status_event(events[0], online, max, names, with_present)
    &&& forall|i: int| 0 <= i < joined.len() ==> is_notice(#[trigger] events[k + i], joined[i] + join_suffix())
    &&& forall|i: int| 0 <= i < left.len() ==> is_notice(#[trigger] events[k + joined.len() + i], left[i] + leave_suffix())
}

/// Appends a notice for each of `names`, each titled by the name and `suffix`.
pub fn push_notices(events: &mut Vec<ServiceEvent>, names: &Vec<String>, suffix: &str)
    ensures
        final(events)@.len() == old(events)@.len() + names@.len(),
        forall|i: int| 0 <= i < old(events)@.len() ==> final(events)@[i] == old(events)@[i],
        forall|i: int| 0 <= i < names@.len() ==> is_notice(#[trigger] final(events)@[old(events)@.len() + i], names@[i]@ + suffix@),
{
    let ghost start = events@;
    let mut i: usize = 0;
    while i < names.len()
        invariant
            i <= names@.len(),
            events@.len() == start.len() + i,
            forall|j: int| 0 <= j < start.len() ==> events@[j] == start[j],
            forall|j: int| 0 <= j < i ==> is_notice(#[trigger] events@[start.len() + j], names@[j]@ + suffix@),
        decreases names@.len() - i,
    {
        events.push(notice(names[i].as_str(), suffix));
        i = i + 1;
    }
}

/// Joining twice is joining once: a repeated join leaves the members as they are.
pub proof fn law_join_idempotent(members: Set<Seq<char>>, who: Seq<char>)
    ensures
        members.insert(who).insert(who) == members.insert(who),
{
    assert(members.insert(who).insert(who) =~= members.insert(who));
}

/// A leave undoes the join of a newcomer.
pub proof fn law_leave_undoes_join(members: Set<Seq<char>>, who: Seq<char>)
    requires
        !members.contains(who),
    ensures
        members.insert(who).remove(who) == members,
{
    assert(members.insert(who).remove(who) =~= members);
}

/// Resynchronising with the presence already held finds nobody arriving or leaving.
pub proof fn law_resync_idempotent(names: Seq<Seq<char>>)
    ensures
        joined_names(names, names).len() == 0,
        left_names(names, names).len() == 0,
{
    let p = |n: Seq<char>| !names.contains(n);
    if names.filter(p).len() > 0 {
        names.lemma_filter_contains_rev(p, names.filter(p)[0]);
        names.filter(p).lemma_filter_pred(p, 0);
        assert(names.filter(p).contains(names.filter(p)[0]));
    }
}

/// The arrivals are exactly the names only in the authoritative presence, the departures
/// exactly those only in the old one.
pub proof fn law_resync_notices_are_the_difference(old: Seq<Seq<char>>, auth: Seq<Seq<char>>)
    ensures
        joined_names(old, auth).to_set() == auth.to_set().difference(old.to_set()),
        left_names(old, auth).to_set() == old.to_set().difference(auth.to_set()),
{
    let pj = |n: Seq<char>| !old.contains(n);
    let pl = |n: Seq<char>| !auth.contains(n);
    let j = auth.filter(pj);
    let l = old.filter(pl);
    assert forall|n: Seq<char>| j.to_set().contains(n) <==> auth.to_set().difference(old.to_set()).contains(n) by {
        if j.to_set().contains(n) {
            let k = choose|k: int| 0 <= k < j.len() && j[k] == n;
            auth.lemma_filter_pred(pj, k);
            auth.lemma_filter_contains_rev(pj, n);
            assert(j.contains(n));
        }
        if auth.to_set().difference(old.to_set()).contains(n) {
            let k = choose|k: int| 0 <= k < auth.len() && auth[k] == n;
            auth.lemma_filter_contains(pj, k);
        }
    }
    assert forall|n: Seq<char>| l.to_set().contains(n) <==> old.to_set().difference(auth.to_set()).contains(n) by {
        if l.to_set().contains(n) {
            let k = choose|k: int| 0 <= k < l.len() && l[k] == n;
            old.lemma_filter_pred(pl, k);
            old.lemma_filter_contains_rev(pl, n);
            assert(l.contains(n));
        }
        if old.to_set().difference(auth.to_set()).contains(n) {
            let k = choose|k: int| 0 <= k < old.len() && old[k] == n;
            old.lemma_filter_contains(pl, k);
        }
    }
    assert(j.to_set() =~= auth.to_set().difference(old.to_set()));
    assert(l.to_set() =~= old.to_set().difference(auth.to_set()));
}

} // verus!
