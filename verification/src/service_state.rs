//! The generic service state: online flag, optional capacity and who is present,
//! with the transitions that keep it and the events each transition announces.

use vstd::prelude::*;

use crate::players::PlayerSet;
use crate::presence::{joined_names, left_names, names_missing_from, push_notices, sync_events};
use crate::status::{describes, is_notice, is_status_event, join_suffix, leave_suffix, notice, snapshot, string_views, ServiceEvent, StatusResponse};

verus! {

pub open spec fn max_or_zero(m: Option<u32>) -> u32 {
    match m {
        Some(v) => v,
        None => 0,
    }
}

/// Whether a service answers, its capacity if it has one, and who is present.
#[derive(Debug)]
pub struct ServiceState {
    pub online: bool,
    pub max: Option<u32>,
    pub present: PlayerSet,
}

impl ServiceState {
    /// Offline, no capacity, nobody present.
    pub fn new() -> (r: Self)
        ensures
            !r.online,
            r.max is None,
            r.present@.len() == 0,
    {
        ServiceState { online: false, max: None, present: PlayerSet::new() }
    }

    /// The PSP status of this state; the capacity reads 0 when unknown.
    pub fn to_status(&self) -> (r: StatusResponse)
        ensures
            describes(r, self.online, max_or_zero(self.max), self.present@, true),
    {
        let max = match self.max {
            Some(m) => m,
            None => 0,
        };
        snapshot(self.online, max, &self.present, true)
    }

    /// `who` joined. A new arrival yields a status change and a join notice;
    /// a known one changes nothing and yields nothing.
    pub fn record_join(&mut self, who: &str) -> (r: Vec<ServiceEvent>)
        ensures
            final(self).online == old(self).online,
            final(self).max == old(self).max,
            final(self).present.members() == old(self).present.members().insert(who@),
            old(self).present@.contains(who@) ==> final(self).present@ == old(self).present@
                && r@.len() == 0,
            !old(self).present@.contains(who@) ==> r@.len() == 2 && is_status_event(
                r@[0],
                final(self).online,
                max_or_zero(final(self).max),
                final(self).present@,
                true,
            ) && is_notice(r@[1], who@ + join_suffix()),
    {
        let changed = self.present.insert(String::from_str(who));
        let mut events: Vec<ServiceEvent> = Vec::new();
        if changed {
            events.push(ServiceEvent::StatusChanged(self.to_status()));
            events.push(notice(who, " 님이 접속했습니다"));
        }
        events
    }

    /// `who` left. A known member yields a status change and a leave notice;
    /// an unknown one changes nothing and yields nothing.
    pub fn record_leave(&mut self, who: &str) -> (r: Vec<ServiceEvent>)
        ensures
            final(self).online == old(self).online,
            final(self).max == old(self).max,
            final(self).present.members() == old(self).present.members().remove(who@),
            !old(self).present@.contains(who@) ==> final(self).present@ == old(self).present@
                && r@.len() == 0,
            old(self).present@.contains(who@) ==> r@.len() == 2 && is_status_event(
                r@[0],
                final(self).online,
                max_or_zero(final(self).max),
                final(self).present@,
                true,
            ) && is_notice(r@[1], who@ + leave_suffix()),
    {
        let changed = self.present.remove(who);
        let mut events: Vec<ServiceEvent> = Vec::new();
        if changed {
            events.push(ServiceEvent::StatusChanged(self.to_status()));
            events.push(notice(who, " 님이 퇴장했습니다"));
        }
        events
    }

    /// Replaces the presence by the `authoritative` one and marks the service online;
    /// a given `max` replaces the capacity. A status change is announced when the
    /// service was offline or the presence changed, then a join notice per arrival
    /// and a leave notice per departure, each in name order.
    pub fn resync(&mut self, authoritative: PlayerSet, max: Option<u32>) -> (r: Vec<ServiceEvent>)
        ensures
            final(self).online,
            final(self).max == (if max is Some { max } else { old(self).max }),
            final(self).present@ == authoritative@,
            sync_events(
                r@,
                !old(self).online
                    || joined_names(old(self).present@, authoritative@).len() > 0
                    || left_names(old(self).present@, authoritative@).len() > 0,
                true,
                max_or_zero(final(self).max),
                authoritative@,
                true,
                joined_names(old(self).present@, authoritative@),
                left_names(old(self).present@, authoritative@),
            ),
    {
        if let Some(m) = max {
            self.max = Some(m);
        }
        let was_offline = !self.online;
        self.online = true;
        let joined = names_missing_from(&authoritative, &self.present);
        let left = names_missing_from(&self.present, &authoritative);
        self.present = authoritative;
        let mut events: Vec<ServiceEvent> = Vec::new();
        if was_offline || joined.len() > 0 || left.len() > 0 {
            events.push(ServiceEvent::StatusChanged(self.to_status()));
        }
        let ghost k = events@.len();
        push_notices(&mut events, &joined, " 님이 접속했습니다");
        let ghost mid = events@;
        push_notices(&mut events, &left, " 님이 퇴장했습니다");
        proof {
            assert forall|i: int| 0 <= i < joined@.len() implies is_notice(
                #[trigger] events@[k + i],
                string_views(joined@)[i] + join_suffix(),
            ) by {
                assert(events@[k + i] == mid[k + i]);
            }
        }
        events
    }

    /// Marks the service offline and empties the presence; announced by a status change
    /// only when it was online. An offline service is left as it is.
    pub fn record_offline(&mut self) -> (r: Vec<ServiceEvent>)
        ensures
            !final(self).online,
            final(self).max == old(self).max,
            old(self).online ==> final(self).present@.len() == 0 && r@.len() == 1 && is_status_event(
                r@[0],
                false,
                max_or_zero(final(self).max),
                final(self).present@,
                true,
            ),
            !old(self).online ==> final(self).present@ == old(self).present@ && r@.len() == 0,
    {
        let mut events: Vec<ServiceEvent> = Vec::new();
        if self.online {
            self.online = false;
            self.present.clear();
            events.push(ServiceEvent::StatusChanged(self.to_status()));
        }
        events
    }
}

impl Default for ServiceState {
    fn default() -> (r: Self)
        ensures
            !r.online,
            r.max is None,
            r.present@.len() == 0,
    {
        ServiceState::new()
    }
}

} // verus!
