//! The Minecraft instance state: whether RCON answers, the player capacity and who is
//! online, with the transitions that keep it and the events each transition announces.

use vstd::prelude::*;

use crate::players::PlayerSet;
use crate::presence::{joined_names, left_names, names_missing_from, push_notices, sync_events};
use crate::status::{describes, is_notice, is_status_event, join_suffix, leave_suffix, notice, snapshot, string_views, ServiceEvent, StatusResponse};

verus! {

/// Whether the server answers RCON, its player capacity, and who is online.
#[derive(Debug)]
pub struct McState {
    pub online: bool,
    pub max_players: u32,
    pub players: PlayerSet,
}

impl McState {
    /// Offline, capacity 0, nobody online.
    pub fn new() -> (r: Self)
        ensures
            !r.online,
            r.max_players == 0,
            r.players@.len() == 0,
    {
        McState { online: false, max_players: 0, players: PlayerSet::new() }
    }

    /// The PSP status of this state (the players metric, without a presence list).
    pub fn to_status(&self) -> (r: StatusResponse)
        ensures
            describes(r, self.online, self.max_players, self.players@, false),
    {
        snapshot(self.online, self.max_players, &self.players, false)
    }

    /// `who` joined. A new arrival yields a status change and a join notice;
    /// a known one changes nothing and yields nothing.
    pub fn record_join(&mut self, who: &str) -> (r: Vec<ServiceEvent>)
        ensures
            final(self).online == old(self).online,
            final(self).max_players == old(self).max_players,
            final(self).players.members() == old(self).players.members().insert(who@),
            old(self).players@.contains(who@) ==> final(self).players@ == old(self).players@
                && r@.len() == 0,
            !old(self).players@.contains(who@) ==> r@.len() == 2 && is_status_event(
                r@[0],
                final(self).online,
                final(self).max_players,
                final(self).players@,
                false,
            ) && is_notice(r@[1], who@ + join_suffix()),
    {
        let changed = self.players.insert(String::from_str(who));
        let mut events: Vec<ServiceEvent> = Vec::new();
        if changed {
            events.push(ServiceEvent::StatusChanged(self.to_status()));
            events.push(notice(who, " 님이 접속했습니다"));
        }
        events
    }

    /// `who` left. A known member yields a status change and a leave notice;
    /// an unknown one changes nothing and yields nothing.
    pub fn record_leave(&mut self, who: &str) -> (r: Vec<ServiceEvent>)
        ensures
            final(self).online == old(self).online,
            final(self).max_players == old(self).max_players,
            final(self).players.members() == old(self).players.members().remove(who@),
            !old(self).players@.contains(who@) ==> final(self).players@ == old(self).players@
                && r@.len() == 0,
            old(self).players@.contains(who@) ==> r@.len() == 2 && is_status_event(
                r@[0],
                final(self).online,
                final(self).max_players,
                final(self).players@,
                false,
            ) && is_notice(r@[1], who@ + leave_suffix()),
    {
        let changed = self.players.remove(who);
        let mut events: Vec<ServiceEvent> = Vec::new();
        if changed {
            events.push(ServiceEvent::StatusChanged(self.to_status()));
            events.push(notice(who, " 님이 퇴장했습니다"));
        }
        events
    }

    /// Replaces the presence by the `authoritative` one and marks the service online;
    /// a given `max` replaces the capacity. A status change is announced when the
    /// service was offline or the presence changed, then a join notice per arrival
    /// and a leave notice per departure, each in name order.
    pub fn resync(&mut self, authoritative: PlayerSet, max: Option<u32>) -> (r: Vec<ServiceEvent>)
        ensures
            final(self).online,
            final(self).max_players == (if max is Some { max->0 } else { old(self).max_players }),
            final(self).players@ == authoritative@,
            sync_events(
                r@,
                !old(self).online
                    || joined_names(old(self).players@, authoritative@).len() > 0
                    || left_names(old(self).players@, authoritative@).len() > 0,
                true,
                final(self).max_players,
                authoritative@,
                false,
                joined_names(old(self).players@, authoritative@),
                left_names(old(self).players@, authoritative@),
            ),
    {
        if let Some(m) = max {
            self.max_players = m;
        }
        let was_offline = !self.online;
        self.online = true;
        let joined = names_missing_from(&authoritative, &self.players);
        let left = names_missing_from(&self.players, &authoritative);
        self.players = authoritative;
        let mut events: Vec<ServiceEvent> = Vec::new();
        if was_offline || joined.len() > 0 || left.len() > 0 {
            events.push(ServiceEvent::StatusChanged(self.to_status()));
        }
        let ghost k = events@.len();
        push_notices(&mut events, &joined, " 님이 접속했습니다");
        let ghost mid = events@;
        push_notices(&mut events, &left, " 님이 퇴장했습니다");
        proof {
            assert forall|i: int| 0 <= i < joined@.len() implies is_notice(
                #[trigger] events@[k + i],
                string_views(joined@)[i] + join_suffix(),
            ) by {
                assert(events@[k + i] == mid[k + i]);
            }
        }
        events
    }

    /// Marks the service offline and empties the presence; announced by a status change
    /// only when it was online. An offline service is left as it is.
    pub fn record_offline(&mut self) -> (r: Vec<ServiceEvent>)
        ensures
            !final(self).online,
            final(self).max_players == old(self).max_players,
            old(self).online ==> final(self).players@.len() == 0 && r@.len() == 1 && is_status_event(
                r@[0],
                false,
                final(self).max_players,
                final(self).players@,
                false,
            ),
            !old(self).online ==> final(self).players@ == old(self).players@ && r@.len() == 0,
    {
        let mut events: Vec<ServiceEvent> = Vec::new();
        if self.online {
            self.online = false;
            self.players.clear();
            events.push(ServiceEvent::StatusChanged(self.to_status()));
        }
        events
    }
}

impl Default for McState {
    fn default() -> (r: Self)
        ensures
            !r.online,
            r.max_players == 0,
            r.players@.len() == 0,
    {
        McState::new()
    }
}

} // verus!
