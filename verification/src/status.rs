//! PSP status and event values, and the players metric that describes a presence set.

use vstd::prelude::*;

use crate::players::PlayerSet;

verus! {

/// The kind of a status metric.
#[derive(Debug)]
pub enum MetricType {
    Players,
}

/// The value of the players metric: how many are present, the capacity, and who.
#[derive(Debug)]
pub struct PlayersValue {
    pub online: usize,
    pub max: u32,
    pub names: Vec<String>,
}

#[derive(Debug)]
pub struct Metric {
    pub id: String,
    pub label: String,
    pub kind: MetricType,
    pub value: PlayersValue,
}

/// One present person, by service-native identity.
#[derive(Debug)]
pub struct Present {
    pub id: String,
    pub label: Option<String>,
}

/// A PSP status snapshot.
#[derive(Debug)]
pub struct StatusResponse {
    pub online: bool,
    pub metrics: Vec<Metric>,
    pub badges: Vec<String>,
    pub present: Vec<Present>,
    pub last_updated: Option<u64>,
}

#[derive(Debug)]
pub enum NotificationLevel {
    Info,
}

#[derive(Debug)]
pub struct NotificationEvent {
    pub level: NotificationLevel,
    pub title: String,
    pub body: Option<String>,
}

/// A PSP service event; `Custom` carries the JSON text of a custom event.
#[derive(Debug)]
pub enum ServiceEvent {
    StatusChanged(StatusResponse),
    Notification(NotificationEvent),
    Custom(String),
}

pub open spec fn players_metric_id() -> Seq<char> {
    "players"@
}

pub open spec fn players_metric_label() -> Seq<char> {
    "접속자"@
}

pub open spec fn join_suffix() -> Seq<char> {
    " 님이 접속했습니다"@
}

pub open spec fn leave_suffix() -> Seq<char> {
    " 님이 퇴장했습니다"@
}

pub open spec fn string_views(v: Seq<String>) -> Seq<Seq<char>> {
    v.map_values(|s: String| s@)
}

pub open spec fn present_ids(v: Seq<Present>) -> Seq<Seq<char>> {
    v.map_values(|p: Present| p.id@)
}

/// `st` is the snapshot of a service that is `online`, has capacity `max` and has
/// `names` present (in order); `with_present` says whether the presence list is filled.
pub open spec fn describes(
    st: StatusResponse,
    online: bool,
    max: u32,
    names: Seq<Seq<char>>,
    with_present: bool,
) -> bool {
    &&& st.online == online
    &&& st.metrics@.len() == 1
    &&& st.metrics@[0].id@ == players_metric_id()
    &&& st.metrics@[0].label@ == players_metric_label()
    &&& st.metrics@[0].kind is Players
    &&& st.metrics@[0].value.online == names.len()
    &&& st.metrics@[0].value.max == max
    &&& string_views(st.metrics@[0].value.names@) == names
    &&& st.badges@.len() == 0
    &&& st.last_updated is None
    &&& if with_present {
        &&& present_ids(st.present@) == names
        &&& forall|i: int| 0 <= i < st.present@.len() ==> (#[trigger] st.present@[i]).label is None
    } else {
        st.present@.len() == 0
    }
}

/// `ev` is a status change carrying a snapshot as `describes` says.
pub open spec fn is_status_event(
    ev: ServiceEvent,
    online: bool,
    max: u32,
    names: Seq<Seq<char>>,
    with_present: bool,
) -> bool {
    match ev {
        ServiceEvent::StatusChanged(st) => describes(st, online, max, names, with_present),
        _ => false,
    }
}

/// `ev` is an information notice titled `title`, without a body.
pub open spec fn is_notice(ev: ServiceEvent, title: Seq<char>) -> bool {
    match ev {
        ServiceEvent::Notification(n) => n.level is Info && n.title@ == title && n.body is None,
        _ => false,
    }
}

/// The SSE event name of `ev`.
pub open spec fn event_name_of(ev: ServiceEvent) -> Seq<char> {
    match ev {
        ServiceEvent::StatusChanged(_) => "status_changed"@,
        ServiceEvent::Notification(_) => "notification"@,
        ServiceEvent::Custom(_) => "custom"@,
    }
}

/// The SSE event name under which `ev` is sent.
pub fn event_name(ev: &ServiceEvent) -> (r: &'static str)
    ensures
        r@ == event_name_of(*ev),
{
    match ev {
        ServiceEvent::StatusChanged(_) => "status_changed",
        ServiceEvent::Notification(_) => "notification",
        ServiceEvent::Custom(_) => "custom",
    }
}

/// The status snapshot of a service that is `online`, has capacity `max` and has the
/// members of `present` present; `with_present` fills the presence list.
pub fn snapshot(online: bool, max: u32, present: &PlayerSet, with_present: bool) -> (r: StatusResponse)
    ensures
        describes(r, online, max, present@, with_present),
{
    let names = present.to_vec();
    let mut people: Vec<Present> = Vec::new();
    if with_present {
        let mut i: usize = 0;
        while i < names.len()
            invariant
                i <= names@.len(),
                people@.len() == i,
                forall|j: int| 0 <= j < i ==> (#[trigger] people@[j]).id@ == names@[j]@ && people@[j].label is None,
            decreases names@.len() - i,
        {
            people.push(Present { id: names[i].clone(), label: None });
            i = i + 1;
        }
        assert(present_ids(people@) =~= string_views(names@));
    }
    let count = names.len();
    let metric = Metric {
        id: String::from_str("players"),
        label: String::from_str("접속자"),
        kind: MetricType::Players,
        value: PlayersValue { online: count, max, names },
    };
    let mut metrics: Vec<Metric> = Vec::new();
    metrics.push(metric);
    StatusResponse { online, metrics, badges: Vec::new(), present: people, last_updated: None }
}

/// An information notice titled `who` followed by `suffix`.
pub fn notice(who: &str, suffix: &str) -> (r: ServiceEvent)
    ensures
        is_notice(r, who@ + suffix@),
{
    let title = String::from_str(who).concat(suffix);
    ServiceEvent::Notification(NotificationEvent { level: NotificationLevel::Info, title, body: None })
}

/// The players metric counts exactly the names it lists, whether or not the presence
/// list is filled, and lists them in the order given; the presence list, when filled,
/// names the same people.
pub proof fn law_players_metric_counts_its_names(
    st: StatusResponse,
    online: bool,
    max: u32,
    names: Seq<Seq<char>>,
    with_present: bool,
)
    requires
        describes(st, online, max, names, with_present),
    ensures
        st.metrics@[0].value.online == st.metrics@[0].value.names@.len(),
        st.metrics@[0].value.online == names.len(),
        forall|i: int| 0 <= i < names.len() ==> (#[trigger] st.metrics@[0].value.names@[i])@ == names[i],
        with_present ==> st.present@.len() == st.metrics@[0].value.names@.len(),
{
    assert(string_views(st.metrics@[0].value.names@).len() == st.metrics@[0].value.names@.len());
    assert forall|i: int| 0 <= i < names.len() implies (#[trigger] st.metrics@[0].value.names@[i])@ == names[i] by {
        assert(string_views(st.metrics@[0].value.names@)[i] == st.metrics@[0].value.names@[i]@);
    }
    if with_present {
        assert(present_ids(st.present@).len() == st.present@.len());
    }
}
} // verus!
