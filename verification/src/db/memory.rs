//! The state that the server keeps of each device from the messages it
//! publishes: whether it has been heard from, its last status, its events.
use crate::dto::mqtt::DeviceMessage;
use crate::text::{decimal, decimal_string};
use std::collections::{HashMap, HashSet, VecDeque};
use vstd::std_specs::iter::IteratorSpec;
use vstd::prelude::*;

verus! {

broadcast use vstd::std_specs::hash::group_hash_axioms;

/// The kinds of message that a device publishes.
#[derive(Debug, Clone, Copy, PartialEq, Eq, Structural)]
pub enum MessageKind {
    Status,
    Event,
    Other,
}

/// The kind that a message's `type` names: `status`, `event`, or neither.
pub open spec fn kind_of(type_: Seq<char>) -> MessageKind {
    if type_ == "status"@ {
        MessageKind::Status
    } else if type_ == "event"@ {
        MessageKind::Event
    } else {
        MessageKind::Other
    }
}

/// The kind of a message of the given type: `"status"`, `"event"`, or another.
pub fn message_kind(type_: &str) -> (k: MessageKind)
    ensures
        k == kind_of(type_@),
{
    let t = type_.to_string();
    if t == "status".to_string() {
        MessageKind::Status
    } else if t == "event".to_string() {
        MessageKind::Event
    } else {
        MessageKind::Other
    }
}

impl DeviceMessage {
    /// The kind of the message, as its `type` names it.
    pub fn kind(&self) -> (k: MessageKind)
        ensures
            k == kind_of(self.type_@),
    {
        message_kind(self.type_.as_str())
    }
}

/// The state kept of the devices: the MAC of each device heard from, the
/// last status of each, and the events of each in the order they came.
pub struct DeviceState {
    online: HashMap<i32, String>,
    status: HashMap<i32, serde_json::Value>,
    events: HashMap<i32, VecDeque<serde_json::Value>>,
}

/// What a `DeviceState` holds: the MAC of each device heard from, its last status and its events in order.
pub struct DeviceStateView {
    pub online: Map<i32, Seq<char>>,
    pub status: Map<i32, serde_json::Value>,
    pub events: Map<i32, Seq<serde_json::Value>>,
}

impl View for DeviceState {
    type V = DeviceStateView;

    closed spec fn view(&self) -> DeviceStateView {
        DeviceStateView {
            online: self.online@.map_values(|s: String| s@),
            status: self.status@,
            events: self.events@.map_values(|q: VecDeque<serde_json::Value>| q@),
        }
    }
}

/// The events of a device, none when it has sent none.
pub open spec fn events_of(m: Map<i32, Seq<serde_json::Value>>, id: i32) -> Seq<serde_json::Value> {
    if m.contains_key(id) { m[id] } else { Seq::empty() }
}

/// The state after a message from device `id`: the device is heard from with
/// the message's MAC; a status becomes its last status; an event joins the
/// end of its events; any other message changes nothing more.
pub open spec fn on_device_message(s: DeviceStateView, id: i32, msg: DeviceMessage) -> DeviceStateView {
    let heard = DeviceStateView { online: s.online.insert(id, msg.efuse_mac@), ..s };
    match kind_of(msg.type_@) {
        MessageKind::Status => DeviceStateView { status: heard.status.insert(id, msg.payload), ..heard },
        MessageKind::Event => DeviceStateView {
            events: heard.events.insert(id, events_of(heard.events, id).push(msg.payload)),
            ..heard
        },
        MessageKind::Other => heard,
    }
}

impl DeviceState {
    /// A state with no device heard from.
    pub fn new() -> (s: DeviceState)
        ensures
            s@.online == Map::<i32, Seq<char>>::empty(),
            s@.status == Map::<i32, serde_json::Value>::empty(),
            s@.events == Map::<i32, Seq<serde_json::Value>>::empty(),
    {
        let s = DeviceState { online: HashMap::new(), status: HashMap::new(), events: HashMap::new() };
        proof {
            assert(s@.online =~= Map::<i32, Seq<char>>::empty());
            assert(s@.events =~= Map::<i32, Seq<serde_json::Value>>::empty());
        }
        s
    }

    /// The last status of the device, if it has sent one.
    pub fn status(&self, device_id: i32) -> (r: Option<&serde_json::Value>)
        ensures
            match r {
                Some(v) => self@.status.contains_key(device_id) && *v == self@.status[device_id],
                None => !self@.status.contains_key(device_id),
            },
    {
        self.status.get(&device_id)
    }

    /// The events of the device, oldest first.
    pub fn events(&self, device_id: i32) -> (r: Option<&VecDeque<serde_json::Value>>)
        ensures
            match r {
                Some(q) => self@.events.contains_key(device_id) && q@ == self@.events[device_id],
                None => !self@.events.contains_key(device_id),
            },
    {
        self.events.get(&device_id)
    }

    /// The MAC of the device, if it has been heard from.
    pub fn online_mac(&self, device_id: i32) -> (r: Option<&String>)
        ensures
            match r {
                Some(m) => self@.online.contains_key(device_id) && m@ == self@.online[device_id],
                None => !self@.online.contains_key(device_id),
            },
    {
        self.online.get(&device_id)
    }

    /// Takes in a message from device `device_id`.
    pub fn on_device_message(&mut self, device_id: i32, message: DeviceMessage)
        ensures
            final(self)@ == on_device_message(old(self)@, device_id, message),
    {
        let ghost msg = message;
        let kind = message.kind();
        let DeviceMessage { efuse_mac, model_id: _, model_name: _, type_: _, payload } = message;
        self.online.insert(device_id, efuse_mac);
        proof {
            assert(self@.online =~= old(self)@.online.insert(device_id, msg.efuse_mac@));
        }
        let ghost heard = self@;
        match kind {
            MessageKind::Status => {
                self.on_device_status(device_id, payload);
            },
            MessageKind::Event => {
                self.on_device_event(device_id, payload);
            },
            MessageKind::Other => {},
        }
        proof {
            assert(self@ == on_device_message(old(self)@, device_id, msg));
        }
    }

    fn on_device_status(&mut self, device_id: i32, status: serde_json::Value)
        ensures
            final(self)@ == (DeviceStateView { status: old(self)@.status.insert(device_id, status), ..old(self)@ }),
    {
        self.status.insert(device_id, status);
    }

    fn on_device_event(&mut self, device_id: i32, event: serde_json::Value)
        ensures
            final(self)@ == (DeviceStateView {
                events: old(self)@.events.insert(device_id, events_of(old(self)@.events, device_id).push(event)),
                ..old(self)@
            }),
    {
        let ghost before = old(self)@.events;
        let mut queue = match self.events.remove(&device_id) {
            Some(q) => q,
            None => VecDeque::new(),
        };
        queue.push_back(event);
        self.events.insert(device_id, queue);
        proof {
            assert(self@.events =~= before.insert(device_id, events_of(before, device_id).push(event)));
        }
    }
}

/// A status message makes its payload the device's last status; an event
/// message puts its payload after the device's earlier events; both mark the
/// device as heard from with the message's MAC.
pub proof fn law_device_message_effects(s: DeviceStateView, id: i32, msg: DeviceMessage)
    ensures
        on_device_message(s, id, msg).online[id] == msg.efuse_mac@,
        kind_of(msg.type_@) == MessageKind::Status ==> on_device_message(s, id, msg).status[id] == msg.payload,
        kind_of(msg.type_@) == MessageKind::Event ==>
            on_device_message(s, id, msg).events[id] == events_of(s.events, id).push(msg.payload)
            && on_device_message(s, id, msg).status == s.status,
        kind_of(msg.type_@) == MessageKind::Other ==>
            on_device_message(s, id, msg).status == s.status && on_device_message(s, id, msg).events == s.events,
{
}

/// The state after the messages, in order, each from the device it names.
pub open spec fn after_messages(s: DeviceStateView, msgs: Seq<(i32, DeviceMessage)>) -> DeviceStateView
    decreases msgs.len(),
{
    if msgs.len() == 0 {
        s
    } else {
        on_device_message(after_messages(s, msgs.drop_last()), msgs.last().0, msgs.last().1)
    }
}

/// Whether the message is a status message from device `id`.
pub open spec fn is_status_from(m: (i32, DeviceMessage), id: i32) -> bool {
    m.0 == id && kind_of(m.1.type_@) == MessageKind::Status
}

/// After a status message from a device, and no later status message from
/// it, its last status is that message's payload, whatever other messages
/// came in between.
pub proof fn law_last_status_is_kept(s: DeviceStateView, msgs: Seq<(i32, DeviceMessage)>, i: int, id: i32)
    requires
        0 <= i < msgs.len(),
        is_status_from(msgs[i], id),
        forall|j: int| i < j < msgs.len() ==> !is_status_from(#[trigger] msgs[j], id),
    ensures
        after_messages(s, msgs).status.contains_key(id),
        after_messages(s, msgs).status[id] == msgs[i].1.payload,
    decreases msgs.len(),
{
    if i < msgs.len() - 1 {
        let rest = msgs.drop_last();
        assert forall|j: int| i < j < rest.len() implies !is_status_from(#[trigger] rest[j], id) by {
            assert(rest[j] == msgs[j]);
        }
        law_last_status_is_kept(s, rest, i, id);
        assert(!is_status_from(msgs[msgs.len() - 1], id));
    }
}

/// A device that sends no status message keeps the status it had: none if
/// it had none.
pub proof fn law_status_needs_a_status_message(s: DeviceStateView, msgs: Seq<(i32, DeviceMessage)>, id: i32)
    requires
        forall|j: int| 0 <= j < msgs.len() ==> !is_status_from(#[trigger] msgs[j], id),
    ensures
        after_messages(s, msgs).status.contains_key(id) == s.status.contains_key(id),
        s.status.contains_key(id) ==> after_messages(s, msgs).status[id] == s.status[id],
    decreases msgs.len(),
{
    if msgs.len() > 0 {
        let rest = msgs.drop_last();
        assert forall|j: int| 0 <= j < rest.len() implies !is_status_from(#[trigger] rest[j], id) by {
            assert(rest[j] == msgs[j]);
        }
        law_status_needs_a_status_message(s, rest, id);
        assert(!is_status_from(msgs[msgs.len() - 1], id));
    }
}

/// A status message changes neither the events of any device nor, for any
/// other device, its last status; an event message changes no last status.
pub proof fn law_status_leaves_events(s: DeviceStateView, id: i32, msg: DeviceMessage, other: i32)
    ensures
        kind_of(msg.type_@) == MessageKind::Status ==> on_device_message(s, id, msg).events == s.events,
        kind_of(msg.type_@) != MessageKind::Status ==> on_device_message(s, id, msg).status == s.status,
        other != id ==> on_device_message(s, id, msg).status.get(other) == s.status.get(other),
        other != id ==> events_of(on_device_message(s, id, msg).events, other) == events_of(s.events, other),
{
}

/// The payloads of the event messages from device `id`, in the order they came.
pub open spec fn event_payloads(msgs: Seq<(i32, DeviceMessage)>, id: i32) -> Seq<serde_json::Value>
    decreases msgs.len(),
{
    if msgs.len() == 0 {
        Seq::empty()
    } else if msgs.last().0 == id && kind_of(msgs.last().1.type_@) == MessageKind::Event {
        event_payloads(msgs.drop_last(), id).push(msgs.last().1.payload)
    } else {
        event_payloads(msgs.drop_last(), id)
    }
}

/// After any messages, the events of a device are the events it had before
/// followed by the payloads of its event messages, in the order they came:
/// no message of another kind, and no message of another device, adds or
/// removes one.
pub proof fn law_events_are_the_event_payloads(s: DeviceStateView, msgs: Seq<(i32, DeviceMessage)>, id: i32)
    ensures
        events_of(after_messages(s, msgs).events, id) == events_of(s.events, id) + event_payloads(msgs, id),
    decreases msgs.len(),
{
    if msgs.len() == 0 {
        assert(events_of(s.events, id) + Seq::<serde_json::Value>::empty() =~= events_of(s.events, id));
    } else {
        law_events_are_the_event_payloads(s, msgs.drop_last(), id);
        let prev = after_messages(s, msgs.drop_last());
        let m = msgs.last();
        if m.0 == id && kind_of(m.1.type_@) == MessageKind::Event {
            assert(events_of(s.events, id) + event_payloads(msgs, id)
                =~= (events_of(s.events, id) + event_payloads(msgs.drop_last(), id)).push(m.1.payload));
        }
    }
}

/// The notifications that a status message from device `device_id` sends to
/// the event sessions: one for each account of the device, in no particular
/// order, each carrying the device id in decimal.
pub fn status_notifications(device_id: i32, account_ids: &HashSet<i32>) -> (n: Vec<(i32, String)>)
    ensures
        n@.len() == account_ids@.len(),
        n@.map_values(|p: (i32, String)| p.0).no_duplicates(),
        n@.map_values(|p: (i32, String)| p.0).to_set() == account_ids@,
        forall|j: int| 0 <= j < n@.len() ==> (#[trigger] n@[j]).1@ == decimal(device_id as int),
{
    let mut n: Vec<(i32, String)> = Vec::new();
    let ghost seen = vstd::std_specs::hash::spec_hash_keys_iter(account_ids).remaining();
    for id in it: account_ids.iter()
        invariant
            it.seq() == seen,
            n@.len() == it.index(),
            forall|j: int| 0 <= j < it.index() ==> (#[trigger] n@[j]).0 == *it.seq()[j],
            forall|j: int| 0 <= j < it.index() ==> (#[trigger] n@[j]).1@ == decimal(device_id as int),
    {
        n.push((*id, decimal_string(device_id as i64)));
    }
    proof {
        let ids = n@.map_values(|p: (i32, String)| p.0);
        assert(ids =~= seen.unref());
    }
    n
}

} // verus!
