//! Device status kept from the raw JSON messages that devices publish.
use crate::db::memory::{events_of, kind_of, message_kind, MessageKind};
use crate::json::{as_text, copy_json, json_as_str, json_member, member};
use std::collections::{HashMap, VecDeque};
use vstd::prelude::*;
use vstd::std_specs::iter::IteratorSpec;
use vstd::string::StringExecFns;

verus! {

broadcast use vstd::std_specs::hash::group_hash_axioms;

/// The state kept of the devices: the MAC each reported in its last status,
/// that status, and its events in the order they came.
pub struct DeviceStatus {
    online: HashMap<i32, String>,
    status: HashMap<i32, serde_json::Value>,
    events: HashMap<i32, VecDeque<serde_json::Value>>,
}

/// What a `DeviceStatus` holds: the devices heard from, their last status and their events in arrival order.
pub struct DeviceStatusView {
    pub online: Map<i32, Seq<char>>,
    pub status: Map<i32, serde_json::Value>,
    pub events: Map<i32, Seq<serde_json::Value>>,
}

impl View for DeviceStatus {
    type V = DeviceStatusView;

    closed spec fn view(&self) -> DeviceStatusView {
        DeviceStatusView {
            online: self.online@.map_values(|s: String| s@),
            status: self.status@,
            events: self.events@.map_values(|q: VecDeque<serde_json::Value>| q@),
        }
    }
}

/// The state after a status from device `id` that reports the MAC `mac`:
/// with a MAC, it becomes the device's entry among the devices heard from and
/// the status its last status; without one, nothing changes.
pub open spec fn on_status_with_mac(s: DeviceStatusView, id: i32, status: serde_json::Value, mac: Option<Seq<char>>) -> DeviceStatusView {
    match mac {
        Some(m) => DeviceStatusView { online: s.online.insert(id, m), status: s.status.insert(id, status), ..s },
        None => s,
    }
}

/// The kind that a message's `type` names, when it is text; `Other` otherwise.
pub open spec fn text_kind(type_text: Option<Seq<char>>) -> MessageKind {
    match type_text {
        Some(t) => kind_of(t),
        None => MessageKind::Other,
    }
}

/// The kind that the text member `type` of a message names, if it has one.
pub open spec fn raw_kind(msg: serde_json::Value) -> MessageKind {
    text_kind(json_as_str(json_member(msg, "type"@)))
}

/// The state after a message from device `id` given by its parts: the text of
/// its `type`, its `payload`, and the text of the payload's `device_status`.
/// The payload is taken as a status or an event, as the type says.
pub open spec fn after_message_parts(
    s: DeviceStatusView,
    id: i32,
    type_text: Option<Seq<char>>,
    payload: serde_json::Value,
    mac: Option<Seq<char>>,
) -> DeviceStatusView {
    match text_kind(type_text) {
        MessageKind::Status => on_status_with_mac(s, id, payload, mac),
        MessageKind::Event => DeviceStatusView {
            events: s.events.insert(id, events_of(s.events, id).push(payload)),
            ..s
        },
        MessageKind::Other => s,
    }
}

/// The state after a raw message from device `id`: its member `payload` is
/// taken as a status or an event, as the member `type` says.
pub open spec fn on_raw_message(s: DeviceStatusView, id: i32, msg: serde_json::Value) -> DeviceStatusView {
    let payload = json_member(msg, "payload"@);
    after_message_parts(s, id, json_as_str(json_member(msg, "type"@)), payload, json_as_str(json_member(payload, "device_status"@)))
}

impl DeviceStatus {
    /// A state with no device heard from.
    pub fn new() -> (s: DeviceStatus)
        ensures
            s@.online == Map::<i32, Seq<char>>::empty(),
            s@.status == Map::<i32, serde_json::Value>::empty(),
            s@.events == Map::<i32, Seq<serde_json::Value>>::empty(),
    {
        let s = DeviceStatus { online: HashMap::new(), status: HashMap::new(), events: HashMap::new() };
        proof {
            assert(s@.online =~= Map::<i32, Seq<char>>::empty());
            assert(s@.events =~= Map::<i32, Seq<serde_json::Value>>::empty());
        }
        s
    }

    /// Whether the device has reported a status with its MAC.
    pub fn online(&self, device_id: i32) -> (r: bool)
        ensures
            r == self@.online.contains_key(device_id),
    {
        self.online.contains_key(&device_id)
    }

    /// The last status of the device, if it has reported one.
    pub fn status(&self, device_id: i32) -> (r: Option<&serde_json::Value>)
        ensures
            match r {
                Some(v) => self@.status.contains_key(device_id) && *v == self@.status[device_id],
                None => !self@.status.contains_key(device_id),
            },
    {
        self.status.get(&device_id)
    }

    /// The events of the device, oldest first.
    pub fn events(&self, device_id: i32) -> (r: Option<&VecDeque<serde_json::Value>>)
        ensures
            match r {
                Some(q) => self@.events.contains_key(device_id) && q@ == self@.events[device_id],
                None => !self@.events.contains_key(device_id),
            },
    {
        self.events.get(&device_id)
    }

    /// Takes in a raw message from device `device_id`; gives back the id when
    /// the message is a status, which its sessions are to hear of.
    pub fn on_device_message(&mut self, device_id: i32, msg: serde_json::Value) -> (r: Option<i32>)
        ensures
            final(self)@ == on_raw_message(old(self)@, device_id, msg),
            r == (if raw_kind(msg) == MessageKind::Status { Some(device_id) } else { None::<i32> }),
    {
        let type_text = as_text(member(&msg, "type"));
        let payload = copy_json(member(&msg, "payload"));
        let mac = as_text(member(&payload, "device_status"));
        self.on_message_parts(device_id, type_text, payload, mac)
    }

    /// Takes in a message from device `device_id` given by its parts: the
    /// text of its `type`, if that is text; its `payload`; and the text of the
    /// payload's `device_status`, if that is text. Gives back the id when the
    /// message is a status.
    pub fn on_message_parts(
        &mut self,
        device_id: i32,
        type_text: Option<String>,
        payload: serde_json::Value,
        mac: Option<String>,
    ) -> (r: Option<i32>)
        ensures
            final(self)@ == after_message_parts(
                old(self)@,
                device_id,
                match type_text { Some(t) => Some(t@), None => None },
                payload,
                match mac { Some(m) => Some(m@), None => None },
            ),
            r == (if text_kind(match type_text { Some(t) => Some(t@), None => None }) == MessageKind::Status {
                Some(device_id)
            } else {
                None::<i32>
            }),
    {
        let kind = match type_text {
            Some(t) => message_kind(t.as_str()),
            None => MessageKind::Other,
        };
        match kind {
            MessageKind::Status => {
                match mac {
                    Some(m) => {
                        let ghost mv = m@;
                        self.online.insert(device_id, m);
                        self.status.insert(device_id, payload);
                        proof {
                            assert(self@.online =~= old(self)@.online.insert(device_id, mv));
                        }
                    },
                    None => {},
                }
                Some(device_id)
            },
            MessageKind::Event => {
                self.on_device_event(device_id, payload);
                None
            },
            MessageKind::Other => None,
        }
    }

    fn on_device_event(&mut self, device_id: i32, event: serde_json::Value)
        ensures
            final(self)@ == (DeviceStatusView {
                events: old(self)@.events.insert(device_id, events_of(old(self)@.events, device_id).push(event)),
                ..old(self)@
            }),
    {
        let ghost before = old(self)@.events;
        let mut queue = match self.events.remove(&device_id) {
            Some(q) => q,
            None => VecDeque::new(),
        };
        queue.push_back(event);
        self.events.insert(device_id, queue);
        proof {
            assert(self@.events =~= before.insert(device_id, events_of(before, device_id).push(event)));
        }
    }

    /// Takes out the MACs of the devices heard from, one per device, in no
    /// particular order; no device stays marked as heard from.
    pub fn take_online_macs(&mut self) -> (macs: Vec<String>)
        ensures
            final(self)@.online == Map::<i32, Seq<char>>::empty(),
            final(self)@.status == old(self)@.status,
            final(self)@.events == old(self)@.events,
            one_mac_per_device(macs@.map_values(|s: String| s@), old(self)@.online),
    {
        let ghost before = self.online@;
        let mut macs: Vec<String> = Vec::new();
        let ghost seen = vstd::std_specs::hash::spec_hash_map_iter(&self.online).remaining();
        for entry in it: self.online.iter()
            invariant
                it.seq() == seen,
                macs@.len() == it.index(),
                forall|j: int| 0 <= j < it.index() ==> #[trigger] macs@[j] == *it.seq()[j].1,
        {
            let (_, mac) = entry;
            macs.push(mac.clone());
        }
        self.online.clear();
        proof {
            let ids = seen.map_values(|p: (&i32, &String)| *p.0);
            let mv = macs@.map_values(|s: String| s@);
            let bv = before.map_values(|s: String| s@);
            assert(seen.no_duplicates());
            assert forall|a: int, b: int| 0 <= a < b < ids.len() implies ids[a] != ids[b] by {
                assert(before.contains_key(*seen[a].0) && before[*seen[a].0] == *seen[a].1);
                assert(before.contains_key(*seen[b].0) && before[*seen[b].0] == *seen[b].1);
                if ids[a] == ids[b] {
                    assert(seen[a] == seen[b]);
                }
            }
            assert forall|k: i32| ids.to_set().contains(k) <==> bv.dom().contains(k) by {
                if ids.to_set().contains(k) {
                    let j = choose|j: int| 0 <= j < ids.len() && ids[j] == k;
                    assert(before.contains_key(*seen[j].0));
                }
                if bv.dom().contains(k) {
                    assert(before.contains_key(k));
                    assert(seen.contains((&k, &before[k])));
                    let j = choose|j: int| 0 <= j < seen.len() && seen[j] == (&k, &before[k]);
                    assert(ids[j] == k);
                }
            }
            assert(ids.to_set() =~= bv.dom());
            assert forall|j: int| 0 <= j < ids.len() implies #[trigger] mv[j] == bv[ids[j]] by {
                assert(before.contains_key(*seen[j].0) && before[*seen[j].0] == *seen[j].1);
            }
            assert(one_mac_per_device(mv, bv));
            assert(self@.online =~= Map::<i32, Seq<char>>::empty());
        }
        macs
    }
}

/// `macs` holds the MAC of each device of `online` once, in some order.
pub open spec fn one_mac_per_device(macs: Seq<Seq<char>>, online: Map<i32, Seq<char>>) -> bool {
    exists|ids: Seq<i32>|
        #![trigger ids.to_set()]
        {
            &&& ids.no_duplicates()
            &&& ids.to_set() == online.dom()
            &&& ids.len() == macs.len()
            &&& forall|j: int| 0 <= j < ids.len() ==> macs[j] == online[#[trigger] ids[j]]
        }
}

/// The topic on which a device takes service requests: `/device/{mac}/service`.
pub fn service_topic(device_mac: &str) -> (t: String)
    ensures
        t@ == "/device/"@ + device_mac@ + "/service"@,
{
    let mut t = "/device/".to_string();
    t.append(device_mac);
    t.append("/service");
    t
}

/// A raw message of any kind but a status leaves the last statuses and the
/// devices heard from as they were; an event joins the end of the device's
/// events; a status that names no `device_status` changes nothing.
pub proof fn law_raw_message_effects(s: DeviceStatusView, id: i32, msg: serde_json::Value)
    ensures
        raw_kind(msg) != MessageKind::Status ==>
            on_raw_message(s, id, msg).status == s.status && on_raw_message(s, id, msg).online == s.online,
        raw_kind(msg) == MessageKind::Event ==>
            on_raw_message(s, id, msg).events[id] == events_of(s.events, id).push(json_member(msg, "payload"@)),
        raw_kind(msg) == MessageKind::Status && json_as_str(json_member(json_member(msg, "payload"@), "device_status"@)) is None ==>
            on_raw_message(s, id, msg) == s,
{
}

/// A status message that reports a MAC makes its payload the device's last
/// status and the MAC its entry among the devices heard from, whatever was
/// stored for it before; every other device keeps what it had, and no
/// device's events change.
pub proof fn law_status_replaces_last_status(
    s: DeviceStatusView,
    id: i32,
    type_text: Option<Seq<char>>,
    payload: serde_json::Value,
    mac: Option<Seq<char>>,
    other: i32,
)
    ensures
        text_kind(type_text) == MessageKind::Status && mac is Some ==> {
            let t = after_message_parts(s, id, type_text, payload, mac);
            &&& t.status.contains_key(id)
            &&& t.status[id] == payload
            &&& t.online.contains_key(id)
            &&& t.online[id] == mac->0
            &&& t.events == s.events
        },
        other != id ==> after_message_parts(s, id, type_text, payload, mac).status.get(other) == s.status.get(other),
        other != id ==> after_message_parts(s, id, type_text, payload, mac).online.get(other) == s.online.get(other),
        other != id ==> events_of(after_message_parts(s, id, type_text, payload, mac).events, other) == events_of(s.events, other),
{
}

/// Of a raw status message whose payload has a text `device_status`, the
/// payload becomes the device's last status and that text its MAC, whatever
/// was stored for it before.
pub proof fn law_raw_status_replaces_last_status(s: DeviceStatusView, id: i32, msg: serde_json::Value)
    ensures
        raw_kind(msg) == MessageKind::Status && json_as_str(json_member(json_member(msg, "payload"@), "device_status"@)) is Some ==> {
            let t = on_raw_message(s, id, msg);
            &&& t.status.contains_key(id)
            &&& t.status[id] == json_member(msg, "payload"@)
            &&& t.online.contains_key(id)
            &&& t.online[id] == json_as_str(json_member(json_member(msg, "payload"@), "device_status"@))->0
            &&& t.events == s.events
        },
{
}

} // verus!
