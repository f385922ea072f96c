use house_hub::data::device::{service_topic, DeviceStatus};
use house_hub::data::sse::SseHandler;
use house_hub::data::sse_config::sse_init_config;
use house_hub::api::sse::{counter_frames, sse_data_frame};
use house_hub::db::cache_database::Cache;
use house_hub::db::memory::{message_kind, status_notifications, DeviceState, MessageKind};
use house_hub::dto::entity::simple::{AccountInfo, AreaInfo, DeviceInfo, DeviceType, HouseInfo};
use house_hub::dto::http::response::{AccountDevices, AreaDevices, HouseDevices};
use house_hub::dto::mqtt::{DeviceMessage, HostToDeviceMessage};
use serde_json::Value;
use std::collections::HashSet;

fn message(kind: &str, payload: Value) -> DeviceMessage {
    DeviceMessage {
        efuse_mac: "aa:bb".to_string(),
        model_id: 1,
        model_name: "m".to_string(),
        type_: kind.to_string(),
        payload,
    }
}

#[test]
fn device_messages_update_status_and_events() {
    let mut s = DeviceState::new();
    assert!(s.status(3).is_none());
    s.on_device_message(3, message("status", Value::from(1)));
    assert_eq!(s.status(3), Some(&Value::from(1)));
    assert_eq!(s.online_mac(3).map(String::as_str), Some("aa:bb"));
    s.on_device_message(3, message("event", Value::from("a")));
    s.on_device_message(3, message("event", Value::from("b")));
    s.on_device_message(3, message("other", Value::from("c")));
    let events: Vec<Value> = s.events(3).unwrap().iter().cloned().collect();
    assert_eq!(events, vec![Value::from("a"), Value::from("b")]);
    assert_eq!(s.status(3), Some(&Value::from(1)));
}

#[test]
fn message_kinds() {
    assert_eq!(message_kind("status"), MessageKind::Status);
    assert_eq!(message_kind("event"), MessageKind::Event);
    assert_eq!(message_kind("Status"), MessageKind::Other);
    assert_eq!(message("event", Value::Null).kind(), MessageKind::Event);
}

#[test]
fn raw_status_messages_need_a_device_status() {
    let mut s = DeviceStatus::new();
    let msg: Value = serde_json::from_str(r#"{"type":"status","payload":{"device_status":"m1","t":20}}"#).unwrap();
    assert_eq!(s.on_device_message(5, msg.clone()), Some(5));
    assert!(s.online(5));
    assert_eq!(s.status(5), Some(&msg["payload"]));
    let bare: Value = serde_json::from_str(r#"{"type":"status","payload":{"t":21}}"#).unwrap();
    assert_eq!(s.on_device_message(6, bare), Some(6));
    assert!(!s.online(6));
    assert!(s.status(6).is_none());
    let event: Value = serde_json::from_str(r#"{"type":"event","payload":"pressed"}"#).unwrap();
    assert_eq!(s.on_device_message(5, event), None);
    assert_eq!(s.events(5).unwrap().len(), 1);
    let odd: Value = serde_json::from_str(r#"{"type":7}"#).unwrap();
    assert_eq!(s.on_device_message(5, odd), None);
    let macs = s.take_online_macs();
    assert_eq!(macs, vec!["m1".to_string()]);
    assert!(!s.online(5));
    assert!(s.status(5).is_some());
}

#[test]
fn service_topics() {
    assert_eq!(service_topic("aa:bb"), "/device/aa:bb/service");
}

#[test]
fn host_messages() {
    let st = HostToDeviceMessage::status();
    assert_eq!(st.service_name(), "status");
    assert!(st.payload().is_none());
    let m = HostToDeviceMessage::new("toggle".to_string(), Some(Value::from(true)));
    assert_eq!(m.service_name(), "toggle");
    assert_eq!(m.payload(), &Some(Value::from(true)));
}

#[test]
fn the_cache_remembers_devices_both_ways() {
    let mut c = Cache::new();
    assert_eq!(c.cached_device_id("m"), None);
    c.remember_device("m".to_string(), 4);
    assert_eq!(c.cached_device_id("m"), Some(4));
    assert_eq!(c.cached_device_mac(4).as_deref(), Some("m"));
    assert_eq!(c.cached_device_mac(5), None);
    let ids: HashSet<i32> = [1, 2].into_iter().collect();
    c.remember_account_ids(4, ids.clone());
    assert_eq!(c.cached_account_ids(4), Some(ids));
    assert_eq!(c.cached_account_ids(9), None);
}

fn device(id: i32, mac: &str) -> DeviceInfo {
    DeviceInfo {
        device_id: id,
        device_name: "d".to_string(),
        efuse_mac: mac.to_string(),
        model_id: 1,
        model_name: "m".to_string(),
        device_type: DeviceType { type_id: 1, type_label: "t".to_string() },
        service: Vec::new(),
    }
}

#[test]
fn recorded_account_devices_are_linked() {
    let ads = AccountDevices {
        account_info: AccountInfo { account_id: 7, username: "ann".to_string() },
        houses_devices: vec![HouseDevices {
            house_info: HouseInfo { house_id: 1, house_name: "h".to_string() },
            areas_devices: vec![AreaDevices {
                area_info: AreaInfo { area_id: 2, area_name: "a".to_string() },
                devices: vec![device(10, "m10"), device(11, "m11")],
            }],
        }],
    };
    let mut c = Cache::new();
    c.record_account_devices(&ads);
    assert_eq!(c.cached_device_id("m11"), Some(11));
    assert_eq!(c.cached_account_ids(10), Some([7].into_iter().collect()));
    assert_eq!(c.cached_device_mac(10), None);
}

#[test]
fn sessions_are_keyed_by_their_count() {
    let mut h: SseHandler<&str> = SseHandler::new();
    assert_eq!(h.new_session(1, "a"), 0);
    assert_eq!(h.new_session(1, "b"), 1);
    assert_eq!(h.new_session(2, "c"), 0);
    h.close_session(1, 0);
    assert_eq!(h.sessions(1).unwrap().len(), 1);
    assert_eq!(h.new_session(1, "d"), 1);
    assert_eq!(h.sessions(1).unwrap().get(&1), Some(&"d"));
    h.close_session(9, 0);
    assert!(h.sessions(9).is_none());
}

#[test]
fn event_stream_frames() {
    assert_eq!(sse_data_frame("3"), "data: 3\n\n");
    let frames = counter_frames();
    assert_eq!(frames.len(), 10);
    assert_eq!(frames[0], "data: 1\n\n");
    assert_eq!(frames[9], "data: 10\n\n");
}

#[test]
fn event_names() {
    let c = sse_init_config();
    assert_eq!(c.event, "event");
    assert_eq!(c.task, "task");
}

#[test]
fn every_device_heard_from_gives_its_mac_once() {
    let mut s = DeviceStatus::new();
    for (id, mac) in [(1, "aa"), (2, "bb"), (3, "aa")] {
        let text = format!(r#"{{"type":"status","payload":{{"device_status":"{}"}}}}"#, mac);
        let msg: Value = serde_json::from_str(&text).unwrap();
        assert_eq!(s.on_device_message(id, msg), Some(id));
    }
    let again: Value = serde_json::from_str(r#"{"type":"status","payload":{"device_status":"bb"}}"#).unwrap();
    s.on_device_message(2, again);
    let mut macs = s.take_online_macs();
    macs.sort();
    assert_eq!(macs, vec!["aa".to_string(), "aa".to_string(), "bb".to_string()]);
    assert!(s.take_online_macs().is_empty());
}

#[test]
fn the_last_status_message_is_the_status() {
    let mut s = DeviceState::new();
    s.on_device_message(1, message("status", Value::from(1)));
    s.on_device_message(2, message("status", Value::from(7)));
    s.on_device_message(1, message("event", Value::from("click")));
    s.on_device_message(1, message("other", Value::from(3)));
    assert_eq!(s.status(1), Some(&Value::from(1)));
    s.on_device_message(1, message("status", Value::from(2)));
    s.on_device_message(3, message("event", Value::from(0)));
    assert_eq!(s.status(1), Some(&Value::from(2)));
    assert_eq!(s.status(2), Some(&Value::from(7)));
    assert!(s.status(3).is_none());
}

#[test]
fn status_notifications_reach_each_account_once() {
    let ids: HashSet<i32> = [4, 9, 12].into_iter().collect();
    let mut n = status_notifications(-35, &ids);
    n.sort();
    assert_eq!(n, vec![(4, "-35".to_string()), (9, "-35".to_string()), (12, "-35".to_string())]);
    assert!(status_notifications(5, &HashSet::new()).is_empty());
}

#[test]
fn message_parts_are_taken_as_their_type_says() {
    let mut s = DeviceStatus::new();
    let payload = Value::from(1);
    assert_eq!(s.on_message_parts(3, Some("status".to_string()), payload.clone(), Some("m3".to_string())), Some(3));
    assert!(s.online(3));
    assert_eq!(s.status(3), Some(&payload));
    assert_eq!(s.on_message_parts(4, Some("status".to_string()), payload.clone(), None), Some(4));
    assert!(!s.online(4));
    assert_eq!(s.on_message_parts(3, Some("event".to_string()), Value::from("e"), None), None);
    assert_eq!(s.events(3).unwrap().len(), 1);
    assert_eq!(s.on_message_parts(3, None, Value::from("x"), Some("m9".to_string())), None);
    assert_eq!(s.on_message_parts(3, Some("status!".to_string()), Value::from("x"), Some("m9".to_string())), None);
    assert_eq!(s.status(3), Some(&payload));
}
