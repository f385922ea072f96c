use house_hub::db::db::{after_sse_send, DB};
use house_hub::db::SSEMessage;
use house_hub::dto::account::{Account, AccountAction, AccountQuery, SignupAccount, Username};
use house_hub::dto::device::{Device, DeviceId};
use house_hub::dto::task::Task;
use house_hub::name_map::NameMap;

fn account(name: &str, hash: &str) -> Account {
    Account { username: Username(name.to_string()), password_hash: hash.to_string() }
}

fn task(action: &str) -> Task {
    Task::new(action.to_string(), DeviceId("dev".to_string()))
}

#[test]
fn created_accounts_are_stored_and_others_ignored() {
    let mut db = DB::new();
    assert_eq!(db.post_account(AccountQuery { account: account("ann", "h1"), action: AccountAction::Create }), AccountAction::Create);
    assert_eq!(db.post_account(AccountQuery { account: account("bob", "h2"), action: AccountAction::Update }), AccountAction::Update);
    db.post_account(AccountQuery { account: account("ann", "h3"), action: AccountAction::Create });
    db.post_account(AccountQuery { account: account("ann", "h4"), action: AccountAction::Delete });
    assert_eq!(db.users.len(), 1);
    assert_eq!(db.users.get("ann").unwrap().password_hash, "h3");
    assert!(db.users.get("bob").is_none());
}

#[test]
fn tasks_come_out_in_order_and_once() {
    let mut db = DB::new();
    assert!(db.get_task("ann").is_none());
    db.post_task("ann".to_string(), task("on"));
    db.post_task("bob".to_string(), task("x"));
    db.post_task("ann".to_string(), task("off"));
    let got: Vec<String> = db.get_task("ann").unwrap().into_iter().map(|t| t.action).collect();
    assert_eq!(got, vec!["on", "off"]);
    assert!(db.get_task("ann").unwrap().is_empty());
    assert_eq!(db.get_task("bob").unwrap().len(), 1);
    assert_eq!(db.event().0.len(), 2);
}

#[test]
fn devices_are_found_by_account() {
    let mut db = DB::new();
    db.devices.insert("ann".to_string(), vec![Device { device_id: DeviceId("d1".to_string()) }]);
    assert_eq!(db.get_device("ann").unwrap()[0].device_id.0, "d1");
    assert!(db.get_device("bob").is_none());
}

#[test]
fn name_maps_replace_and_remove() {
    let mut m: NameMap<i32> = NameMap::new();
    m.insert("a".to_string(), 1);
    m.insert("b".to_string(), 2);
    m.insert("a".to_string(), 3);
    assert_eq!(m.len(), 2);
    assert_eq!(m.get("a"), Some(&3));
    assert!(m.contains_key("b"));
    assert_eq!(m.remove("b"), Some(2));
    assert_eq!(m.remove("b"), None);
    let (names, values) = m.entries();
    assert_eq!(names, &vec!["a".to_string()]);
    assert_eq!(values, &vec![3]);
}

#[test]
fn plain_messages_and_credentials() {
    let m = SSEMessage::new("update");
    assert_eq!(m.message(), "update");
    let s = SignupAccount::new("ann".to_string(), "pw".to_string());
    assert_eq!(s.username(), "ann");
    assert_eq!(s.password(), "pw");
    let t = task("on");
    assert_eq!(t.device_id.0, "dev");
    let u = Username("x".to_string());
    assert_eq!(u.clone().0, "x");
}

#[test]
fn closed_sessions_are_dropped_and_the_last_takes_their_place() {
    let mut senders = vec!["a", "b", "c", "d"];
    after_sse_send(&mut senders, 1, true);
    assert_eq!(senders, vec!["a", "b", "c", "d"]);
    after_sse_send(&mut senders, 1, false);
    assert_eq!(senders, vec!["a", "d", "c"]);
    after_sse_send(&mut senders, 2, false);
    assert_eq!(senders, vec!["a", "d"]);
}
