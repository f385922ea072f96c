use house_hub::db::data::account::{new_account, plan_user_info_update, UserInfoWrite};
use house_hub::db::data::device::device_update_statement;
use house_hub::db::data::sql::SqlParam;
use house_hub::dto::entity::simple::UserInfo;
use house_hub::dto::http::request::{DeviceUpdate, UserInfoUpdate};
use house_hub::text::decimal_string;

fn update(gender: Option<&str>, city: Option<&str>, age: Option<i32>, email: Option<&str>) -> UserInfoUpdate {
    UserInfoUpdate {
        age,
        gender: gender.map(str::to_string),
        email: email.map(str::to_string),
        name: Some("ignored".to_string()),
        city: city.map(str::to_string),
    }
}

fn stored(gender: Option<&str>, city: Option<&str>, age: Option<i32>, email: Option<&str>) -> UserInfo {
    UserInfo {
        age,
        city: city.map(str::to_string),
        email: email.map(str::to_string),
        name: None,
        gender: gender.map(str::to_string),
    }
}

fn texts(params: &[SqlParam]) -> Vec<String> {
    params
        .iter()
        .map(|p| match p {
            SqlParam::Text(s) => format!("t:{}", s),
            SqlParam::Int(n) => format!("i:{}", n),
        })
        .collect()
}

#[test]
fn user_info_update_sets_every_known_field() {
    let w = plan_user_info_update(update(Some("f"), None, Some(30), None), Some(stored(None, Some("Oslo"), Some(20), Some("a@b"))), 9);
    match w {
        UserInfoWrite::Update(st) => {
            assert_eq!(st.query, "UPDATE user_info SET gender = $1, city = $2, age = $3, email = $4 WHERE account_id = $5");
            assert_eq!(texts(&st.params), vec!["t:f", "t:Oslo", "i:30", "t:a@b", "i:9"]);
            assert_eq!(st.query.matches('$').count(), st.params.len());
        }
        other => panic!("unexpected {:?}", other),
    }
}

#[test]
fn user_info_update_leaves_out_missing_fields() {
    let w = plan_user_info_update(update(None, None, None, Some("x@y")), Some(stored(None, None, Some(5), None)), 2);
    match w {
        UserInfoWrite::Update(st) => {
            assert_eq!(st.query, "UPDATE user_info SET age = $1, email = $2 WHERE account_id = $3");
            assert_eq!(texts(&st.params), vec!["i:5", "t:x@y", "i:2"]);
        }
        other => panic!("unexpected {:?}", other),
    }
}

#[test]
fn user_info_update_with_nothing_to_set_writes_nothing() {
    let w = plan_user_info_update(update(None, None, None, None), Some(stored(None, None, None, None)), 2);
    assert!(matches!(w, UserInfoWrite::Unchanged));
}

#[test]
fn user_info_without_a_record_is_inserted() {
    let w = plan_user_info_update(update(Some("m"), Some("Rome"), None, None), None, 4);
    match w {
        UserInfoWrite::Insert { account_id, gender, city, age, email } => {
            assert_eq!(account_id, 4);
            assert_eq!(gender.as_deref(), Some("m"));
            assert_eq!(city.as_deref(), Some("Rome"));
            assert_eq!(age, None);
            assert_eq!(email, None);
        }
        other => panic!("unexpected {:?}", other),
    }
}

#[test]
fn device_update_statements_number_their_parameters() {
    let both = device_update_statement(DeviceUpdate { device_name: Some("lamp".to_string()), area_id: Some(3) });
    assert_eq!(both.query, "UPDATE device SET device_name = $1area_id = $2");
    assert_eq!(texts(&both.params), vec!["t:lamp", "i:3"]);
    assert_eq!(both.query.matches('$').count(), both.params.len());
    let area = device_update_statement(DeviceUpdate { device_name: None, area_id: Some(4) });
    assert_eq!(area.query, "UPDATE device SET area_id = $1");
    let none = device_update_statement(DeviceUpdate { device_name: None, area_id: None });
    assert_eq!(none.query, "UPDATE device SET ");
    assert!(none.params.is_empty());
}

#[test]
fn new_accounts_carry_the_salt_in_hexadecimal() {
    let a = new_account("ann", "h4sh", &[0x00, 0x1f, 0xab, 0xff]);
    assert_eq!(a.username, "ann");
    assert_eq!(a.password_hash, "h4sh");
    assert_eq!(a.salt, "001fabff");
    assert_eq!(a.salt.len(), 2 * 4);
    assert_eq!(new_account("b", "c", &[]).salt, "");
}

#[test]
fn decimals_are_written_as_display_does() {
    for n in [0i64, 7, 10, 99, 100, 123456789, -1, -40, i64::MAX, i64::MIN] {
        assert_eq!(decimal_string(n), n.to_string());
    }
}

#[test]
fn a_repeated_user_info_update_sets_the_values_already_stored() {
    let u = update(Some("f"), None, Some(30), None);
    let first = plan_user_info_update(
        update(Some("f"), None, Some(30), None),
        Some(stored(None, Some("Oslo"), Some(20), Some("a@b"))),
        9,
    );
    let second = plan_user_info_update(u, Some(stored(Some("f"), Some("Oslo"), Some(30), Some("a@b"))), 9);
    match (first, second) {
        (UserInfoWrite::Update(a), UserInfoWrite::Update(b)) => {
            assert_eq!(a.query, b.query);
            assert_eq!(texts(&a.params), texts(&b.params));
            assert_eq!(texts(&b.params), vec!["t:f", "t:Oslo", "i:30", "t:a@b", "i:9"]);
        }
        other => panic!("unexpected {:?}", other),
    }
}
