use house_hub::api::controller::device::{group_show_devices, ShowDeviceRow};
use house_hub::db::data::device::{
    account_devices_from_rows, device_info_from_rows, group_houses_devices, numbered_message, select_area,
    select_house, AccountDeviceRow, DeviceColumns, DeviceInfoRow,
};
use house_hub::db::data::member::{members_from_rows, MemberRow};
use house_hub::dto::entity::simple::AreaInfo;
use serde_json::Value;

fn columns(id: i32, name: &str) -> DeviceColumns {
    DeviceColumns {
        device_id: id,
        device_name: name.to_string(),
        efuse_mac: format!("mac-{}", id),
        model_id: 3,
        model_name: "lamp".to_string(),
        type_id: 9,
        type_label: "light".to_string(),
    }
}

fn row(house: i32, area: Option<(i32, &str)>, device: Option<(i32, &str)>, parameter: Option<&str>) -> AccountDeviceRow {
    AccountDeviceRow {
        house_id: house,
        house_name: format!("house-{}", house),
        area: area.map(|(id, name)| AreaInfo { area_id: id, area_name: name.to_string() }),
        device: device.map(|(id, name)| columns(id, name)),
        parameter: parameter.map(Value::from),
    }
}

#[test]
fn houses_areas_and_devices_are_grouped_in_row_order() {
    let rows = vec![
        row(1, Some((10, "kitchen")), Some((100, "lamp")), Some("on")),
        row(2, None, None, None),
        row(1, Some((10, "kitchen")), Some((100, "lamp")), Some("off")),
        row(1, Some((11, "hall")), None, None),
        row(1, Some((10, "kitchen")), Some((101, "fan")), None),
        row(2, Some((20, "garden")), Some((200, "pump")), Some("run")),
    ];
    let houses = group_houses_devices(rows);
    assert_eq!(houses.len(), 2);
    assert_eq!(houses[0].house_info.house_id, 1);
    assert_eq!(houses[0].house_info.house_name, "house-1");
    assert_eq!(houses[1].house_info.house_id, 2);
    let areas = &houses[0].areas_devices;
    assert_eq!(areas.len(), 2);
    assert_eq!(areas[0].area_info.area_id, 10);
    assert_eq!(areas[1].area_info.area_id, 11);
    assert_eq!(areas[1].devices.len(), 0);
    let devices = &areas[0].devices;
    assert_eq!(devices.len(), 2);
    assert_eq!(devices[0].device_id, 100);
    assert_eq!(devices[0].service, vec![Value::from("on"), Value::from("off")]);
    assert_eq!(devices[1].device_id, 101);
    assert!(devices[1].service.is_empty());
    assert_eq!(devices[1].device_type.type_label, "light");
    assert_eq!(houses[1].areas_devices.len(), 1);
    assert_eq!(houses[1].areas_devices[0].devices[0].service, vec![Value::from("run")]);
}

#[test]
fn no_rows_give_no_houses() {
    assert!(group_houses_devices(Vec::new()).is_empty());
}

#[test]
fn account_devices_carry_the_account() {
    let ads = account_devices_from_rows(5, "ann".to_string(), vec![row(1, None, None, None)]);
    assert_eq!(ads.account_info.account_id, 5);
    assert_eq!(ads.account_info.username, "ann");
    assert_eq!(ads.houses_devices.len(), 1);
}

#[test]
fn a_house_and_an_area_are_selected_or_named_missing() {
    let rows = vec![row(1, Some((10, "kitchen")), None, None), row(2, Some((20, "garden")), None, None)];
    let house = select_house(group_houses_devices(rows), 2).unwrap();
    assert_eq!(house.house_info.house_id, 2);
    let missing = select_house(group_houses_devices(vec![row(1, None, None, None)]), 7);
    assert_eq!(missing.err().unwrap(), "no such house 7");
    let area = select_area(house, 20).unwrap().unwrap();
    assert_eq!(area.area_info.area_name, "garden");
    let house = select_house(group_houses_devices(vec![row(1, None, None, None)]), 1).unwrap();
    assert_eq!(select_area(house, -3).err().unwrap(), "no such area: -3");
}

fn info_row(parameter: &str) -> DeviceInfoRow {
    DeviceInfoRow {
        device_name: "lamp".to_string(),
        efuse_mac: "aa:bb".to_string(),
        model_id: 4,
        model_name: "l1".to_string(),
        type_id: 2,
        type_label: "light".to_string(),
        parameter: Value::from(parameter),
    }
}

#[test]
fn device_info_takes_every_parameter() {
    let info = device_info_from_rows(8, vec![info_row("a"), info_row("b"), info_row("c")]).unwrap();
    assert_eq!(info.device_id, 8);
    assert_eq!(info.efuse_mac, "aa:bb");
    assert_eq!(info.service, vec![Value::from("a"), Value::from("b"), Value::from("c")]);
}

#[test]
fn device_info_without_rows_is_an_error() {
    assert_eq!(device_info_from_rows(42, Vec::new()).err().unwrap(), "no such device 42");
}

#[test]
fn numbered_messages() {
    assert_eq!(numbered_message("n=", 0), "n=0");
    assert_eq!(numbered_message("", -2147483648), "-2147483648");
}

fn member(account: i32, name: &str, house: i32) -> MemberRow {
    MemberRow { account_id: account, username: name.to_string(), house_id: house, house_name: format!("h{}", house) }
}

#[test]
fn members_are_grouped_by_house() {
    let info = members_from_rows(vec![member(1, "ann", 7), member(2, "bob", 8), member(3, "cy", 7)]);
    assert_eq!(info.houses_member.len(), 2);
    assert_eq!(info.houses_member[0].house_info.house_id, 7);
    assert_eq!(info.houses_member[0].house_info.house_name, "h7");
    let names: Vec<&str> = info.houses_member[0].account.iter().map(|a| a.username.as_str()).collect();
    assert_eq!(names, vec!["ann", "cy"]);
    assert_eq!(info.houses_member[1].account.len(), 1);
    assert_eq!(info.houses_member[1].account[0].account_id, 2);
    let total: usize = info.houses_member.iter().map(|h| h.account.len()).sum();
    assert_eq!(total, 3);
}

fn listing_row(house: i32, area: i32, area_name: &str, device: i32) -> ShowDeviceRow {
    ShowDeviceRow {
        house_id: house,
        house_name: format!("h{}", house),
        area_id: area,
        area_name: area_name.to_string(),
        device_id: device,
        device_name: format!("d{}", device),
        efuse_mac: format!("m{}", device),
        chip_model: "esp32".to_string(),
        type_id: 1,
        type_label: "switch".to_string(),
    }
}

#[test]
fn the_device_listing_groups_areas_by_name() {
    let listing = group_show_devices(vec![
        listing_row(1, 10, "kitchen", 100),
        listing_row(1, 11, "kitchen", 101),
        listing_row(2, 20, "garden", 200),
        listing_row(1, 12, "hall", 102),
    ]);
    let houses = listing.houses_devices;
    assert_eq!(houses.len(), 2);
    assert_eq!(houses[0].areas_devices.len(), 2);
    assert_eq!(houses[0].areas_devices[0].area_id, 10);
    assert_eq!(houses[0].areas_devices[0].devices.len(), 2);
    assert_eq!(houses[0].areas_devices[0].devices[1].device_id, 101);
    assert_eq!(houses[0].areas_devices[1].area_name, "hall");
    assert_eq!(houses[1].areas_devices[0].devices[0].chip_model, "esp32");
    let total: usize = houses.iter().flat_map(|h| h.areas_devices.iter()).map(|a| a.devices.len()).sum();
    assert_eq!(total, 4);
}

#[test]
fn names_come_from_the_first_row() {
    let mut first = row(3, Some((30, "den")), Some((300, "tv")), Some("p1"));
    first.house_name = "first".to_string();
    let mut second = row(3, Some((30, "study")), Some((300, "radio")), Some("p2"));
    second.house_name = "second".to_string();
    let third = row(3, Some((30, "attic")), Some((300, "x")), None);
    let houses = group_houses_devices(vec![first, second, third]);
    assert_eq!(houses.len(), 1);
    assert_eq!(houses[0].house_info.house_name, "first");
    assert_eq!(houses[0].areas_devices[0].area_info.area_name, "den");
    let d = &houses[0].areas_devices[0].devices[0];
    assert_eq!(d.device_name, "tv");
    assert_eq!(d.service, vec![Value::from("p1"), Value::from("p2")]);
}
