//! The devices of an account, grouped by house and area.
use crate::db::data::sql::{
    lemma_decimal_no_placeholder, lemma_no_placeholder, lemma_placeholder_count_concat, placeholder_count, SqlParam,
    SqlStatement,
};
use crate::dto::entity::simple::{AccountInfo, AreaInfo, DeviceInfo, DeviceInfoView, DeviceType, HouseInfo};
use crate::dto::http::request::DeviceUpdate;
use crate::dto::http::response::{AccountDevices, AreaDevices, AreaDevicesView, HouseDevices, HouseDevicesView};
use crate::search::{first_index, lemma_first_index};
use crate::text::{decimal, push_decimal};
use vstd::prelude::*;
use vstd::string::StringExecFns;

verus! {

/// The device columns of a row of `account_devices_view`, present when the row has a device.
pub struct DeviceColumns {
    pub device_id: i32,
    pub device_name: String,
    pub efuse_mac: String,
    pub model_id: i32,
    pub model_name: String,
    pub type_id: i32,
    pub type_label: String,
}

/// A row of `account_devices_view`: a house of the account, one of its areas
/// if it has any, a device of that area if it has any, and one service
/// parameter of that device if it has any.
pub struct AccountDeviceRow {
    pub house_id: i32,
    pub house_name: String,
    pub area: Option<AreaInfo>,
    pub device: Option<DeviceColumns>,
    pub parameter: Option<serde_json::Value>,
}

/// Whether a house has the given id.
pub open spec fn house_has_id(id: i32) -> spec_fn(HouseDevicesView) -> bool {
    |h: HouseDevicesView| h.house_info.house_id == id
}

/// Whether an area has the given id.
pub open spec fn area_has_id(id: i32) -> spec_fn(AreaDevicesView) -> bool {
    |a: AreaDevicesView| a.area_info.area_id == id
}

/// Whether a device has the given id.
pub open spec fn device_has_id(id: i32) -> spec_fn(DeviceInfoView) -> bool {
    |d: DeviceInfoView| d.device_id == id
}

/// The services that a row's parameter adds: the parameter itself, if there is one.
pub open spec fn services_of(parameter: Option<serde_json::Value>) -> Seq<serde_json::Value> {
    match parameter {
        Some(v) => seq![v],
        None => seq![],
    }
}

/// A device row added to the devices of an area: a known device gains the
/// row's parameter, an unknown one is appended with it.
pub open spec fn add_device_columns(
    devices: Seq<DeviceInfoView>,
    d: DeviceColumns,
    parameter: Option<serde_json::Value>,
) -> Seq<DeviceInfoView> {
    let i = first_index(devices, device_has_id(d.device_id));
    if i < devices.len() {
        match parameter {
            Some(v) => devices.update(i, DeviceInfoView { service: devices[i].service.push(v), ..devices[i] }),
            None => devices,
        }
    } else {
        devices.push(
            DeviceInfoView {
                device_id: d.device_id,
                device_name: d.device_name,
                efuse_mac: d.efuse_mac,
                model_id: d.model_id,
                model_name: d.model_name,
                device_type: DeviceType { type_id: d.type_id, type_label: d.type_label },
                service: services_of(parameter),
            },
        )
    }
}

/// A row with an area added to the areas of a house: the area is appended if
/// it is new, and the row's device, if any, is added to it.
pub open spec fn add_area_columns(
    areas: Seq<AreaDevicesView>,
    area: AreaInfo,
    device: Option<DeviceColumns>,
    parameter: Option<serde_json::Value>,
) -> Seq<AreaDevicesView> {
    let i = first_index(areas, area_has_id(area.area_id));
    let areas1 = if i < areas.len() {
        areas
    } else {
        areas.push(AreaDevicesView { area_info: area, devices: seq![] })
    };
    match device {
        Some(d) => areas1.update(
            i,
            AreaDevicesView { devices: add_device_columns(areas1[i].devices, d, parameter), ..areas1[i] },
        ),
        None => areas1,
    }
}

/// A row added to the houses seen so far: the house is appended if it is
/// new, and the row's area, if any, is added to it.
pub open spec fn add_device_row(houses: Seq<HouseDevicesView>, row: AccountDeviceRow) -> Seq<HouseDevicesView> {
    let i = first_index(houses, house_has_id(row.house_id));
    let houses1 = if i < houses.len() {
        houses
    } else {
        houses.push(
            HouseDevicesView {
                house_info: HouseInfo { house_id: row.house_id, house_name: row.house_name },
                areas_devices: seq![],
            },
        )
    };
    match row.area {
        Some(area) => houses1.update(
            i,
            HouseDevicesView {
                areas_devices: add_area_columns(houses1[i].areas_devices, area, row.device, row.parameter),
                ..houses1[i]
            },
        ),
        None => houses1,
    }
}

/// The rows, taken in order, grouped into houses, areas and devices.
pub open spec fn group_device_rows(rows: Seq<AccountDeviceRow>) -> Seq<HouseDevicesView> {
    rows.fold_left(Seq::<HouseDevicesView>::empty(), |acc: Seq<HouseDevicesView>, r: AccountDeviceRow| add_device_row(acc, r))
}

/// The houses taken by their views.
pub open spec fn houses_view(v: Seq<HouseDevices>) -> Seq<HouseDevicesView> {
    v.map_values(|h: HouseDevices| h@)
}

/// The areas taken by their views.
pub open spec fn areas_view(v: Seq<AreaDevices>) -> Seq<AreaDevicesView> {
    v.map_values(|a: AreaDevices| a@)
}

/// The devices taken by their views.
pub open spec fn devices_view(v: Seq<DeviceInfo>) -> Seq<DeviceInfoView> {
    v.map_values(|d: DeviceInfo| d@)
}

fn add_device_to_area(devices: &mut Vec<DeviceInfo>, d: DeviceColumns, parameter: Option<serde_json::Value>)
    ensures
        devices_view(final(devices)@) == add_device_columns(devices_view(old(devices)@), d, parameter),
{
    let ghost old_view = devices_view(devices@);
    let n = devices.len();
    let mut i: usize = 0;
    while i < n && devices[i].device_id != d.device_id
        invariant
            0 <= i <= n,
            n == devices.len(),
            devices@ == old(devices)@,
            old_view == devices_view(devices@),
            forall|j: int| 0 <= j < i ==> !device_has_id(d.device_id)(#[trigger] old_view[j]),
        decreases n - i,
    {
        i = i + 1;
    }
    proof {
        lemma_first_index(old_view, device_has_id(d.device_id), i as int);
    }
    if i < n {
        match parameter {
            Some(v) => {
                let mut dev = devices.remove(i);
                dev.service.push(v);
                devices.insert(i, dev);
                proof {
                    assert(devices_view(devices@) =~= add_device_columns(old_view, d, Some(v)));
                }
            },
            None => {},
        }
    } else {
        let service = match parameter {
            Some(v) => {
                let mut s = Vec::new();
                s.push(v);
                s
            },
            None => Vec::new(),
        };
        proof {
            assert(service@ =~= services_of(parameter));
        }
        devices.push(
            DeviceInfo {
                device_id: d.device_id,
                device_name: d.device_name,
                efuse_mac: d.efuse_mac,
                model_id: d.model_id,
                model_name: d.model_name,
                device_type: DeviceType { type_id: d.type_id, type_label: d.type_label },
                service,
            },
        );
        proof {
            assert(devices_view(devices@) =~= add_device_columns(old_view, d, parameter));
        }
    }
}

fn add_area_to_house(
    areas: &mut Vec<AreaDevices>,
    area: AreaInfo,
    device: Option<DeviceColumns>,
    parameter: Option<serde_json::Value>,
)
    ensures
        areas_view(final(areas)@) == add_area_columns(areas_view(old(areas)@), area, device, parameter),
{
    let ghost old_view = areas_view(areas@);
    let ghost spec_area = area;
    let n = areas.len();
    let mut i: usize = 0;
    while i < n && areas[i].area_info.area_id != area.area_id
        invariant
            0 <= i <= n,
            n == areas.len(),
            areas@ == old(areas)@,
            old_view == areas_view(areas@),
            forall|j: int| 0 <= j < i ==> !area_has_id(area.area_id)(#[trigger] old_view[j]),
        decreases n - i,
    {
        i = i + 1;
    }
    proof {
        lemma_first_index(old_view, area_has_id(area.area_id), i as int);
    }
    if i == n {
        let fresh = AreaDevices { area_info: area, devices: Vec::new() };
        proof {
            assert(fresh@.devices =~= Seq::<DeviceInfoView>::empty());
        }
        areas.push(fresh);
        proof {
            assert(areas_view(areas@) =~= old_view.push(AreaDevicesView { area_info: spec_area, devices: seq![] }));
        }
    }
    let ghost mid_view = areas_view(areas@);
    match device {
        Some(d) => {
            let mut a = areas.remove(i);
            add_device_to_area(&mut a.devices, d, parameter);
            areas.insert(i, a);
            proof {
                assert(areas_view(areas@) =~= mid_view.update(
                    i as int,
                    AreaDevicesView { devices: add_device_columns(mid_view[i as int].devices, d, parameter), ..mid_view[i as int] },
                ));
            }
        },
        None => {},
    }
}

fn add_row_to_houses(houses: &mut Vec<HouseDevices>, row: AccountDeviceRow)
    ensures
        houses_view(final(houses)@) == add_device_row(houses_view(old(houses)@), row),
{
    let ghost old_view = houses_view(houses@);
    let ghost spec_row = row;
    let AccountDeviceRow { house_id, house_name, area, device, parameter } = row;
    let n = houses.len();
    let mut i: usize = 0;
    while i < n && houses[i].house_info.house_id != house_id
        invariant
            0 <= i <= n,
            n == houses.len(),
            houses@ == old(houses)@,
            old_view == houses_view(houses@),
            forall|j: int| 0 <= j < i ==> !house_has_id(house_id)(#[trigger] old_view[j]),
        decreases n - i,
    {
        i = i + 1;
    }
    proof {
        lemma_first_index(old_view, house_has_id(house_id), i as int);
    }
    if i == n {
        let fresh = HouseDevices { house_info: HouseInfo { house_id, house_name }, areas_devices: Vec::new() };
        proof {
            assert(fresh@.areas_devices =~= Seq::<AreaDevicesView>::empty());
        }
        houses.push(fresh);
        proof {
            assert(houses_view(houses@) =~= old_view.push(
                HouseDevicesView {
                    house_info: HouseInfo { house_id: spec_row.house_id, house_name: spec_row.house_name },
                    areas_devices: seq![],
                },
            ));
        }
    }
    let ghost mid_view = houses_view(houses@);
    match area {
        Some(a) => {
            let mut h = houses.remove(i);
            add_area_to_house(&mut h.areas_devices, a, device, parameter);
            houses.insert(i, h);
            proof {
                assert(houses_view(houses@) =~= mid_view.update(
                    i as int,
                    HouseDevicesView {
                        areas_devices: add_area_columns(mid_view[i as int].areas_devices, a, device, parameter),
                        ..mid_view[i as int]
                    },
                ));
            }
        },
        None => {},
    }
}

/// Groups the rows of `account_devices_view` into the account's houses, each
/// with its areas, each with its devices, each with its service parameters,
/// all in the order in which the rows first name them.
pub fn group_houses_devices(rows: Vec<AccountDeviceRow>) -> (houses: Vec<HouseDevices>)
    ensures
        houses_view(houses@) == group_device_rows(rows@),
{
    let ghost all = rows@;
    let mut houses: Vec<HouseDevices> = Vec::new();
    let mut rest = rows;
    let ghost mut done: int = 0;
    proof {
        assert(houses_view(houses@) =~= all.take(0).fold_left(Seq::<HouseDevicesView>::empty(), |acc: Seq<HouseDevicesView>, r: AccountDeviceRow| add_device_row(acc, r)));
    }
    while rest.len() > 0
        invariant
            0 <= done <= all.len(),
            rest.len() == all.len() - done,
            rest@ == all.skip(done),
            houses_view(houses@) == all.take(done).fold_left(Seq::<HouseDevicesView>::empty(), |acc: Seq<HouseDevicesView>, r: AccountDeviceRow| add_device_row(acc, r)),
        decreases rest.len(),
    {
        let row = rest.remove(0);
        proof {
            assert(row == all[done]);
            assert(all.take(done + 1).drop_last() =~= all.take(done));
        }
        add_row_to_houses(&mut houses, row);
        proof {
            done = done + 1;
        }
    }
    proof {
        assert(all.take(done) =~= all);
    }
    houses
}

/// The text of a message that ends in a number, as `format!("{prefix}{n}")` writes it.
pub fn numbered_message(prefix: &str, n: i32) -> (s: String)
    ensures
        s@ == prefix@ + decimal(n as int),
{
    let mut s = prefix.to_string();
    push_decimal(&mut s, n as i64);
    s
}

/// A row of the query for one device: the device joined with its model, its
/// type and one of its service parameters.
pub struct DeviceInfoRow {
    pub device_name: String,
    pub efuse_mac: String,
    pub model_id: i32,
    pub model_name: String,
    pub type_id: i32,
    pub type_label: String,
    pub parameter: serde_json::Value,
}

/// The parameters of the rows, in order.
pub open spec fn row_parameters(rows: Seq<DeviceInfoRow>) -> Seq<serde_json::Value> {
    rows.map_values(|r: DeviceInfoRow| r.parameter)
}

/// The device that the rows of its query describe: its fields from the first
/// row, and the parameters of all rows, in order, as its services; with no
/// row, the error `no such device {device_id}`.
pub fn device_info_from_rows(device_id: i32, rows: Vec<DeviceInfoRow>) -> (r: Result<DeviceInfo, String>)
    ensures
        rows@.len() == 0 ==> (r matches Err(e) && e@ == "no such device "@ + decimal(device_id as int)),
        rows@.len() > 0 ==> (r matches Ok(info) && info@ == DeviceInfoView {
            device_id,
            device_name: rows@[0].device_name,
            efuse_mac: rows@[0].efuse_mac,
            model_id: rows@[0].model_id,
            model_name: rows@[0].model_name,
            device_type: DeviceType { type_id: rows@[0].type_id, type_label: rows@[0].type_label },
            service: row_parameters(rows@),
        }),
{
    let ghost all = rows@;
    if rows.len() == 0 {
        return Err(numbered_message("no such device ", device_id));
    }
    let mut rest = rows;
    let first = rest.remove(0);
    let DeviceInfoRow { device_name, efuse_mac, model_id, model_name, type_id, type_label, parameter } = first;
    let mut service: Vec<serde_json::Value> = Vec::new();
    service.push(parameter);
    let ghost mut done: int = 1;
    proof {
        assert(service@ =~= row_parameters(all.take(1)));
    }
    while rest.len() > 0
        invariant
            1 <= done <= all.len(),
            rest@ == all.skip(done),
            service@ == row_parameters(all.take(done)),
        decreases rest.len(),
    {
        let row = rest.remove(0);
        proof {
            assert(row == all[done]);
        }
        service.push(row.parameter);
        proof {
            done = done + 1;
            assert(service@ =~= row_parameters(all.take(done)));
        }
    }
    proof {
        assert(all.take(done) =~= all);
    }
    Ok(DeviceInfo {
        device_id,
        device_name,
        efuse_mac,
        model_id,
        model_name,
        device_type: DeviceType { type_id, type_label },
        service,
    })
}

/// The account's house with the given id, from its houses with their devices;
/// when it has no such house, the error `no such house {house_id}`.
pub fn select_house(houses: Vec<HouseDevices>, house_id: i32) -> (r: Result<HouseDevices, String>)
    ensures
        ({
            let i = first_index(houses_view(houses@), house_has_id(house_id));
            &&& i < houses@.len() ==> (r matches Ok(h) && h@ == houses_view(houses@)[i])
            &&& i == houses@.len() ==> (r matches Err(e) && e@ == "no such house "@ + decimal(house_id as int))
        }),
{
    let ghost hv = houses_view(houses@);
    let mut houses = houses;
    let n = houses.len();
    let mut i: usize = 0;
    while i < n && houses[i].house_info.house_id != house_id
        invariant
            0 <= i <= n,
            n == houses.len(),
            hv == houses_view(houses@),
            forall|j: int| 0 <= j < i ==> !house_has_id(house_id)(#[trigger] hv[j]),
        decreases n - i,
    {
        i = i + 1;
    }
    proof {
        lemma_first_index(hv, house_has_id(house_id), i as int);
    }
    if i < n {
        Ok(houses.swap_remove(i))
    } else {
        Err(numbered_message("no such house ", house_id))
    }
}

/// The area with the given id in a house; when the house has no such area,
/// the error `no such area: {area_id}`.
pub fn select_area(house: HouseDevices, area_id: i32) -> (r: Result<Option<AreaDevices>, String>)
    ensures
        ({
            let av = areas_view(house.areas_devices@);
            let i = first_index(av, area_has_id(area_id));
            &&& i < av.len() ==> (r matches Ok(Some(a)) && a@ == av[i])
            &&& i == av.len() ==> (r matches Err(e) && e@ == "no such area: "@ + decimal(area_id as int))
        }),
{
    let ghost av = areas_view(house.areas_devices@);
    let mut areas = house.areas_devices;
    let n = areas.len();
    let mut i: usize = 0;
    while i < n && areas[i].area_info.area_id != area_id
        invariant
            0 <= i <= n,
            n == areas.len(),
            av == areas_view(areas@),
            forall|j: int| 0 <= j < i ==> !area_has_id(area_id)(#[trigger] av[j]),
        decreases n - i,
    {
        i = i + 1;
    }
    proof {
        lemma_first_index(av, area_has_id(area_id), i as int);
    }
    if i < n {
        Ok(Some(areas.swap_remove(i)))
    } else {
        Err(numbered_message("no such area: ", area_id))
    }
}

/// The devices of an account: its id and name, with its houses grouped from
/// the rows of `account_devices_view`.
pub fn account_devices_from_rows(account_id: i32, username: String, rows: Vec<AccountDeviceRow>) -> (r: AccountDevices)
    ensures
        r.account_info.account_id == account_id,
        r.account_info.username == username,
        houses_view(r.houses_devices@) == group_device_rows(rows@),
{
    AccountDevices {
        account_info: AccountInfo { account_id, username },
        houses_devices: group_houses_devices(rows),
    }
}

/// The text of the statement that changes a device: `device_name = $1` when a
/// name is given, then `area_id = $n` when an area is given, `n` being the
/// number of parameters so far; the parts are written as the server writes
/// them, with no separator and no condition.
pub open spec fn device_update_text(info: DeviceUpdate) -> Seq<char> {
    let name_part = if info.device_name is Some { "device_name = $1"@ } else { Seq::<char>::empty() };
    let count: int = if info.device_name is Some { 2 } else { 1 };
    let area_part = if info.area_id is Some { "area_id = $"@ + decimal(count) } else { Seq::<char>::empty() };
    "UPDATE device SET "@ + name_part + area_part
}

/// The parameters of the statement that changes a device: the given name,
/// then the given area.
pub open spec fn device_update_params(info: DeviceUpdate) -> Seq<SqlParam> {
    let name_part = match info.device_name {
        Some(n) => seq![SqlParam::Text(n)],
        None => Seq::<SqlParam>::empty(),
    };
    let area_part = match info.area_id {
        Some(a) => seq![SqlParam::Int(a)],
        None => Seq::<SqlParam>::empty(),
    };
    name_part + area_part
}

/// The statement that changes a device, with the given name and area as its parameters, in that order.
pub fn device_update_statement(info: DeviceUpdate) -> (st: SqlStatement)
    ensures
        st.query@ == device_update_text(info),
        st.params@ == device_update_params(info),
{
    let ghost spec_info = info;
    let mut query = "UPDATE device SET ".to_string();
    let mut params: Vec<SqlParam> = Vec::new();
    match info.device_name {
        Some(name) => {
            params.push(SqlParam::Text(name));
            query.append("device_name = $");
            push_decimal(&mut query, params.len() as i64);
            proof {
                reveal_strlit("device_name = $1");
                reveal_strlit("device_name = $");
                assert(decimal(1) =~= seq!['1']);
            }
        },
        None => {},
    }
    let ghost mid = query@;
    match info.area_id {
        Some(id) => {
            params.push(SqlParam::Int(id));
            query.append("area_id = $");
            push_decimal(&mut query, params.len() as i64);
        },
        None => {},
    }
    proof {
        if spec_info.device_name is Some {
            assert(mid =~= "UPDATE device SET "@ + "device_name = $1"@);
        } else {
            assert(mid =~= "UPDATE device SET "@ + Seq::<char>::empty());
        }
        assert(query@ =~= device_update_text(spec_info));
        assert(params@ =~= device_update_params(spec_info));
    }
    SqlStatement { query, params }
}

/// Every placeholder of the statement that changes a device has its
/// parameter: the statement holds as many `$` signs as it binds values.
pub proof fn law_device_update_placeholders_match_params(info: DeviceUpdate)
    ensures
        placeholder_count(device_update_text(info)) == device_update_params(info).len(),
{
    reveal_strlit("UPDATE device SET ");
    reveal_strlit("device_name = $1");
    reveal_strlit("device_name = ");
    reveal_strlit("area_id = $");
    reveal_strlit("area_id = ");
    let head = "UPDATE device SET "@;
    lemma_no_placeholder(head);
    let name_part = if info.device_name is Some { "device_name = $1"@ } else { Seq::<char>::empty() };
    let count: int = if info.device_name is Some { 2 } else { 1 };
    let area_part = if info.area_id is Some { "area_id = $"@ + decimal(count) } else { Seq::<char>::empty() };
    let named = "device_name = $1"@;
    assert(placeholder_count(named) == 1) by {
        assert(named.drop_last().drop_last() =~= "device_name = "@);
        lemma_no_placeholder("device_name = "@);
        assert(named.drop_last().last() == '$');
        assert(placeholder_count(named.drop_last()) == 1);
        assert(named.last() == '1');
    }
    let area_key = "area_id = $"@;
    assert(placeholder_count(area_key) == 1) by {
        assert(area_key.drop_last() =~= "area_id = "@);
        lemma_no_placeholder("area_id = "@);
    }
    lemma_no_placeholder(Seq::<char>::empty());
    lemma_decimal_no_placeholder(count);
    lemma_placeholder_count_concat(area_key, decimal(count));
    lemma_placeholder_count_concat(head, name_part);
    lemma_placeholder_count_concat(head + name_part, area_part);
}

} // verus!
