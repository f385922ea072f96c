//! What grouping the rows of `account_devices_view` guarantees.
use crate::db::data::device::{
    add_area_columns, add_device_columns, add_device_row, area_has_id, device_has_id, group_device_rows, house_has_id,
    services_of, AccountDeviceRow, DeviceColumns,
};
use crate::dto::entity::simple::{AreaInfo, DeviceInfoView, DeviceType, HouseInfo};
use crate::dto::http::response::{AreaDevicesView, HouseDevicesView};
use crate::search::{first_index, lemma_filter_nonempty, lemma_filter_push, lemma_first_index_bounds};
use vstd::prelude::*;

verus! {

/// No two devices share an id.
pub open spec fn devices_distinct(ds: Seq<DeviceInfoView>) -> bool {
    forall|i: int, j: int| 0 <= i < j < ds.len() ==> #[trigger] ds[i].device_id != #[trigger] ds[j].device_id
}

/// No two areas share an id, and within each area no two devices do.
pub open spec fn areas_distinct(areas: Seq<AreaDevicesView>) -> bool {
    &&& forall|i: int, j: int| 0 <= i < j < areas.len() ==> #[trigger] areas[i].area_info.area_id != #[trigger] areas[j].area_info.area_id
    &&& forall|i: int| 0 <= i < areas.len() ==> devices_distinct(#[trigger] areas[i].devices)
}

/// No two houses share an id, and the areas of each house are distinct.
pub open spec fn houses_distinct(houses: Seq<HouseDevicesView>) -> bool {
    &&& forall|i: int, j: int| 0 <= i < j < houses.len() ==> #[trigger] houses[i].house_info.house_id != #[trigger] houses[j].house_info.house_id
    &&& forall|i: int| 0 <= i < houses.len() ==> areas_distinct(#[trigger] houses[i].areas_devices)
}

/// The house of a row is listed; so is its area, within that house, when the
/// row has one; and so is its device, within that area, when the row has one.
pub open spec fn row_listed(houses: Seq<HouseDevicesView>, row: AccountDeviceRow) -> bool {
    exists|i: int| {
        &&& 0 <= i < houses.len()
        &&& #[trigger] houses[i].house_info.house_id == row.house_id
        &&& (row.area matches Some(a) ==> exists|k: int| {
            &&& 0 <= k < houses[i].areas_devices.len()
            &&& #[trigger] houses[i].areas_devices[k].area_info.area_id == a.area_id
            &&& (row.device matches Some(d) ==> exists|m: int| {
                &&& 0 <= m < houses[i].areas_devices[k].devices.len()
                &&& #[trigger] houses[i].areas_devices[k].devices[m].device_id == d.device_id
            })
        })
    }
}

/// `new` keeps every device of `old` at its place, with its id.
pub open spec fn devices_grow(old: Seq<DeviceInfoView>, new: Seq<DeviceInfoView>) -> bool {
    &&& old.len() <= new.len()
    &&& forall|m: int| 0 <= m < old.len() ==> #[trigger] new[m].device_id == old[m].device_id
}

/// `new` keeps every area of `old` at its place, with its id and its devices.
pub open spec fn areas_grow(old: Seq<AreaDevicesView>, new: Seq<AreaDevicesView>) -> bool {
    &&& old.len() <= new.len()
    &&& forall|k: int| 0 <= k < old.len() ==> #[trigger] new[k].area_info.area_id == old[k].area_info.area_id
    &&& forall|k: int| 0 <= k < old.len() ==> devices_grow(#[trigger] old[k].devices, new[k].devices)
}

/// `new` keeps every house of `old` at its place, with its id and its areas.
pub open spec fn houses_grow(old: Seq<HouseDevicesView>, new: Seq<HouseDevicesView>) -> bool {
    &&& old.len() <= new.len()
    &&& forall|i: int| 0 <= i < old.len() ==> #[trigger] new[i].house_info.house_id == old[i].house_info.house_id
    &&& forall|i: int| 0 <= i < old.len() ==> areas_grow(#[trigger] old[i].areas_devices, new[i].areas_devices)
}

proof fn lemma_add_device_columns(ds: Seq<DeviceInfoView>, d: DeviceColumns, p: Option<serde_json::Value>)
    requires
        devices_distinct(ds),
    ensures
        devices_distinct(add_device_columns(ds, d, p)),
        devices_grow(ds, add_device_columns(ds, d, p)),
        exists|m: int| 0 <= m < add_device_columns(ds, d, p).len() && #[trigger] add_device_columns(ds, d, p)[m].device_id == d.device_id,
{
    lemma_first_index_bounds(ds, device_has_id(d.device_id));
    let i = first_index(ds, device_has_id(d.device_id));
    let r = add_device_columns(ds, d, p);
    if i < ds.len() {
        assert(r[i].device_id == d.device_id);
    } else {
        assert(r[ds.len() as int].device_id == d.device_id);
        assert forall|a: int, b: int| 0 <= a < b < r.len() implies #[trigger] r[a].device_id != #[trigger] r[b].device_id by {
            if b == ds.len() {
                assert(!device_has_id(d.device_id)(ds[a]));
            }
        }
    }
}

#[verifier::spinoff_prover]
proof fn lemma_add_area_columns(
    areas: Seq<AreaDevicesView>,
    area: AreaInfo,
    device: Option<DeviceColumns>,
    p: Option<serde_json::Value>,
)
    requires
        areas_distinct(areas),
    ensures
        areas_distinct(add_area_columns(areas, area, device, p)),
        areas_grow(areas, add_area_columns(areas, area, device, p)),
        exists|k: int| {
            &&& 0 <= k < add_area_columns(areas, area, device, p).len()
            &&& #[trigger] add_area_columns(areas, area, device, p)[k].area_info.area_id == area.area_id
            &&& (device matches Some(d) ==> exists|m: int| {
                &&& 0 <= m < add_area_columns(areas, area, device, p)[k].devices.len()
                &&& #[trigger] add_area_columns(areas, area, device, p)[k].devices[m].device_id == d.device_id
            })
        },
{
    lemma_first_index_bounds(areas, area_has_id(area.area_id));
    let i = first_index(areas, area_has_id(area.area_id));
    let areas1 = if i < areas.len() {
        areas
    } else {
        areas.push(AreaDevicesView { area_info: area, devices: seq![] })
    };
    assert(areas_distinct(areas1)) by {
        if i == areas.len() {
            assert forall|a: int, b: int| 0 <= a < b < areas1.len() implies #[trigger] areas1[a].area_info.area_id != #[trigger] areas1[b].area_info.area_id by {
                if b == areas.len() {
                    assert(!area_has_id(area.area_id)(areas[a]));
                }
            }
            assert(devices_distinct(areas1[areas.len() as int].devices));
        }
    }
    assert(areas_grow(areas, areas1));
    assert(areas1[i].area_info.area_id == area.area_id);
    let r = add_area_columns(areas, area, device, p);
    match device {
        Some(d) => {
            lemma_add_device_columns(areas1[i].devices, d, p);
            assert(r[i].area_info.area_id == area.area_id);
            let nd = add_device_columns(areas1[i].devices, d, p);
            assert(r[i].devices == nd);
            let m = choose|m: int| 0 <= m < nd.len() && #[trigger] nd[m].device_id == d.device_id;
            assert(r[i].devices[m].device_id == d.device_id);
            assert(areas_distinct(r)) by {
                assert(r.len() == areas1.len());
                assert forall|k: int| 0 <= k < r.len() implies #[trigger] r[k].area_info == areas1[k].area_info by {
                }
                assert forall|a: int, b: int| 0 <= a < b < r.len() implies
                    #[trigger] r[a].area_info.area_id != #[trigger] r[b].area_info.area_id by {
                    assert(r[a].area_info == areas1[a].area_info);
                    assert(r[b].area_info == areas1[b].area_info);
                }
                assert forall|k: int| 0 <= k < r.len() implies devices_distinct(#[trigger] r[k].devices) by {
                    if k != i {
                        assert(r[k] == areas1[k]);
                    }
                }
            }
            assert(areas_grow(areas, r)) by {
                assert forall|k: int| 0 <= k < areas.len() implies devices_grow(#[trigger] areas[k].devices, r[k].devices) by {
                    if k != i {
                        assert(r[k] == areas1[k]);
                    }
                }
            }
        },
        None => {},
    }
}

/// Adding a row keeps houses, areas and devices distinct, keeps every house,
/// area and device listed before at its place, and lists the row.
#[verifier::spinoff_prover]
pub proof fn lemma_add_device_row(houses: Seq<HouseDevicesView>, row: AccountDeviceRow)
    requires
        houses_distinct(houses),
    ensures
        houses_distinct(add_device_row(houses, row)),
        houses_grow(houses, add_device_row(houses, row)),
        row_listed(add_device_row(houses, row), row),
{
    lemma_first_index_bounds(houses, house_has_id(row.house_id));
    let i = first_index(houses, house_has_id(row.house_id));
    let houses1 = if i < houses.len() {
        houses
    } else {
        houses.push(
            HouseDevicesView {
                house_info: HouseInfo { house_id: row.house_id, house_name: row.house_name },
                areas_devices: seq![],
            },
        )
    };
    assert(houses_distinct(houses1)) by {
        if i == houses.len() {
            assert forall|a: int, b: int| 0 <= a < b < houses1.len() implies #[trigger] houses1[a].house_info.house_id != #[trigger] houses1[b].house_info.house_id by {
                if b == houses.len() {
                    assert(!house_has_id(row.house_id)(houses[a]));
                }
            }
            assert(areas_distinct(houses1[houses.len() as int].areas_devices));
        }
    }
    assert(houses_grow(houses, houses1)) by {
        assert forall|k: int| 0 <= k < houses.len() implies areas_grow(#[trigger] houses[k].areas_devices, houses1[k].areas_devices) by {
            assert(houses1[k] == houses[k]);
            assert forall|q: int| 0 <= q < houses[k].areas_devices.len() implies devices_grow(#[trigger] houses[k].areas_devices[q].devices, houses1[k].areas_devices[q].devices) by {
            }
        }
    }
    assert(houses1[i].house_info.house_id == row.house_id);
    let r = add_device_row(houses, row);
    match row.area {
        Some(a) => {
            lemma_add_area_columns(houses1[i].areas_devices, a, row.device, row.parameter);
            assert(r[i].house_info.house_id == row.house_id);
            assert(houses_distinct(r)) by {
                assert forall|a: int, b: int| 0 <= a < b < r.len() implies
                    #[trigger] r[a].house_info.house_id != #[trigger] r[b].house_info.house_id by {
                    assert(r[a].house_info == houses1[a].house_info);
                    assert(r[b].house_info == houses1[b].house_info);
                }
                assert forall|k: int| 0 <= k < r.len() implies areas_distinct(#[trigger] r[k].areas_devices) by {
                    if k != i {
                        assert(r[k] == houses1[k]);
                    }
                }
            }
            assert(houses_grow(houses, r)) by {
                assert forall|k: int| 0 <= k < houses.len() implies areas_grow(#[trigger] houses[k].areas_devices, r[k].areas_devices) by {
                    if k != i {
                        assert(r[k] == houses1[k]);
                    } else {
                        let old_a = houses[k].areas_devices;
                        let mid_a = houses1[k].areas_devices;
                        let new_a = r[k].areas_devices;
                        assert forall|q: int| 0 <= q < old_a.len() implies devices_grow(#[trigger] old_a[q].devices, new_a[q].devices) by {
                            assert(devices_grow(mid_a[q].devices, new_a[q].devices));
                        }
                    }
                }
            }
            let na = add_area_columns(houses1[i].areas_devices, a, row.device, row.parameter);
            assert(r[i].areas_devices == na);
            let k = choose|k: int| {
                &&& 0 <= k < na.len()
                &&& #[trigger] na[k].area_info.area_id == a.area_id
                &&& (row.device matches Some(d) ==> exists|m: int| {
                    &&& 0 <= m < na[k].devices.len()
                    &&& #[trigger] na[k].devices[m].device_id == d.device_id
                })
            };
            assert(r[i].areas_devices[k].area_info.area_id == a.area_id);
            assert(row_listed(r, row));
        },
        None => {
            assert(row_listed(r, row));
        },
    }
}

proof fn lemma_listed_grows(old: Seq<HouseDevicesView>, new: Seq<HouseDevicesView>, row: AccountDeviceRow)
    requires
        row_listed(old, row),
        houses_grow(old, new),
    ensures
        row_listed(new, row),
{
    let i = choose|i: int| {
        &&& 0 <= i < old.len()
        &&& #[trigger] old[i].house_info.house_id == row.house_id
        &&& (row.area matches Some(a) ==> exists|k: int| {
            &&& 0 <= k < old[i].areas_devices.len()
            &&& #[trigger] old[i].areas_devices[k].area_info.area_id == a.area_id
            &&& (row.device matches Some(d) ==> exists|m: int| {
                &&& 0 <= m < old[i].areas_devices[k].devices.len()
                &&& #[trigger] old[i].areas_devices[k].devices[m].device_id == d.device_id
            })
        })
    };
    assert(new[i].house_info.house_id == row.house_id);
    assert(areas_grow(old[i].areas_devices, new[i].areas_devices));
    match row.area {
        Some(a) => {
            let k = choose|k: int| {
                &&& 0 <= k < old[i].areas_devices.len()
                &&& #[trigger] old[i].areas_devices[k].area_info.area_id == a.area_id
                &&& (row.device matches Some(d) ==> exists|m: int| {
                    &&& 0 <= m < old[i].areas_devices[k].devices.len()
                    &&& #[trigger] old[i].areas_devices[k].devices[m].device_id == d.device_id
                })
            };
            assert(new[i].areas_devices[k].area_info.area_id == a.area_id);
            assert(devices_grow(old[i].areas_devices[k].devices, new[i].areas_devices[k].devices));
            match row.device {
                Some(d) => {
                    let m = choose|m: int| {
                        &&& 0 <= m < old[i].areas_devices[k].devices.len()
                        &&& #[trigger] old[i].areas_devices[k].devices[m].device_id == d.device_id
                    };
                    assert(new[i].areas_devices[k].devices[m].device_id == d.device_id);
                },
                None => {},
            }
        },
        None => {},
    }
}

/// Grouping the rows of `account_devices_view` lists no house twice, no area
/// twice within a house and no device twice within an area, and it lists
/// every row: its house, its area within that house when the row has one,
/// and its device within that area when the row has one.
pub proof fn law_grouped_devices_distinct_and_complete(rows: Seq<AccountDeviceRow>)
    ensures
        houses_distinct(group_device_rows(rows)),
        forall|j: int| 0 <= j < rows.len() ==> row_listed(group_device_rows(rows), #[trigger] rows[j]),
    decreases rows.len(),
{
    if rows.len() == 0 {
    } else {
        let prefix = rows.drop_last();
        law_grouped_devices_distinct_and_complete(prefix);
        let before = group_device_rows(prefix);
        assert(group_device_rows(rows) == add_device_row(before, rows.last()));
        lemma_add_device_row(before, rows.last());
        assert forall|j: int| 0 <= j < rows.len() implies row_listed(group_device_rows(rows), #[trigger] rows[j]) by {
            if j < rows.len() - 1 {
                assert(rows[j] == prefix[j]);
                lemma_listed_grows(before, group_device_rows(rows), rows[j]);
            }
        }
    }
}

/// Whether a row belongs to house `h`.
pub open spec fn row_in_house(h: i32) -> spec_fn(AccountDeviceRow) -> bool {
    |r: AccountDeviceRow| r.house_id == h
}

/// Whether a row names area `a` of house `h`.
pub open spec fn row_in_area(h: i32, a: i32) -> spec_fn(AccountDeviceRow) -> bool {
    |r: AccountDeviceRow| r.house_id == h && r.area is Some && r.area.unwrap().area_id == a
}

/// Whether a row names device `d` in area `a` of house `h`.
pub open spec fn row_of_device(h: i32, a: i32, d: i32) -> spec_fn(AccountDeviceRow) -> bool {
    |r: AccountDeviceRow| r.house_id == h && r.area is Some && r.area.unwrap().area_id == a
        && r.device is Some && r.device.unwrap().device_id == d
}

/// Whether a row names device `d` in area `a` of house `h` with a parameter.
pub open spec fn row_with_parameter(h: i32, a: i32, d: i32) -> spec_fn(AccountDeviceRow) -> bool {
    |r: AccountDeviceRow| r.house_id == h && r.area is Some && r.area.unwrap().area_id == a
        && r.device is Some && r.device.unwrap().device_id == d && r.parameter is Some
}

/// The parameters of the rows of a device, in row order.
pub open spec fn device_parameters(rows: Seq<AccountDeviceRow>, h: i32, a: i32, d: i32) -> Seq<serde_json::Value> {
    rows.filter(row_with_parameter(h, a, d)).map_values(|r: AccountDeviceRow| r.parameter.unwrap())
}

/// A listed device of area `a` of house `h` has the fields of its first row
/// and, as services, the parameters of all its rows.
pub open spec fn device_exact(dv: DeviceInfoView, rows: Seq<AccountDeviceRow>, h: i32, a: i32) -> bool {
    let f = rows.filter(row_of_device(h, a, dv.device_id));
    let c = f[0].device.unwrap();
    &&& f.len() > 0
    &&& dv.device_name == c.device_name
    &&& dv.efuse_mac == c.efuse_mac
    &&& dv.model_id == c.model_id
    &&& dv.model_name == c.model_name
    &&& dv.device_type == DeviceType { type_id: c.type_id, type_label: c.type_label }
    &&& dv.service == device_parameters(rows, h, a, dv.device_id)
}

/// A listed area of house `h` is the area of its first row, lists exactly
/// the devices of its rows, each as `device_exact` says.
pub open spec fn area_exact(av: AreaDevicesView, rows: Seq<AccountDeviceRow>, h: i32) -> bool {
    let a = av.area_info.area_id;
    let f = rows.filter(row_in_area(h, a));
    &&& f.len() > 0
    &&& av.area_info == f[0].area.unwrap()
    &&& forall|m: int| 0 <= m < av.devices.len() ==> device_exact(#[trigger] av.devices[m], rows, h, a)
    &&& forall|j: int| 0 <= j < rows.len() && row_in_area(h, a)(#[trigger] rows[j]) && rows[j].device is Some ==>
        exists|m: int| 0 <= m < av.devices.len() && #[trigger] av.devices[m].device_id == rows[j].device.unwrap().device_id
}

/// A listed house has the name of its first row and lists exactly the areas
/// of its rows, each as `area_exact` says.
pub open spec fn house_exact(hv: HouseDevicesView, rows: Seq<AccountDeviceRow>) -> bool {
    let h = hv.house_info.house_id;
    let f = rows.filter(row_in_house(h));
    &&& f.len() > 0
    &&& hv.house_info.house_name == f[0].house_name
    &&& forall|k: int| 0 <= k < hv.areas_devices.len() ==> area_exact(#[trigger] hv.areas_devices[k], rows, h)
    &&& forall|j: int| 0 <= j < rows.len() && row_in_house(h)(#[trigger] rows[j]) && rows[j].area is Some ==>
        exists|k: int| 0 <= k < hv.areas_devices.len() && #[trigger] hv.areas_devices[k].area_info.area_id == rows[j].area.unwrap().area_id
}

/// The grouping lists exactly the houses of the rows, each as `house_exact` says.
pub open spec fn houses_exact(houses: Seq<HouseDevicesView>, rows: Seq<AccountDeviceRow>) -> bool {
    &&& forall|i: int| 0 <= i < houses.len() ==> house_exact(#[trigger] houses[i], rows)
    &&& forall|j: int| 0 <= j < rows.len() ==>
        exists|i: int| 0 <= i < houses.len() && #[trigger] houses[i].house_info.house_id == (#[trigger] rows[j]).house_id
}

proof fn lemma_device_unchanged(dv: DeviceInfoView, rows: Seq<AccountDeviceRow>, r: AccountDeviceRow, h: i32, a: i32)
    requires
        device_exact(dv, rows, h, a),
        !row_of_device(h, a, dv.device_id)(r),
    ensures
        device_exact(dv, rows.push(r), h, a),
{
    lemma_filter_push(rows, row_of_device(h, a, dv.device_id), r);
    lemma_filter_push(rows, row_with_parameter(h, a, dv.device_id), r);
}

proof fn lemma_device_grows(dv: DeviceInfoView, rows: Seq<AccountDeviceRow>, r: AccountDeviceRow, h: i32, a: i32)
    requires
        device_exact(dv, rows, h, a),
        row_of_device(h, a, dv.device_id)(r),
    ensures
        device_exact(
            match r.parameter {
                Some(v) => DeviceInfoView { service: dv.service.push(v), ..dv },
                None => dv,
            },
            rows.push(r),
            h,
            a,
        ),
{
    let d = dv.device_id;
    lemma_filter_push(rows, row_of_device(h, a, d), r);
    lemma_filter_push(rows, row_with_parameter(h, a, d), r);
    if r.parameter is Some {
        assert(device_parameters(rows.push(r), h, a, d) =~= device_parameters(rows, h, a, d).push(r.parameter.unwrap()));
    }
}

proof fn lemma_device_fresh(rows: Seq<AccountDeviceRow>, r: AccountDeviceRow, h: i32, a: i32, d: DeviceColumns)
    requires
        rows.filter(row_of_device(h, a, d.device_id)).len() == 0,
        r.house_id == h,
        r.area is Some,
        r.area.unwrap().area_id == a,
        r.device == Some(d),
    ensures
        device_exact(
            DeviceInfoView {
                device_id: d.device_id,
                device_name: d.device_name,
                efuse_mac: d.efuse_mac,
                model_id: d.model_id,
                model_name: d.model_name,
                device_type: DeviceType { type_id: d.type_id, type_label: d.type_label },
                service: services_of(r.parameter),
            },
            rows.push(r),
            h,
            a,
        ),
{
    let id = d.device_id;
    lemma_filter_push(rows, row_of_device(h, a, id), r);
    lemma_filter_push(rows, row_with_parameter(h, a, id), r);
    if rows.filter(row_with_parameter(h, a, id)).len() > 0 {
        lemma_filter_nonempty(rows, row_with_parameter(h, a, id));
        let j = choose|j: int| 0 <= j < rows.len() && row_with_parameter(h, a, id)(#[trigger] rows[j]);
        reveal(Seq::filter);
        rows.lemma_filter_contains(row_of_device(h, a, id), j);
    }
    assert(rows.filter(row_with_parameter(h, a, id)) =~= Seq::<AccountDeviceRow>::empty());
    assert(rows.filter(row_of_device(h, a, id)) =~= Seq::<AccountDeviceRow>::empty());
    assert(rows.push(r).filter(row_of_device(h, a, id)) =~= seq![r]);
    assert(device_parameters(rows.push(r), h, a, id) =~= services_of(r.parameter));
}

proof fn lemma_filter_empty_sub(rows: Seq<AccountDeviceRow>, p: spec_fn(AccountDeviceRow) -> bool, q: spec_fn(AccountDeviceRow) -> bool)
    requires
        rows.filter(p).len() == 0,
        forall|x: AccountDeviceRow| #[trigger] q(x) ==> p(x),
    ensures
        rows.filter(q).len() == 0,
{
    if rows.filter(q).len() > 0 {
        lemma_filter_nonempty(rows, q);
        let j = choose|j: int| 0 <= j < rows.len() && q(#[trigger] rows[j]);
        rows.lemma_filter_contains(p, j);
    }
}

proof fn lemma_area_unchanged(av: AreaDevicesView, rows: Seq<AccountDeviceRow>, r: AccountDeviceRow, h: i32)
    requires
        area_exact(av, rows, h),
        !row_in_area(h, av.area_info.area_id)(r),
    ensures
        area_exact(av, rows.push(r), h),
{
    let a = av.area_info.area_id;
    let rs = rows.push(r);
    lemma_filter_push(rows, row_in_area(h, a), r);
    assert forall|m: int| 0 <= m < av.devices.len() implies device_exact(#[trigger] av.devices[m], rs, h, a) by {
        lemma_device_unchanged(av.devices[m], rows, r, h, a);
    }
    assert forall|j: int| 0 <= j < rs.len() && row_in_area(h, a)(#[trigger] rs[j]) && rs[j].device is Some implies
        exists|m: int| 0 <= m < av.devices.len() && #[trigger] av.devices[m].device_id == rs[j].device.unwrap().device_id by {
        assert(j < rows.len());
        assert(rs[j] == rows[j]);
    }
}

/// An area after a row of it: the row's device, if any, is added to it.
pub open spec fn area_after_row(av: AreaDevicesView, r: AccountDeviceRow) -> AreaDevicesView {
    match r.device {
        Some(d) => AreaDevicesView { devices: add_device_columns(av.devices, d, r.parameter), ..av },
        None => av,
    }
}

#[verifier::spinoff_prover]
proof fn lemma_area_step(av: AreaDevicesView, rows: Seq<AccountDeviceRow>, r: AccountDeviceRow, h: i32)
    requires
        area_exact(av, rows, h),
        devices_distinct(av.devices),
        row_in_area(h, av.area_info.area_id)(r),
    ensures
        area_exact(area_after_row(av, r), rows.push(r), h),
{
    let a = av.area_info.area_id;
    let rs = rows.push(r);
    let out = area_after_row(av, r);
    lemma_filter_push(rows, row_in_area(h, a), r);
    assert(out.area_info == av.area_info);
    match r.device {
        None => {
            assert forall|m: int| 0 <= m < out.devices.len() implies device_exact(#[trigger] out.devices[m], rs, h, a) by {
                lemma_device_unchanged(av.devices[m], rows, r, h, a);
            }
            assert forall|j: int| 0 <= j < rs.len() && row_in_area(h, a)(#[trigger] rs[j]) && rs[j].device is Some implies
                exists|m: int| 0 <= m < out.devices.len() && #[trigger] out.devices[m].device_id == rs[j].device.unwrap().device_id by {
                assert(j < rows.len());
                assert(rs[j] == rows[j]);
            }
        },
        Some(d) => {
            let ds = av.devices;
            lemma_first_index_bounds(ds, device_has_id(d.device_id));
            let m0 = first_index(ds, device_has_id(d.device_id));
            let nds = add_device_columns(ds, d, r.parameter);
            assert(out.devices == nds);
            if m0 == ds.len() {
                if rows.filter(row_of_device(h, a, d.device_id)).len() > 0 {
                    lemma_filter_nonempty(rows, row_of_device(h, a, d.device_id));
                    let j = choose|j: int| 0 <= j < rows.len() && row_of_device(h, a, d.device_id)(#[trigger] rows[j]);
                    assert(row_in_area(h, a)(rows[j]));
                    let m = choose|m: int| 0 <= m < ds.len() && #[trigger] ds[m].device_id == rows[j].device.unwrap().device_id;
                    assert(!device_has_id(d.device_id)(ds[m]));
                }
                lemma_device_fresh(rows, r, h, a, d);
            }
            assert forall|m: int| 0 <= m < nds.len() implies device_exact(#[trigger] nds[m], rs, h, a) by {
                if m < ds.len() {
                    if m == m0 {
                        lemma_device_grows(ds[m], rows, r, h, a);
                    } else {
                        if ds[m].device_id == d.device_id {
                            assert(m0 < ds.len());
                            assert(ds[m0].device_id == d.device_id);
                        }
                        lemma_device_unchanged(ds[m], rows, r, h, a);
                        assert(nds[m] == ds[m]);
                    }
                }
            }
            assert forall|j: int| 0 <= j < rs.len() && row_in_area(h, a)(#[trigger] rs[j]) && rs[j].device is Some implies
                exists|m: int| 0 <= m < nds.len() && #[trigger] nds[m].device_id == rs[j].device.unwrap().device_id by {
                if j < rows.len() {
                    assert(rs[j] == rows[j]);
                    let m = choose|m: int| 0 <= m < ds.len() && #[trigger] ds[m].device_id == rows[j].device.unwrap().device_id;
                    assert(nds[m].device_id == ds[m].device_id);
                } else {
                    assert(rs[j] == r);
                    assert(nds[m0].device_id == d.device_id);
                }
            }
        },
    }
}

#[verifier::spinoff_prover]
proof fn lemma_area_fresh(rows: Seq<AccountDeviceRow>, r: AccountDeviceRow, h: i32, area: AreaInfo)
    requires
        rows.filter(row_in_area(h, area.area_id)).len() == 0,
        r.house_id == h,
        r.area == Some(area),
    ensures
        area_exact(area_after_row(AreaDevicesView { area_info: area, devices: seq![] }, r), rows.push(r), h),
{
    let a = area.area_id;
    let rs = rows.push(r);
    let out = area_after_row(AreaDevicesView { area_info: area, devices: seq![] }, r);
    lemma_filter_push(rows, row_in_area(h, a), r);
    assert(rows.filter(row_in_area(h, a)) =~= Seq::<AccountDeviceRow>::empty());
    assert(rs.filter(row_in_area(h, a)) =~= seq![r]);
    match r.device {
        Some(d) => {
            lemma_first_index_bounds(Seq::<DeviceInfoView>::empty(), device_has_id(d.device_id));
            lemma_filter_empty_sub(rows, row_in_area(h, a), row_of_device(h, a, d.device_id));
            lemma_device_fresh(rows, r, h, a, d);
            assert(out.devices.len() == 1);
            assert(out.devices[0].device_id == d.device_id);
            assert forall|j: int| 0 <= j < rs.len() && row_in_area(h, a)(#[trigger] rs[j]) && rs[j].device is Some implies
                exists|m: int| 0 <= m < out.devices.len() && #[trigger] out.devices[m].device_id == rs[j].device.unwrap().device_id by {
                if j < rows.len() {
                    assert(rs[j] == rows[j]);
                    rows.lemma_filter_contains(row_in_area(h, a), j);
                } else {
                    assert(rs[j] == r);
                }
            }
        },
        None => {
            assert forall|j: int| 0 <= j < rs.len() && row_in_area(h, a)(#[trigger] rs[j]) && rs[j].device is Some implies
                exists|m: int| 0 <= m < out.devices.len() && #[trigger] out.devices[m].device_id == rs[j].device.unwrap().device_id by {
                if j < rows.len() {
                    assert(rs[j] == rows[j]);
                    rows.lemma_filter_contains(row_in_area(h, a), j);
                }
            }
        },
    }
}

/// A house after a row of it: the row's area, if any, is added to it with the row's device.
pub open spec fn house_after_row(hv: HouseDevicesView, r: AccountDeviceRow) -> HouseDevicesView {
    match r.area {
        Some(a) => HouseDevicesView { areas_devices: add_area_columns(hv.areas_devices, a, r.device, r.parameter), ..hv },
        None => hv,
    }
}

proof fn lemma_house_unchanged(hv: HouseDevicesView, rows: Seq<AccountDeviceRow>, r: AccountDeviceRow)
    requires
        house_exact(hv, rows),
        r.house_id != hv.house_info.house_id,
    ensures
        house_exact(hv, rows.push(r)),
{
    let h = hv.house_info.house_id;
    let rs = rows.push(r);
    lemma_filter_push(rows, row_in_house(h), r);
    assert forall|k: int| 0 <= k < hv.areas_devices.len() implies area_exact(#[trigger] hv.areas_devices[k], rs, h) by {
        lemma_area_unchanged(hv.areas_devices[k], rows, r, h);
    }
    assert forall|j: int| 0 <= j < rs.len() && row_in_house(h)(#[trigger] rs[j]) && rs[j].area is Some implies
        exists|k: int| 0 <= k < hv.areas_devices.len() && #[trigger] hv.areas_devices[k].area_info.area_id == rs[j].area.unwrap().area_id by {
        assert(j < rows.len());
        assert(rs[j] == rows[j]);
    }
}

#[verifier::spinoff_prover]
proof fn lemma_house_step(hv: HouseDevicesView, rows: Seq<AccountDeviceRow>, r: AccountDeviceRow)
    requires
        house_exact(hv, rows),
        areas_distinct(hv.areas_devices),
        r.house_id == hv.house_info.house_id,
    ensures
        house_exact(house_after_row(hv, r), rows.push(r)),
{
    let h = hv.house_info.house_id;
    let rs = rows.push(r);
    let out = house_after_row(hv, r);
    lemma_filter_push(rows, row_in_house(h), r);
    assert(out.house_info == hv.house_info);
    match r.area {
        None => {
            assert forall|k: int| 0 <= k < out.areas_devices.len() implies area_exact(#[trigger] out.areas_devices[k], rs, h) by {
                lemma_area_unchanged(hv.areas_devices[k], rows, r, h);
            }
            assert forall|j: int| 0 <= j < rs.len() && row_in_house(h)(#[trigger] rs[j]) && rs[j].area is Some implies
                exists|k: int| 0 <= k < out.areas_devices.len() && #[trigger] out.areas_devices[k].area_info.area_id == rs[j].area.unwrap().area_id by {
                assert(j < rows.len());
                assert(rs[j] == rows[j]);
            }
        },
        Some(area) => {
            let areas = hv.areas_devices;
            lemma_first_index_bounds(areas, area_has_id(area.area_id));
            let k0 = first_index(areas, area_has_id(area.area_id));
            let areas1 = if k0 < areas.len() {
                areas
            } else {
                areas.push(AreaDevicesView { area_info: area, devices: seq![] })
            };
            let nas = add_area_columns(areas, area, r.device, r.parameter);
            assert(out.areas_devices == nas);
            assert(nas.len() == areas1.len());
            assert(nas[k0] == area_after_row(areas1[k0], r));
            if k0 == areas.len() {
                if rows.filter(row_in_area(h, area.area_id)).len() > 0 {
                    lemma_filter_nonempty(rows, row_in_area(h, area.area_id));
                    let j = choose|j: int| 0 <= j < rows.len() && row_in_area(h, area.area_id)(#[trigger] rows[j]);
                    assert(row_in_house(h)(rows[j]));
                    let k = choose|k: int| 0 <= k < areas.len() && #[trigger] areas[k].area_info.area_id == rows[j].area.unwrap().area_id;
                    assert(!area_has_id(area.area_id)(areas[k]));
                }
                lemma_area_fresh(rows, r, h, area);
            } else {
                lemma_area_step(areas[k0], rows, r, h);
            }
            assert forall|k: int| 0 <= k < nas.len() implies area_exact(#[trigger] nas[k], rs, h) by {
                if k != k0 {
                    assert(nas[k] == areas1[k]);
                    assert(k < areas.len());
                    if areas[k].area_info.area_id == area.area_id {
                        assert(k0 < areas.len());
                        assert(areas[k0].area_info.area_id == area.area_id);
                    }
                    lemma_area_unchanged(areas[k], rows, r, h);
                }
            }
            assert forall|j: int| 0 <= j < rs.len() && row_in_house(h)(#[trigger] rs[j]) && rs[j].area is Some implies
                exists|k: int| 0 <= k < nas.len() && #[trigger] nas[k].area_info.area_id == rs[j].area.unwrap().area_id by {
                if j < rows.len() {
                    assert(rs[j] == rows[j]);
                    let k = choose|k: int| 0 <= k < areas.len() && #[trigger] areas[k].area_info.area_id == rows[j].area.unwrap().area_id;
                    assert(nas[k].area_info.area_id == areas1[k].area_info.area_id);
                } else {
                    assert(rs[j] == r);
                    assert(nas[k0].area_info.area_id == area.area_id);
                }
            }
        },
    }
}

#[verifier::spinoff_prover]
proof fn lemma_house_fresh(rows: Seq<AccountDeviceRow>, r: AccountDeviceRow)
    requires
        rows.filter(row_in_house(r.house_id)).len() == 0,
    ensures
        house_exact(
            house_after_row(
                HouseDevicesView {
                    house_info: HouseInfo { house_id: r.house_id, house_name: r.house_name },
                    areas_devices: seq![],
                },
                r,
            ),
            rows.push(r),
        ),
{
    let h = r.house_id;
    let rs = rows.push(r);
    let empty = HouseDevicesView { house_info: HouseInfo { house_id: h, house_name: r.house_name }, areas_devices: seq![] };
    let out = house_after_row(empty, r);
    lemma_filter_push(rows, row_in_house(h), r);
    assert(rows.filter(row_in_house(h)) =~= Seq::<AccountDeviceRow>::empty());
    assert(rs.filter(row_in_house(h)) =~= seq![r]);
    match r.area {
        Some(area) => {
            lemma_first_index_bounds(Seq::<AreaDevicesView>::empty(), area_has_id(area.area_id));
            lemma_filter_empty_sub(rows, row_in_house(h), row_in_area(h, area.area_id));
            lemma_area_fresh(rows, r, h, area);
            let nas = add_area_columns(Seq::<AreaDevicesView>::empty(), area, r.device, r.parameter);
            assert(out.areas_devices == nas);
            assert(nas.len() == 1);
            assert(nas[0] == area_after_row(AreaDevicesView { area_info: area, devices: seq![] }, r));
            assert forall|j: int| 0 <= j < rs.len() && row_in_house(h)(#[trigger] rs[j]) && rs[j].area is Some implies
                exists|k: int| 0 <= k < nas.len() && #[trigger] nas[k].area_info.area_id == rs[j].area.unwrap().area_id by {
                if j < rows.len() {
                    assert(rs[j] == rows[j]);
                    rows.lemma_filter_contains(row_in_house(h), j);
                } else {
                    assert(rs[j] == r);
                    assert(nas[0].area_info.area_id == area.area_id);
                }
            }
        },
        None => {
            assert forall|j: int| 0 <= j < rs.len() && row_in_house(h)(#[trigger] rs[j]) && rs[j].area is Some implies
                exists|k: int| 0 <= k < out.areas_devices.len() && #[trigger] out.areas_devices[k].area_info.area_id == rs[j].area.unwrap().area_id by {
                if j < rows.len() {
                    assert(rs[j] == rows[j]);
                    rows.lemma_filter_contains(row_in_house(h), j);
                }
            }
        },
    }
}

#[verifier::spinoff_prover]
proof fn lemma_houses_exact_step(houses: Seq<HouseDevicesView>, rows: Seq<AccountDeviceRow>, r: AccountDeviceRow)
    requires
        houses_exact(houses, rows),
        houses_distinct(houses),
    ensures
        houses_exact(add_device_row(houses, r), rows.push(r)),
{
    let rs = rows.push(r);
    let out = add_device_row(houses, r);
    lemma_first_index_bounds(houses, house_has_id(r.house_id));
    let i0 = first_index(houses, house_has_id(r.house_id));
    let fresh = HouseDevicesView {
        house_info: HouseInfo { house_id: r.house_id, house_name: r.house_name },
        areas_devices: seq![],
    };
    let houses1 = if i0 < houses.len() { houses } else { houses.push(fresh) };
    assert(out.len() == houses1.len());
    assert(out[i0] == house_after_row(houses1[i0], r));
    if i0 == houses.len() {
        if rows.filter(row_in_house(r.house_id)).len() > 0 {
            lemma_filter_nonempty(rows, row_in_house(r.house_id));
            let j = choose|j: int| 0 <= j < rows.len() && row_in_house(r.house_id)(#[trigger] rows[j]);
            let i = choose|i: int| 0 <= i < houses.len() && #[trigger] houses[i].house_info.house_id == (#[trigger] rows[j]).house_id;
            assert(!house_has_id(r.house_id)(houses[i]));
        }
        lemma_house_fresh(rows, r);
    } else {
        lemma_house_step(houses[i0], rows, r);
    }
    assert forall|i: int| 0 <= i < out.len() implies house_exact(#[trigger] out[i], rs) by {
        if i != i0 {
            assert(out[i] == houses1[i]);
            assert(i < houses.len());
            if houses[i].house_info.house_id == r.house_id {
                assert(i0 < houses.len());
                assert(houses[i0].house_info.house_id == r.house_id);
            }
            lemma_house_unchanged(houses[i], rows, r);
        }
    }
    assert forall|j: int| 0 <= j < rs.len() implies
        exists|i: int| 0 <= i < out.len() && #[trigger] out[i].house_info.house_id == (#[trigger] rs[j]).house_id by {
        if j < rows.len() {
            assert(rs[j] == rows[j]);
            let i = choose|i: int| 0 <= i < houses.len() && #[trigger] houses[i].house_info.house_id == (#[trigger] rows[j]).house_id;
            assert(out[i].house_info.house_id == houses1[i].house_info.house_id);
        } else {
            assert(rs[j] == r);
            assert(out[i0].house_info.house_id == r.house_id);
        }
    }
}

/// Grouping the rows of `account_devices_view` lists exactly what they
/// describe: each house once, named by its first row; in it each area of its
/// rows once, as its first row gives it; in that each device of its rows
/// once, with the fields of its first row and, as services, the parameters
/// of all its rows in row order.
pub proof fn law_grouped_devices_exact(rows: Seq<AccountDeviceRow>)
    ensures
        houses_exact(group_device_rows(rows), rows),
    decreases rows.len(),
{
    if rows.len() > 0 {
        let pre = rows.drop_last();
        law_grouped_devices_exact(pre);
        law_grouped_devices_distinct_and_complete(pre);
        lemma_houses_exact_step(group_device_rows(pre), pre, rows.last());
        assert(pre.push(rows.last()) =~= rows);
        assert(group_device_rows(rows) == add_device_row(group_device_rows(pre), rows.last()));
    } else {
        assert(group_device_rows(rows) =~= Seq::<HouseDevicesView>::empty());
    }
}

} // verus!
