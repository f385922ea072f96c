//! The devices of an account as the device listing shows them: by house,
//! then by area name.
use crate::dto::entity::simple::DeviceType;
use crate::search::{first_index, lemma_filter_nonempty, lemma_filter_push, lemma_first_index, lemma_first_index_bounds};
use vstd::prelude::*;

verus! {

/// A request to add a device to an area.
pub struct AddDevice {
    pub device_name: String,
    pub area_id: i32,
    pub type_id: i32,
    pub efuse_mac: String,
    pub chip_model: String,
}

/// A device as the listing shows it.
pub struct Device {
    pub device_id: i32,
    pub device_name: String,
    pub efuse_mac: String,
    pub chip_model: String,
    pub device_type: DeviceType,
}

/// An area of the listing with its devices.
pub struct AreaDevices {
    pub area_id: i32,
    pub area_name: String,
    pub devices: Vec<Device>,
}

/// A house of the listing with its areas.
pub struct HouseDevices {
    pub house_id: i32,
    pub house_name: String,
    pub areas_devices: Vec<AreaDevices>,
}

/// A house by its id and name.
pub struct House {
    pub house_id: i32,
    pub house_name: String,
}

/// The device listing of an account: its houses, in the order the rows first name them.
pub struct ShowDevices {
    pub houses_devices: Vec<HouseDevices>,
}

/// A row of the device listing query: a device with its type, its area and its house.
pub struct ShowDeviceRow {
    pub house_id: i32,
    pub house_name: String,
    pub area_id: i32,
    pub area_name: String,
    pub device_id: i32,
    pub device_name: String,
    pub efuse_mac: String,
    pub chip_model: String,
    pub type_id: i32,
    pub type_label: String,
}

/// What an `AreaDevices` holds, its devices as a sequence.
pub struct AreaListing {
    pub area_id: i32,
    pub area_name: String,
    pub devices: Seq<Device>,
}

/// What a `HouseDevices` holds, its areas taken by their views.
pub struct HouseListing {
    pub house_id: i32,
    pub house_name: String,
    pub areas: Seq<AreaListing>,
}

impl View for AreaDevices {
    type V = AreaListing;

    open spec fn view(&self) -> AreaListing {
        AreaListing { area_id: self.area_id, area_name: self.area_name, devices: self.devices@ }
    }
}

impl View for HouseDevices {
    type V = HouseListing;

    open spec fn view(&self) -> HouseListing {
        HouseListing {
            house_id: self.house_id,
            house_name: self.house_name,
            areas: self.areas_devices@.map_values(|a: AreaDevices| a@),
        }
    }
}

/// The houses of a listing taken by their views.
pub open spec fn listing_view(v: Seq<HouseDevices>) -> Seq<HouseListing> {
    v.map_values(|h: HouseDevices| h@)
}

/// The areas of a listing taken by their views.
pub open spec fn listing_areas_view(v: Seq<AreaDevices>) -> Seq<AreaListing> {
    v.map_values(|a: AreaDevices| a@)
}

/// Whether a listed house has the given id.
pub open spec fn listing_house_has_id(id: i32) -> spec_fn(HouseListing) -> bool {
    |h: HouseListing| h.house_id == id
}

/// Whether a listed area has the given name.
pub open spec fn listing_area_has_name(name: Seq<char>) -> spec_fn(AreaListing) -> bool {
    |a: AreaListing| a.area_name@ == name
}

/// The device that a listing row describes.
pub open spec fn row_device(r: ShowDeviceRow) -> Device {
    Device {
        device_id: r.device_id,
        device_name: r.device_name,
        efuse_mac: r.efuse_mac,
        chip_model: r.chip_model,
        device_type: DeviceType { type_id: r.type_id, type_label: r.type_label },
    }
}

/// A row added to the listing: its device joins the area of its house that
/// has the row's area name; a new area, or a new house, is appended with the
/// device when there is none.
pub open spec fn add_listing_row(houses: Seq<HouseListing>, r: ShowDeviceRow) -> Seq<HouseListing> {
    let i = first_index(houses, listing_house_has_id(r.house_id));
    let fresh_area = AreaListing { area_id: r.area_id, area_name: r.area_name, devices: seq![row_device(r)] };
    if i < houses.len() {
        let areas = houses[i].areas;
        let k = first_index(areas, listing_area_has_name(r.area_name@));
        let areas2 = if k < areas.len() {
            areas.update(k, AreaListing { devices: areas[k].devices.push(row_device(r)), ..areas[k] })
        } else {
            areas.push(fresh_area)
        };
        houses.update(i, HouseListing { areas: areas2, ..houses[i] })
    } else {
        houses.push(HouseListing { house_id: r.house_id, house_name: r.house_name, areas: seq![fresh_area] })
    }
}

/// The listing that the rows build, taken one after another from an empty one.
pub open spec fn group_listing_rows(rows: Seq<ShowDeviceRow>) -> Seq<HouseListing> {
    rows.fold_left(Seq::<HouseListing>::empty(), |acc: Seq<HouseListing>, r: ShowDeviceRow| add_listing_row(acc, r))
}

fn add_to_areas(areas: &mut Vec<AreaDevices>, area_id: i32, area_name: String, device: Device)
    ensures
        ({
            let old_v = listing_areas_view(old(areas)@);
            let k = first_index(old_v, listing_area_has_name(area_name@));
            listing_areas_view(final(areas)@) == if k < old_v.len() {
                old_v.update(k, AreaListing { devices: old_v[k].devices.push(device), ..old_v[k] })
            } else {
                old_v.push(AreaListing { area_id, area_name, devices: seq![device] })
            }
        }),
{
    let ghost old_v = listing_areas_view(areas@);
    let n = areas.len();
    let mut k: usize = 0;
    while k < n && areas[k].area_name != area_name
        invariant
            0 <= k <= n,
            n == areas.len(),
            old_v == listing_areas_view(areas@),
            forall|j: int| 0 <= j < k ==> !listing_area_has_name(area_name@)(#[trigger] old_v[j]),
        decreases n - k,
    {
        k = k + 1;
    }
    proof {
        lemma_first_index(old_v, listing_area_has_name(area_name@), k as int);
    }
    let ghost dev = device;
    let ghost name = area_name;
    if k < n {
        let mut a = areas.remove(k);
        a.devices.push(device);
        areas.insert(k, a);
        proof {
            assert(listing_areas_view(areas@) =~= old_v.update(k as int, AreaListing { devices: old_v[k as int].devices.push(dev), ..old_v[k as int] }));
        }
    } else {
        let mut devices = Vec::new();
        devices.push(device);
        areas.push(AreaDevices { area_id, area_name, devices });
        proof {
            assert(listing_areas_view(areas@) =~= old_v.push(AreaListing { area_id, area_name: name, devices: seq![dev] }));
        }
    }
}

fn add_row_to_listing(houses: &mut Vec<HouseDevices>, row: ShowDeviceRow)
    ensures
        listing_view(final(houses)@) == add_listing_row(listing_view(old(houses)@), row),
{
    let ghost old_v = listing_view(houses@);
    let ghost r = row;
    let ShowDeviceRow { house_id, house_name, area_id, area_name, device_id, device_name, efuse_mac, chip_model, type_id, type_label } = row;
    let device = Device { device_id, device_name, efuse_mac, chip_model, device_type: DeviceType { type_id, type_label } };
    let n = houses.len();
    let mut i: usize = 0;
    while i < n && houses[i].house_id != house_id
        invariant
            0 <= i <= n,
            n == houses.len(),
            old_v == listing_view(houses@),
            forall|j: int| 0 <= j < i ==> !listing_house_has_id(house_id)(#[trigger] old_v[j]),
        decreases n - i,
    {
        i = i + 1;
    }
    proof {
        lemma_first_index(old_v, listing_house_has_id(house_id), i as int);
    }
    if i < n {
        let mut h = houses.remove(i);
        add_to_areas(&mut h.areas_devices, area_id, area_name, device);
        houses.insert(i, h);
        proof {
            assert(listing_view(houses@) =~= add_listing_row(old_v, r));
        }
    } else {
        let mut devices = Vec::new();
        devices.push(device);
        let mut areas = Vec::new();
        areas.push(AreaDevices { area_id, area_name, devices });
        houses.push(HouseDevices { house_id, house_name, areas_devices: areas });
        proof {
            let fresh_area = AreaListing { area_id: r.area_id, area_name: r.area_name, devices: seq![row_device(r)] };
            assert(listing_areas_view(areas@) =~= seq![fresh_area]);
            assert(listing_view(houses@) =~= add_listing_row(old_v, r));
        }
    }
}

/// The device listing of an account, grouped from the rows of its query:
/// houses in the order the rows first name them, and within a house the
/// areas by name, each with its devices in row order.
pub fn group_show_devices(rows: Vec<ShowDeviceRow>) -> (r: ShowDevices)
    ensures
        listing_view(r.houses_devices@) == group_listing_rows(rows@),
{
    let ghost all = rows@;
    let mut houses: Vec<HouseDevices> = Vec::new();
    let mut rest = rows;
    let ghost mut done: int = 0;
    proof {
        assert(listing_view(houses@) =~= all.take(0).fold_left(Seq::<HouseListing>::empty(), |acc: Seq<HouseListing>, r: ShowDeviceRow| add_listing_row(acc, r)));
    }
    while rest.len() > 0
        invariant
            0 <= done <= all.len(),
            rest@ == all.skip(done),
            listing_view(houses@) == all.take(done).fold_left(Seq::<HouseListing>::empty(), |acc: Seq<HouseListing>, r: ShowDeviceRow| add_listing_row(acc, r)),
        decreases rest.len(),
    {
        let row = rest.remove(0);
        proof {
            assert(row == all[done]);
            assert(all.take(done + 1).drop_last() =~= all.take(done));
        }
        add_row_to_listing(&mut houses, row);
        proof {
            done = done + 1;
        }
    }
    proof {
        assert(all.take(done) =~= all);
    }
    ShowDevices { houses_devices: houses }
}

/// The number of devices listed over the areas.
pub open spec fn area_device_count(areas: Seq<AreaListing>) -> int
    decreases areas.len(),
{
    if areas.len() == 0 { 0 } else { area_device_count(areas.drop_last()) + areas.last().devices.len() }
}

/// The number of devices listed over the houses.
pub open spec fn listed_device_count(houses: Seq<HouseListing>) -> int
    decreases houses.len(),
{
    if houses.len() == 0 { 0 } else { listed_device_count(houses.drop_last()) + area_device_count(houses.last().areas) }
}

proof fn lemma_area_count_update(areas: Seq<AreaListing>, k: int, a: AreaListing)
    requires
        0 <= k < areas.len(),
    ensures
        area_device_count(areas.update(k, a)) == area_device_count(areas) - areas[k].devices.len() + a.devices.len(),
    decreases areas.len(),
{
    if k < areas.len() - 1 {
        assert(areas.update(k, a).drop_last() =~= areas.drop_last().update(k, a));
        lemma_area_count_update(areas.drop_last(), k, a);
    } else {
        assert(areas.update(k, a).drop_last() =~= areas.drop_last());
    }
}

proof fn lemma_house_count_update(houses: Seq<HouseListing>, i: int, h: HouseListing)
    requires
        0 <= i < houses.len(),
    ensures
        listed_device_count(houses.update(i, h)) == listed_device_count(houses) - area_device_count(houses[i].areas) + area_device_count(h.areas),
    decreases houses.len(),
{
    if i < houses.len() - 1 {
        assert(houses.update(i, h).drop_last() =~= houses.drop_last().update(i, h));
        lemma_house_count_update(houses.drop_last(), i, h);
    } else {
        assert(houses.update(i, h).drop_last() =~= houses.drop_last());
    }
}

/// No two houses share an id, and within a house no two areas share a name.
pub open spec fn listing_distinct(houses: Seq<HouseListing>) -> bool {
    &&& forall|i: int, j: int| 0 <= i < j < houses.len() ==> #[trigger] houses[i].house_id != #[trigger] houses[j].house_id
    &&& forall|i: int, k: int, l: int| 0 <= i < houses.len() && 0 <= k < l < houses[i].areas.len() ==>
        #[trigger] houses[i].areas[k].area_name@ != #[trigger] houses[i].areas[l].area_name@
}

proof fn lemma_add_listing_row(houses: Seq<HouseListing>, r: ShowDeviceRow)
    requires
        listing_distinct(houses),
    ensures
        listing_distinct(add_listing_row(houses, r)),
        listed_device_count(add_listing_row(houses, r)) == listed_device_count(houses) + 1,
{
    lemma_first_index_bounds(houses, listing_house_has_id(r.house_id));
    let i = first_index(houses, listing_house_has_id(r.house_id));
    let fresh_area = AreaListing { area_id: r.area_id, area_name: r.area_name, devices: seq![row_device(r)] };
    let out = add_listing_row(houses, r);
    if i < houses.len() {
        let areas = houses[i].areas;
        lemma_first_index_bounds(areas, listing_area_has_name(r.area_name@));
        let k = first_index(areas, listing_area_has_name(r.area_name@));
        let areas2 = if k < areas.len() {
            areas.update(k, AreaListing { devices: areas[k].devices.push(row_device(r)), ..areas[k] })
        } else {
            areas.push(fresh_area)
        };
        if k < areas.len() {
            lemma_area_count_update(areas, k, areas2[k]);
        } else {
            assert(areas2.drop_last() =~= areas);
            assert forall|a: int, b: int| 0 <= a < b < areas2.len() implies
                #[trigger] areas2[a].area_name@ != #[trigger] areas2[b].area_name@ by {
                if b == areas.len() {
                    assert(!listing_area_has_name(r.area_name@)(areas[a]));
                }
            }
        }
        lemma_house_count_update(houses, i, out[i]);
        assert(out == houses.update(i, out[i]));
        assert forall|h: int, a: int, b: int| 0 <= h < out.len() && 0 <= a < b < out[h].areas.len() implies
            #[trigger] out[h].areas[a].area_name@ != #[trigger] out[h].areas[b].area_name@ by {
            if h != i {
                assert(out[h] == houses[h]);
            }
        }
    } else {
        assert(out.drop_last() =~= houses);
        let one = seq![fresh_area];
        assert(one.drop_last() =~= Seq::<AreaListing>::empty());
        assert(area_device_count(one.drop_last()) == 0);
        assert(one.last().devices.len() == 1);
        assert(area_device_count(one) == 1);
        assert(out.last().areas == one);
        assert forall|a: int, b: int| 0 <= a < b < out.len() implies #[trigger] out[a].house_id != #[trigger] out[b].house_id by {
            if b == houses.len() {
                assert(!listing_house_has_id(r.house_id)(houses[a]));
            }
        }
        assert forall|h: int, a: int, b: int| 0 <= h < out.len() && 0 <= a < b < out[h].areas.len() implies
            #[trigger] out[h].areas[a].area_name@ != #[trigger] out[h].areas[b].area_name@ by {
            if h < houses.len() {
                assert(out[h] == houses[h]);
            }
        }
    }
}

/// The device listing lists no house twice and no area name twice within a
/// house, and it lists exactly one device per row: none is lost, none repeated.
pub proof fn law_listing_distinct_and_counted(rows: Seq<ShowDeviceRow>)
    ensures
        listing_distinct(group_listing_rows(rows)),
        listed_device_count(group_listing_rows(rows)) == rows.len(),
    decreases rows.len(),
{
    if rows.len() > 0 {
        law_listing_distinct_and_counted(rows.drop_last());
        assert(group_listing_rows(rows) == add_listing_row(group_listing_rows(rows.drop_last()), rows.last()));
        lemma_add_listing_row(group_listing_rows(rows.drop_last()), rows.last());
    }
}

/// Whether a row belongs to the house with the given id.
pub open spec fn in_listing_house(id: i32) -> spec_fn(ShowDeviceRow) -> bool {
    |r: ShowDeviceRow| r.house_id == id
}

/// Whether a row belongs to the given house and to an area of the given name.
pub open spec fn in_listing_area(id: i32, name: Seq<char>) -> spec_fn(ShowDeviceRow) -> bool {
    |r: ShowDeviceRow| r.house_id == id && r.area_name@ == name
}

/// The devices of the rows of a house and an area name, in row order.
pub open spec fn area_devices_of(rows: Seq<ShowDeviceRow>, id: i32, name: Seq<char>) -> Seq<Device> {
    rows.filter(in_listing_area(id, name)).map_values(|r: ShowDeviceRow| row_device(r))
}

/// A listed area of house `id` is the one its rows describe: its id and name
/// from its first row, its devices those of all its rows in order.
pub open spec fn area_exact(a: AreaListing, rows: Seq<ShowDeviceRow>, id: i32) -> bool {
    let f = rows.filter(in_listing_area(id, a.area_name@));
    &&& f.len() > 0
    &&& a.area_id == f[0].area_id
    &&& a.area_name == f[0].area_name
    &&& a.devices == area_devices_of(rows, id, a.area_name@)
}

/// The listing holds exactly what the rows describe: sound and complete.
pub open spec fn listing_exact(houses: Seq<HouseListing>, rows: Seq<ShowDeviceRow>) -> bool {
    listing_sound(houses, rows) && listing_complete(houses, rows)
}

/// Every house and area listed is named by rows, as `listing_exact` says.
pub open spec fn listing_sound(houses: Seq<HouseListing>, rows: Seq<ShowDeviceRow>) -> bool {
    forall|i: int| 0 <= i < houses.len() ==> {
        let id = (#[trigger] houses[i]).house_id;
        &&& rows.filter(in_listing_house(id)).len() > 0
        &&& houses[i].house_name == rows.filter(in_listing_house(id))[0].house_name
        &&& forall|k: int| 0 <= k < houses[i].areas.len() ==> area_exact(#[trigger] houses[i].areas[k], rows, id)
    }
}

/// The house of the row is listed, and within it an area with the row's area name.
pub open spec fn row_in_listing(houses: Seq<HouseListing>, row: ShowDeviceRow) -> bool {
    exists|i: int, k: int| #![trigger houses[i].areas[k]] {
        &&& 0 <= i < houses.len()
        &&& 0 <= k < houses[i].areas.len()
        &&& houses[i].house_id == row.house_id
        &&& houses[i].areas[k].area_name@ == row.area_name@
    }
}

/// The house and the area name of every row are listed.
pub open spec fn listing_complete(houses: Seq<HouseListing>, rows: Seq<ShowDeviceRow>) -> bool {
    forall|j: int| 0 <= j < rows.len() ==> row_in_listing(houses, #[trigger] rows[j])
}

proof fn lemma_area_unchanged(a: AreaListing, rows: Seq<ShowDeviceRow>, r: ShowDeviceRow, id: i32)
    requires
        area_exact(a, rows, id),
        !(r.house_id == id && r.area_name@ == a.area_name@),
    ensures
        area_exact(a, rows.push(r), id),
{
    lemma_filter_push(rows, in_listing_area(id, a.area_name@), r);
}

proof fn lemma_area_grows(a: AreaListing, rows: Seq<ShowDeviceRow>, r: ShowDeviceRow, id: i32)
    requires
        area_exact(a, rows, id),
        r.house_id == id,
        r.area_name@ == a.area_name@,
    ensures
        area_exact(AreaListing { devices: a.devices.push(row_device(r)), ..a }, rows.push(r), id),
{
    lemma_filter_push(rows, in_listing_area(id, a.area_name@), r);
    assert(area_devices_of(rows.push(r), id, a.area_name@) =~= area_devices_of(rows, id, a.area_name@).push(row_device(r)));
}

proof fn lemma_area_fresh(rows: Seq<ShowDeviceRow>, r: ShowDeviceRow)
    requires
        rows.filter(in_listing_area(r.house_id, r.area_name@)).len() == 0,
    ensures
        area_exact(AreaListing { area_id: r.area_id, area_name: r.area_name, devices: seq![row_device(r)] }, rows.push(r), r.house_id),
{
    lemma_filter_push(rows, in_listing_area(r.house_id, r.area_name@), r);
    assert(rows.filter(in_listing_area(r.house_id, r.area_name@)) =~= Seq::<ShowDeviceRow>::empty());
    assert(rows.push(r).filter(in_listing_area(r.house_id, r.area_name@)) =~= seq![r]);
    assert(area_devices_of(rows.push(r), r.house_id, r.area_name@) =~= seq![row_device(r)]);
}

proof fn lemma_no_earlier_row(houses: Seq<HouseListing>, rows: Seq<ShowDeviceRow>, p: spec_fn(ShowDeviceRow) -> bool)
    requires
        listing_exact(houses, rows),
        forall|j: int, i: int, k: int| 0 <= j < rows.len() && 0 <= i < houses.len() && 0 <= k < houses[i].areas.len()
            && #[trigger] p(rows[j]) && houses[i].house_id == rows[j].house_id
            && #[trigger] houses[i].areas[k].area_name@ == rows[j].area_name@ ==> false,
    ensures
        rows.filter(p).len() == 0,
{
    if rows.filter(p).len() > 0 {
        lemma_filter_nonempty(rows, p);
        let j = choose|j: int| 0 <= j < rows.len() && p(#[trigger] rows[j]);
        assert(row_in_listing(houses, rows[j]));
        let (i, k) = choose|i: int, k: int| #![trigger houses[i].areas[k]] {
            &&& 0 <= i < houses.len()
            &&& 0 <= k < houses[i].areas.len()
            &&& houses[i].house_id == rows[j].house_id
            &&& houses[i].areas[k].area_name@ == rows[j].area_name@
        };
        assert(p(rows[j]) && houses[i].house_id == rows[j].house_id && houses[i].areas[k].area_name@ == rows[j].area_name@);
    }
}

#[verifier::spinoff_prover]
#[verifier::rlimit(50)]
proof fn lemma_listing_exact_step(rows: Seq<ShowDeviceRow>, r: ShowDeviceRow)
    requires
        listing_exact(group_listing_rows(rows), rows),
        listing_distinct(group_listing_rows(rows)),
    ensures
        listing_exact(add_listing_row(group_listing_rows(rows), r), rows.push(r)),
{
    let g = group_listing_rows(rows);
    let out = add_listing_row(g, r);
    let rs = rows.push(r);
    lemma_first_index_bounds(g, listing_house_has_id(r.house_id));
    let i0 = first_index(g, listing_house_has_id(r.house_id));
    let fresh_area = AreaListing { area_id: r.area_id, area_name: r.area_name, devices: seq![row_device(r)] };
    if i0 < g.len() {
        let areas = g[i0].areas;
        lemma_first_index_bounds(areas, listing_area_has_name(r.area_name@));
        let k0 = first_index(areas, listing_area_has_name(r.area_name@));
        if k0 == areas.len() {
            lemma_no_earlier_row(g, rows, in_listing_area(r.house_id, r.area_name@));
            lemma_area_fresh(rows, r);
        }
    } else {
        lemma_no_earlier_row(g, rows, in_listing_area(r.house_id, r.area_name@));
        lemma_area_fresh(rows, r);
        lemma_no_earlier_row(g, rows, in_listing_house(r.house_id));
    }
    assert forall|i: int| 0 <= i < out.len() implies {
        let id = (#[trigger] out[i]).house_id;
        &&& rs.filter(in_listing_house(id)).len() > 0
        &&& out[i].house_name == rs.filter(in_listing_house(id))[0].house_name
        &&& forall|k: int| 0 <= k < out[i].areas.len() ==> area_exact(#[trigger] out[i].areas[k], rs, id)
    } by {
        let id = out[i].house_id;
        lemma_filter_push(rows, in_listing_house(id), r);
        if i < g.len() {
            assert(out[i].house_id == g[i].house_id && out[i].house_name == g[i].house_name);
            if i == i0 {
                let areas = g[i0].areas;
                let k0 = first_index(areas, listing_area_has_name(r.area_name@));
                assert forall|k: int| 0 <= k < out[i].areas.len() implies area_exact(#[trigger] out[i].areas[k], rs, id) by {
                    if k < areas.len() {
                        assert(area_exact(areas[k], rows, id));
                        if k == k0 {
                            lemma_area_grows(areas[k], rows, r, id);
                        } else {
                            if r.area_name@ == areas[k].area_name@ {
                                assert(k0 < areas.len());
                                assert(areas[k0].area_name@ == r.area_name@);
                            }
                            lemma_area_unchanged(areas[k], rows, r, id);
                            assert(out[i].areas[k] == areas[k]);
                        }
                    } else {
                        assert(out[i].areas[k] == fresh_area);
                    }
                }
            } else {
                assert(out[i] == g[i]);
                if id == r.house_id {
                    assert(g[i0].house_id == r.house_id);
                }
                assert forall|k: int| 0 <= k < out[i].areas.len() implies area_exact(#[trigger] out[i].areas[k], rs, id) by {
                    assert(area_exact(g[i].areas[k], rows, id));
                    lemma_area_unchanged(g[i].areas[k], rows, r, id);
                }
            }
        } else {
            assert(i == g.len() && i0 == g.len());
            assert(out[i].areas == seq![fresh_area]);
            assert(rows.filter(in_listing_house(id)) =~= Seq::<ShowDeviceRow>::empty());
            assert(rs.filter(in_listing_house(id)) =~= seq![r]);
            assert forall|k: int| 0 <= k < out[i].areas.len() implies area_exact(#[trigger] out[i].areas[k], rs, id) by {
                assert(out[i].areas[k] == fresh_area);
            }
        }
    }
    assert forall|j: int| 0 <= j < rs.len() implies row_in_listing(out, #[trigger] rs[j]) by {
        if j < rows.len() {
            assert(rs[j] == rows[j]);
            assert(row_in_listing(g, rows[j]));
            let (i, k) = choose|i: int, k: int| #![trigger g[i].areas[k]] {
                &&& 0 <= i < g.len()
                &&& 0 <= k < g[i].areas.len()
                &&& g[i].house_id == rows[j].house_id
                &&& g[i].areas[k].area_name@ == rows[j].area_name@
            };
            assert(out[i].house_id == g[i].house_id);
            assert(out[i].areas[k].area_name == g[i].areas[k].area_name);
        } else {
            assert(rs[j] == r);
            if i0 < g.len() {
                let areas = g[i0].areas;
                let k0 = first_index(areas, listing_area_has_name(r.area_name@));
                assert(out[i0].areas[k0].area_name@ == r.area_name@);
                assert(out[i0].house_id == r.house_id);
            } else {
                assert(out[i0].areas[0].area_name@ == r.area_name@);
                assert(out[i0].house_id == r.house_id);
            }
        }
    }
    assert(listing_sound(out, rs));
    assert(listing_complete(out, rs));
}

/// The device listing lists exactly the houses of the rows, each named by
/// its first row; within a house, exactly the area names of its rows, each
/// with the id and name of its first row and with the devices of all its
/// rows, in row order.
pub proof fn law_listing_exact(rows: Seq<ShowDeviceRow>)
    ensures
        listing_exact(group_listing_rows(rows), rows),
    decreases rows.len(),
{
    if rows.len() > 0 {
        let pre = rows.drop_last();
        law_listing_exact(pre);
        law_listing_distinct_and_counted(pre);
        lemma_listing_exact_step(pre, rows.last());
        assert(pre.push(rows.last()) =~= rows);
        assert(group_listing_rows(rows) == add_listing_row(group_listing_rows(pre), rows.last()));
    } else {
        assert(group_listing_rows(rows) =~= Seq::<HouseListing>::empty());
    }
}

} // verus!
