//! What the server remembers of the database: which MAC belongs to which
//! device, and which accounts see which devices.
use crate::db::data::device::{areas_view, devices_view, houses_view};
use crate::dto::entity::simple::{DeviceInfo, DeviceInfoView};
use crate::dto::http::response::{AccountDevices, AreaDevices, AreaDevicesView, HouseDevices, HouseDevicesView};
use std::collections::{HashMap, HashSet};
use vstd::hash_map::StringHashMap;
use vstd::prelude::*;

verus! {

broadcast use vstd::std_specs::hash::group_hash_axioms;

/// The cache in front of the database.
pub struct Cache {
    device_mac2id: StringHashMap<i32>,
    device_id2mac: HashMap<i32, String>,
    account_id2device_ids: HashMap<i32, HashSet<i32>>,
    device_id2account_ids: HashMap<i32, HashSet<i32>>,
}

/// What the cache holds: device ids by MAC, MACs by device id, the devices
/// of each account and the accounts of each device.
pub struct CacheView {
    pub mac_ids: Map<Seq<char>, i32>,
    pub id_macs: Map<i32, Seq<char>>,
    pub account_devices: Map<i32, Set<i32>>,
    pub device_accounts: Map<i32, Set<i32>>,
}

impl View for Cache {
    type V = CacheView;

    closed spec fn view(&self) -> CacheView {
        CacheView {
            mac_ids: self.device_mac2id@,
            id_macs: self.device_id2mac@.map_values(|s: String| s@),
            account_devices: self.account_id2device_ids@.map_values(|s: HashSet<i32>| s@),
            device_accounts: self.device_id2account_ids@.map_values(|s: HashSet<i32>| s@),
        }
    }
}

/// The ids in the set of `key`, empty when `key` has none.
pub open spec fn ids_of(m: Map<i32, Set<i32>>, key: i32) -> Set<i32> {
    if m.contains_key(key) { m[key] } else { Set::empty() }
}

/// The cache after it learns that `mac` is the MAC of device `id`.
pub open spec fn remember_device(c: CacheView, mac: Seq<char>, id: i32) -> CacheView {
    CacheView { mac_ids: c.mac_ids.insert(mac, id), id_macs: c.id_macs.insert(id, mac), ..c }
}

/// The cache after it learns that account `account_id` sees device `d`: the
/// MAC of `d` names it, the account lists it and it lists the account.
pub open spec fn record_device(c: CacheView, account_id: i32, d: DeviceInfoView) -> CacheView {
    CacheView {
        mac_ids: c.mac_ids.insert(d.efuse_mac@, d.device_id),
        account_devices: c.account_devices.insert(account_id, ids_of(c.account_devices, account_id).insert(d.device_id)),
        device_accounts: c.device_accounts.insert(d.device_id, ids_of(c.device_accounts, d.device_id).insert(account_id)),
        ..c
    }
}

/// The cache after it learns each device of `ds`, in order, as the account's.
pub open spec fn record_devices(c: CacheView, account_id: i32, ds: Seq<DeviceInfoView>) -> CacheView {
    ds.fold_left(c, |c: CacheView, d: DeviceInfoView| record_device(c, account_id, d))
}

/// The cache after it learns every device of every area, in order, as the account's.
pub open spec fn record_areas(c: CacheView, account_id: i32, areas: Seq<AreaDevicesView>) -> CacheView {
    areas.fold_left(c, |c: CacheView, a: AreaDevicesView| record_devices(c, account_id, a.devices))
}

/// The cache after it learns every device of every area of every house of
/// an account, in order.
pub open spec fn record_houses(c: CacheView, account_id: i32, houses: Seq<HouseDevicesView>) -> CacheView {
    houses.fold_left(c, |c: CacheView, h: HouseDevicesView| record_areas(c, account_id, h.areas_devices))
}

/// Calls the `Clone` of `std::collections::HashSet`, whose documentation
/// describes it as a copy of the set: the same elements.
#[verifier::external_body]
fn copy_id_set(s: &HashSet<i32>) -> (r: HashSet<i32>)
    ensures
        r@ == s@,
{
    s.clone()
}

impl Cache {
    /// An empty cache.
    pub fn new() -> (c: Cache)
        ensures
            c@.mac_ids == Map::<Seq<char>, i32>::empty(),
            c@.id_macs == Map::<i32, Seq<char>>::empty(),
            c@.account_devices == Map::<i32, Set<i32>>::empty(),
            c@.device_accounts == Map::<i32, Set<i32>>::empty(),
    {
        let c = Cache {
            device_mac2id: StringHashMap::new(),
            device_id2mac: HashMap::new(),
            account_id2device_ids: HashMap::new(),
            device_id2account_ids: HashMap::new(),
        };
        proof {
            assert(c@.id_macs =~= Map::<i32, Seq<char>>::empty());
            assert(c@.account_devices =~= Map::<i32, Set<i32>>::empty());
            assert(c@.device_accounts =~= Map::<i32, Set<i32>>::empty());
        }
        c
    }

    /// The id of the device with this MAC, if the cache knows it.
    pub fn cached_device_id(&self, mac: &str) -> (r: Option<i32>)
        ensures
            r == (if self@.mac_ids.contains_key(mac@) { Some(self@.mac_ids[mac@]) } else { None::<i32> }),
    {
        match self.device_mac2id.get(mac) {
            Some(id) => Some(*id),
            None => None,
        }
    }

    /// The MAC of the device with this id, if the cache knows it.
    pub fn cached_device_mac(&self, device_id: i32) -> (r: Option<String>)
        ensures
            match r {
                Some(m) => self@.id_macs.contains_key(device_id) && m@ == self@.id_macs[device_id],
                None => !self@.id_macs.contains_key(device_id),
            },
    {
        match self.device_id2mac.get(&device_id) {
            Some(mac) => Some(mac.clone()),
            None => None,
        }
    }

    /// Records that `mac` is the MAC of device `device_id`, both ways.
    pub fn remember_device(&mut self, mac: String, device_id: i32)
        ensures
            final(self)@ == remember_device(old(self)@, mac@, device_id),
    {
        let ghost m = mac@;
        self.device_mac2id.insert(mac.clone(), device_id);
        self.device_id2mac.insert(device_id, mac);
        proof {
            assert(self@.id_macs =~= old(self)@.id_macs.insert(device_id, m));
        }
    }

    /// The accounts that see the device, if the cache knows them.
    pub fn cached_account_ids(&self, device_id: i32) -> (r: Option<HashSet<i32>>)
        ensures
            match r {
                Some(s) => self@.device_accounts.contains_key(device_id) && s@ == self@.device_accounts[device_id],
                None => !self@.device_accounts.contains_key(device_id),
            },
    {
        match self.device_id2account_ids.get(&device_id) {
            Some(s) => Some(copy_id_set(s)),
            None => None,
        }
    }

    /// Records the accounts that see the device, replacing what was known.
    pub fn remember_account_ids(&mut self, device_id: i32, account_ids: HashSet<i32>)
        ensures
            final(self)@ == (CacheView {
                device_accounts: old(self)@.device_accounts.insert(device_id, account_ids@),
                ..old(self)@
            }),
    {
        let ghost s = account_ids@;
        self.device_id2account_ids.insert(device_id, account_ids);
        proof {
            assert(self@.device_accounts =~= old(self)@.device_accounts.insert(device_id, s));
        }
    }

    fn link(m: &mut HashMap<i32, HashSet<i32>>, key: i32, value: i32)
        ensures
            final(m)@.map_values(|s: HashSet<i32>| s@) == old(m)@.map_values(|s: HashSet<i32>| s@).insert(
                key,
                ids_of(old(m)@.map_values(|s: HashSet<i32>| s@), key).insert(value),
            ),
    {
        let ghost before = m@.map_values(|s: HashSet<i32>| s@);
        let mut set = match m.remove(&key) {
            Some(s) => s,
            None => HashSet::new(),
        };
        proof {
            assert(set@ == ids_of(before, key));
        }
        set.insert(value);
        m.insert(key, set);
        proof {
            assert(m@.map_values(|s: HashSet<i32>| s@) =~= before.insert(key, ids_of(before, key).insert(value)));
        }
    }

    fn record_one(&mut self, account_id: i32, d: &DeviceInfo)
        ensures
            final(self)@ == record_device(old(self)@, account_id, d@),
    {
        self.device_mac2id.insert(d.efuse_mac.clone(), d.device_id);
        Self::link(&mut self.account_id2device_ids, account_id, d.device_id);
        Self::link(&mut self.device_id2account_ids, d.device_id, account_id);
    }

    fn record_device_list(&mut self, account_id: i32, ds: &Vec<DeviceInfo>)
        ensures
            final(self)@ == record_devices(old(self)@, account_id, devices_view(ds@)),
    {
        let ghost dv = devices_view(ds@);
        let ghost start = self@;
        let mut i: usize = 0;
        while i < ds.len()
            invariant
                0 <= i <= ds.len(),
                dv == devices_view(ds@),
                start == old(self)@,
                self@ == record_devices(start, account_id, dv.take(i as int)),
            decreases ds.len() - i,
        {
            proof {
                assert(dv.take(i as int + 1).drop_last() =~= dv.take(i as int));
            }
            self.record_one(account_id, &ds[i]);
            i = i + 1;
        }
        proof {
            assert(dv.take(i as int) =~= dv);
        }
    }

    fn record_area_list(&mut self, account_id: i32, areas: &Vec<AreaDevices>)
        ensures
            final(self)@ == record_areas(old(self)@, account_id, areas_view(areas@)),
    {
        let ghost av = areas_view(areas@);
        let ghost start = self@;
        let mut i: usize = 0;
        while i < areas.len()
            invariant
                0 <= i <= areas.len(),
                av == areas_view(areas@),
                start == old(self)@,
                self@ == record_areas(start, account_id, av.take(i as int)),
            decreases areas.len() - i,
        {
            proof {
                assert(av.take(i as int + 1).drop_last() =~= av.take(i as int));
            }
            self.record_device_list(account_id, &areas[i].devices);
            i = i + 1;
        }
        proof {
            assert(av.take(i as int) =~= av);
        }
    }

    /// Learns every device of an account, as the database listed them: for
    /// each, its MAC names it, the account lists it and it lists the account.
    pub fn record_account_devices(&mut self, ads: &AccountDevices)
        ensures
            final(self)@ == record_houses(old(self)@, ads.account_info.account_id, houses_view(ads.houses_devices@)),
    {
        let account_id = ads.account_info.account_id;
        let houses = &ads.houses_devices;
        let ghost hv = houses_view(houses@);
        let ghost start = self@;
        let mut i: usize = 0;
        while i < houses.len()
            invariant
                0 <= i <= houses.len(),
                hv == houses_view(houses@),
                start == old(self)@,
                self@ == record_houses(start, account_id, hv.take(i as int)),
            decreases houses.len() - i,
        {
            proof {
                assert(hv.take(i as int + 1).drop_last() =~= hv.take(i as int));
            }
            self.record_area_list(account_id, &houses[i].areas_devices);
            i = i + 1;
        }
        proof {
            assert(hv.take(i as int) =~= hv);
        }
    }
}

/// After the cache learns that `mac` is the MAC of device `id`, looking up
/// `mac` gives `id` and looking up `id` gives `mac`; what it knew of other
/// MACs and ids is unchanged.
pub proof fn law_remembered_device_is_found(c: CacheView, mac: Seq<char>, id: i32, other_mac: Seq<char>, other_id: i32)
    ensures
        remember_device(c, mac, id).mac_ids.contains_key(mac),
        remember_device(c, mac, id).mac_ids[mac] == id,
        remember_device(c, mac, id).id_macs.contains_key(id),
        remember_device(c, mac, id).id_macs[id] == mac,
        other_mac != mac ==> remember_device(c, mac, id).mac_ids.get(other_mac) == c.mac_ids.get(other_mac),
        other_id != id ==> remember_device(c, mac, id).id_macs.get(other_id) == c.id_macs.get(other_id),
{
}

/// The cache links account `account_id` and device `d` both ways, and knows the MAC of `d`.
pub open spec fn linked(c: CacheView, account_id: i32, d: DeviceInfoView) -> bool {
    &&& c.mac_ids.contains_key(d.efuse_mac@)
    &&& ids_of(c.account_devices, account_id).contains(d.device_id)
    &&& ids_of(c.device_accounts, d.device_id).contains(account_id)
}

proof fn lemma_record_device_links(c: CacheView, account_id: i32, d: DeviceInfoView, e: DeviceInfoView, other: i32)
    ensures
        linked(record_device(c, account_id, d), account_id, d),
        linked(c, account_id, e) ==> linked(record_device(c, account_id, d), account_id, e),
        linked(c, other, e) ==> linked(record_device(c, account_id, d), other, e),
{
}

proof fn lemma_record_devices_links(c: CacheView, account_id: i32, ds: Seq<DeviceInfoView>, e: DeviceInfoView, other: i32)
    ensures
        forall|j: int| 0 <= j < ds.len() ==> linked(record_devices(c, account_id, ds), account_id, #[trigger] ds[j]),
        linked(c, account_id, e) ==> linked(record_devices(c, account_id, ds), account_id, e),
        linked(c, other, e) ==> linked(record_devices(c, account_id, ds), other, e),
    decreases ds.len(),
{
    if ds.len() > 0 {
        let pre = ds.drop_last();
        lemma_record_devices_links(c, account_id, pre, e, other);
        let mid = record_devices(c, account_id, pre);
        assert(record_devices(c, account_id, ds) == record_device(mid, account_id, ds.last()));
        lemma_record_device_links(mid, account_id, ds.last(), e, other);
        assert forall|j: int| 0 <= j < ds.len() implies linked(record_devices(c, account_id, ds), account_id, #[trigger] ds[j]) by {
            if j < ds.len() - 1 {
                assert(ds[j] == pre[j]);
                lemma_record_devices_links(c, account_id, pre, ds[j], account_id);
                lemma_record_device_links(mid, account_id, ds.last(), ds[j], account_id);
            }
        }
    }
}

proof fn lemma_record_areas_links(c: CacheView, account_id: i32, areas: Seq<AreaDevicesView>, e: DeviceInfoView, other: i32)
    ensures
        forall|k: int, m: int| 0 <= k < areas.len() && 0 <= m < areas[k].devices.len() ==>
            linked(record_areas(c, account_id, areas), account_id, #[trigger] areas[k].devices[m]),
        linked(c, account_id, e) ==> linked(record_areas(c, account_id, areas), account_id, e),
        linked(c, other, e) ==> linked(record_areas(c, account_id, areas), other, e),
    decreases areas.len(),
{
    if areas.len() > 0 {
        let pre = areas.drop_last();
        lemma_record_areas_links(c, account_id, pre, e, other);
        let mid = record_areas(c, account_id, pre);
        assert(record_areas(c, account_id, areas) == record_devices(mid, account_id, areas.last().devices));
        lemma_record_devices_links(mid, account_id, areas.last().devices, e, other);
        assert forall|k: int, m: int| 0 <= k < areas.len() && 0 <= m < areas[k].devices.len() implies
            linked(record_areas(c, account_id, areas), account_id, #[trigger] areas[k].devices[m]) by {
            if k < areas.len() - 1 {
                assert(areas[k] == pre[k]);
                lemma_record_areas_links(c, account_id, pre, areas[k].devices[m], account_id);
                lemma_record_devices_links(mid, account_id, areas.last().devices, areas[k].devices[m], account_id);
            }
        }
    }
}

proof fn lemma_record_houses_links(c: CacheView, account_id: i32, houses: Seq<HouseDevicesView>, e: DeviceInfoView, other: i32)
    ensures
        forall|i: int, k: int, m: int|
            0 <= i < houses.len() && 0 <= k < houses[i].areas_devices.len() && 0 <= m < houses[i].areas_devices[k].devices.len() ==>
            linked(record_houses(c, account_id, houses), account_id, #[trigger] houses[i].areas_devices[k].devices[m]),
        linked(c, account_id, e) ==> linked(record_houses(c, account_id, houses), account_id, e),
        linked(c, other, e) ==> linked(record_houses(c, account_id, houses), other, e),
    decreases houses.len(),
{
    if houses.len() > 0 {
        let pre = houses.drop_last();
        lemma_record_houses_links(c, account_id, pre, e, other);
        let mid = record_houses(c, account_id, pre);
        assert(record_houses(c, account_id, houses) == record_areas(mid, account_id, houses.last().areas_devices));
        lemma_record_areas_links(mid, account_id, houses.last().areas_devices, e, other);
        assert forall|i: int, k: int, m: int|
            0 <= i < houses.len() && 0 <= k < houses[i].areas_devices.len() && 0 <= m < houses[i].areas_devices[k].devices.len() implies
            linked(record_houses(c, account_id, houses), account_id, #[trigger] houses[i].areas_devices[k].devices[m]) by {
            let d = houses[i].areas_devices[k].devices[m];
            if i < houses.len() - 1 {
                assert(houses[i] == pre[i]);
                lemma_record_houses_links(c, account_id, pre, d, account_id);
                lemma_record_areas_links(mid, account_id, houses.last().areas_devices, d, account_id);
            }
        }
    }
}

proof fn lemma_record_devices_grows(c: CacheView, account_id: i32, ds: Seq<DeviceInfoView>, x: i32)
    ensures
        ids_of(c.device_accounts, x).subset_of(ids_of(record_devices(c, account_id, ds).device_accounts, x)),
    decreases ds.len(),
{
    if ds.len() > 0 {
        let pre = ds.drop_last();
        lemma_record_devices_grows(c, account_id, pre, x);
        let mid = record_devices(c, account_id, pre);
        assert(record_devices(c, account_id, ds) == record_device(mid, account_id, ds.last()));
    }
}

proof fn lemma_record_areas_grows(c: CacheView, account_id: i32, areas: Seq<AreaDevicesView>, x: i32)
    ensures
        ids_of(c.device_accounts, x).subset_of(ids_of(record_areas(c, account_id, areas).device_accounts, x)),
    decreases areas.len(),
{
    if areas.len() > 0 {
        let pre = areas.drop_last();
        lemma_record_areas_grows(c, account_id, pre, x);
        let mid = record_areas(c, account_id, pre);
        assert(record_areas(c, account_id, areas) == record_devices(mid, account_id, areas.last().devices));
        lemma_record_devices_grows(mid, account_id, areas.last().devices, x);
    }
}

proof fn lemma_record_houses_grows(c: CacheView, account_id: i32, houses: Seq<HouseDevicesView>, x: i32)
    ensures
        ids_of(c.device_accounts, x).subset_of(ids_of(record_houses(c, account_id, houses).device_accounts, x)),
    decreases houses.len(),
{
    if houses.len() > 0 {
        let pre = houses.drop_last();
        lemma_record_houses_grows(c, account_id, pre, x);
        let mid = record_houses(c, account_id, pre);
        assert(record_houses(c, account_id, houses) == record_areas(mid, account_id, houses.last().areas_devices));
        lemma_record_areas_grows(mid, account_id, houses.last().areas_devices, x);
    }
}

/// After the cache learns the devices of an account, every device of every
/// area of every house is linked with the account both ways and its MAC is
/// known; and whatever the cache linked before stays linked.
pub proof fn law_recorded_devices_are_linked(c: CacheView, account_id: i32, houses: Seq<HouseDevicesView>, earlier: DeviceInfoView)
    ensures
        forall|i: int, k: int, m: int|
            0 <= i < houses.len() && 0 <= k < houses[i].areas_devices.len() && 0 <= m < houses[i].areas_devices[k].devices.len() ==>
            linked(record_houses(c, account_id, houses), account_id, #[trigger] houses[i].areas_devices[k].devices[m]),
        linked(c, account_id, earlier) ==> linked(record_houses(c, account_id, houses), account_id, earlier),
{
    lemma_record_houses_links(c, account_id, houses, earlier, account_id);
}

/// Learning the devices of one account unlinks nothing: every account that
/// was linked to a device before, whichever account it is, stays linked to
/// it, both ways, and the device's MAC stays known.
pub proof fn law_earlier_links_stay(c: CacheView, account_id: i32, houses: Seq<HouseDevicesView>, other: i32, e: DeviceInfoView)
    ensures
        linked(c, other, e) ==> linked(record_houses(c, account_id, houses), other, e),
        ids_of(c.device_accounts, e.device_id).subset_of(ids_of(record_houses(c, account_id, houses).device_accounts, e.device_id)),
{
    lemma_record_houses_links(c, account_id, houses, e, other);
    lemma_record_houses_grows(c, account_id, houses, e.device_id);
}

} // verus!
