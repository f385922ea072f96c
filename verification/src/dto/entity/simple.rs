//! The entities that the API hands out: accounts, houses, areas, devices,
//! members and user information.
use vstd::prelude::*;

verus! {

/// An account by its id and name.
pub struct AccountInfo {
    pub account_id: i32,
    pub username: String,
}

/// A house by its id and name.
pub struct HouseInfo {
    pub house_id: i32,
    pub house_name: String,
}

/// An area by its id and name.
pub struct AreaInfo {
    pub area_id: i32,
    pub area_name: String,
}

/// A request to add a device to an area.
pub struct DeviceAdd {
    pub efuse_mac: String,
    pub device_name: String,
    pub model_id: i32,
    pub area_id: i32,
}

/// The type of a device model, by its id and label.
pub struct DeviceType {
    pub type_id: i32,
    pub type_label: String,
}

/// A device with its model, its type and the services (JSON parameters) it offers.
pub struct DeviceInfo {
    pub device_id: i32,
    pub device_name: String,
    pub efuse_mac: String,
    pub model_id: i32,
    pub model_name: String,
    pub device_type: DeviceType,
    pub service: Vec<serde_json::Value>,
}

/// `DeviceInfo` with its services as a sequence.
pub struct DeviceInfoView {
    pub device_id: i32,
    pub device_name: String,
    pub efuse_mac: String,
    pub model_id: i32,
    pub model_name: String,
    pub device_type: DeviceType,
    pub service: Seq<serde_json::Value>,
}

impl View for DeviceInfo {
    type V = DeviceInfoView;

    open spec fn view(&self) -> DeviceInfoView {
        DeviceInfoView {
            device_id: self.device_id,
            device_name: self.device_name,
            efuse_mac: self.efuse_mac,
            model_id: self.model_id,
            model_name: self.model_name,
            device_type: self.device_type,
            service: self.service@,
        }
    }
}

/// The houses an account belongs to, each with all of its members.
pub struct MemberInfo {
    pub houses_member: Vec<HouseMember>,
}

/// A house with the accounts that are its members.
pub struct HouseMember {
    pub house_info: HouseInfo,
    pub account: Vec<AccountInfo>,
}

/// What a `HouseMember` holds, its accounts as a sequence.
pub struct HouseMemberView {
    pub house_info: HouseInfo,
    pub account: Seq<AccountInfo>,
}

impl View for HouseMember {
    type V = HouseMemberView;

    open spec fn view(&self) -> HouseMemberView {
        HouseMemberView { house_info: self.house_info, account: self.account@ }
    }
}

impl View for MemberInfo {
    type V = Seq<HouseMemberView>;

    open spec fn view(&self) -> Seq<HouseMemberView> {
        self.houses_member@.map_values(|h: HouseMember| h@)
    }
}

/// The personal information of an account; every field may be missing.
#[derive(Default)]
pub struct UserInfo {
    pub age: Option<i32>,
    pub city: Option<String>,
    pub email: Option<String>,
    pub name: Option<String>,
    pub gender: Option<String>,
}

} // verus!
