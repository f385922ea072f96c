//! The bodies of API responses: an account's houses, their areas and their devices.
use crate::dto::entity::simple::{AccountInfo, AreaInfo, DeviceInfo, DeviceInfoView, HouseInfo};
use vstd::prelude::*;

verus! {

/// An account with every house it belongs to, each with its areas and devices.
pub struct AccountDevices {
    pub account_info: AccountInfo,
    pub houses_devices: Vec<HouseDevices>,
}

/// A house with its areas, each with its devices.
pub struct HouseDevices {
    pub house_info: HouseInfo,
    pub areas_devices: Vec<AreaDevices>,
}

/// An area with the devices placed in it.
pub struct AreaDevices {
    pub area_info: AreaInfo,
    pub devices: Vec<DeviceInfo>,
}

/// The answer to a successful login: the token to send with later requests.
pub struct LoginSuccess {
    pub token: String,
}

/// What an `AreaDevices` holds, its devices taken by their views.
pub struct AreaDevicesView {
    pub area_info: AreaInfo,
    pub devices: Seq<DeviceInfoView>,
}

/// What a `HouseDevices` holds, its areas taken by their views.
pub struct HouseDevicesView {
    pub house_info: HouseInfo,
    pub areas_devices: Seq<AreaDevicesView>,
}

/// What an `AccountDevices` holds, its houses taken by their views.
pub struct AccountDevicesView {
    pub account_info: AccountInfo,
    pub houses_devices: Seq<HouseDevicesView>,
}

impl View for AreaDevices {
    type V = AreaDevicesView;

    open spec fn view(&self) -> AreaDevicesView {
        AreaDevicesView {
            area_info: self.area_info,
            devices: self.devices@.map_values(|d: DeviceInfo| d@),
        }
    }
}

impl View for HouseDevices {
    type V = HouseDevicesView;

    open spec fn view(&self) -> HouseDevicesView {
        HouseDevicesView {
            house_info: self.house_info,
            areas_devices: self.areas_devices@.map_values(|a: AreaDevices| a@),
        }
    }
}

impl View for AccountDevices {
    type V = AccountDevicesView;

    open spec fn view(&self) -> AccountDevicesView {
        AccountDevicesView {
            account_info: self.account_info,
            houses_devices: self.houses_devices@.map_values(|h: HouseDevices| h@),
        }
    }
}

} // verus!
