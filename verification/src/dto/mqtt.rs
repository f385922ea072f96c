//! Messages exchanged with devices over MQTT.
use vstd::prelude::*;

verus! {

/// A message that a device publishes: its MAC, its model, the kind of
/// message (`"status"` or `"event"`) and a JSON payload.
#[derive(Debug)]
pub struct DeviceMessage {
    pub efuse_mac: String,
    pub model_id: i32,
    pub model_name: String,
    pub type_: String,
    pub payload: serde_json::Value,
}

/// A request from the host to a device: the service to run, with an optional JSON body.
#[derive(Debug)]
pub struct HostToDeviceMessage {
    service_name: String,
    payload: Option<serde_json::Value>,
}

impl HostToDeviceMessage {
    /// The service the device is asked to run.
    pub closed spec fn spec_service_name(&self) -> Seq<char> {
        self.service_name@
    }

    /// The body handed to the service, if any.
    pub closed spec fn spec_payload(&self) -> Option<serde_json::Value> {
        self.payload
    }

    /// A request to run `service` with the given body.
    pub fn new(service: String, body: Option<serde_json::Value>) -> (r: HostToDeviceMessage)
        ensures
            r.spec_service_name() == service@,
            r.spec_payload() == body,
    {
        HostToDeviceMessage { service_name: service, payload: body }
    }

    /// The request that asks a device for its status.
    pub fn status() -> (r: HostToDeviceMessage)
        ensures
            r.spec_service_name() == "status"@,
            r.spec_payload() is None,
    {
        HostToDeviceMessage::new("status".to_string(), None)
    }

    /// The service the device is asked to run.
    pub fn service_name(&self) -> (r: &str)
        ensures
            r@ == self.spec_service_name(),
    {
        self.service_name.as_str()
    }

    /// The body handed to the service, if any.
    pub fn payload(&self) -> (r: &Option<serde_json::Value>)
        ensures
            *r == self.spec_payload(),
    {
        &self.payload
    }
}

} // verus!
