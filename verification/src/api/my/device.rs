//! What the device handlers compute from a request before sending it on.
use crate::dto::mqtt::HostToDeviceMessage;
use crate::json::{json_from_bytes, parse_json};
use vstd::prelude::*;

verus! {

/// The request that asks a device to run `service_name`: the request body,
/// read as JSON, is handed to the service; a body that is not JSON text
/// hands it nothing.
pub fn service_message(service_name: String, body: &[u8]) -> (m: HostToDeviceMessage)
    ensures
        m.spec_service_name() == service_name@,
        m.spec_payload() == json_from_bytes(body@),
{
    let value = parse_json(body);
    HostToDeviceMessage::new(service_name, value)
}

} // verus!
