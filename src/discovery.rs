//! Which attached USB device is the controller.
//!
//! The caller enumerates the attached devices and reads each one's
//! descriptor; this module decides, from the identifiers read (or the failure
//! to read them), which device is used or why discovery fails.
use vstd::prelude::*;

verus! {

/// USB vendor id of the controller.
pub const VENDOR_ID: u16 = 3184;

/// USB product id of the controller.
pub const PRODUCT_ID: u16 = 61457;

/// The identifiers that a device descriptor gives.
#[derive(Clone, Copy, Debug, PartialEq, Eq, Structural)]
pub struct DeviceId {
    pub vendor_id: u16,
    pub product_id: u16,
}

/// Why discovery found no device to use.
#[derive(Clone, Copy, Debug, PartialEq, Eq, Structural)]
pub enum DiscoveryError {
    /// The descriptor of the device at `index` could not be read, before any
    /// matching device was seen: the scan stops there.
    DescriptorRead { index: usize },
    /// Every descriptor was read and none matched.
    DeviceNotFound,
}

/// The identifiers are those of the controller.
pub open spec fn is_octo_id(id: DeviceId) -> bool {
    id.vendor_id == VENDOR_ID && id.product_id == PRODUCT_ID
}

/// The scan ends at entry `i`: its descriptor is unreadable or it matches.
pub open spec fn ends_scan(descriptors: Seq<Option<DeviceId>>, i: int) -> bool {
    match descriptors[i] {
        None => true,
        Some(id) => is_octo_id(id),
    }
}

/// The scan goes past every entry before `n`.
pub open spec fn passes_before(descriptors: Seq<Option<DeviceId>>, n: int) -> bool {
    forall|j: int| 0 <= j < n ==> !#[trigger] ends_scan(descriptors, j)
}

/// The identifiers are those of the controller.
pub fn is_octo(id: DeviceId) -> (r: bool)
    ensures
        r == is_octo_id(id),
{
    id.vendor_id == VENDOR_ID && id.product_id == PRODUCT_ID
}

/// Scans the descriptors of the attached devices in order (`None` where one
/// could not be read) and stops at the first entry that is unreadable or
/// matches the controller: `Ok(i)` for a match at `i`, `DescriptorRead` for an
/// unreadable entry, `DeviceNotFound` when the scan runs off the end.
pub fn select_device(descriptors: &[Option<DeviceId>]) -> (r: Result<usize, DiscoveryError>)
    ensures
        match r {
            Ok(i) => {
                &&& i < descriptors@.len()
                &&& descriptors@[i as int] matches Some(id) && is_octo_id(id)
                &&& passes_before(descriptors@, i as int)
            },
            Err(DiscoveryError::DescriptorRead { index }) => {
                &&& index < descriptors@.len()
                &&& descriptors@[index as int] is None
                &&& passes_before(descriptors@, index as int)
            },
            Err(DiscoveryError::DeviceNotFound) => passes_before(
                descriptors@,
                descriptors@.len() as int,
            ),
        },
{
    let mut i: usize = 0;
    while i < descriptors.len()
        invariant
            i <= descriptors@.len(),
            passes_before(descriptors@, i as int),
        decreases descriptors@.len() - i,
    {
        match descriptors[i] {
            None => {
                return Err(DiscoveryError::DescriptorRead { index: i });
            },
            Some(id) => {
                if is_octo(id) {
                    return Ok(i);
                }
            },
        }
        i = i + 1;
    }
    Err(DiscoveryError::DeviceNotFound)
}

} // verus!
