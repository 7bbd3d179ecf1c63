use vstd::prelude::*;
use crate::engine::{fresh_account, fresh_device_id, now_millis, pickle_account, unpickle_account};
use crate::errors::MeshError;

verus! {

/// One device's long-term identity: a unique id, a display name, and the
/// engine's serialized identity state. Only the public parts of the identity
/// ever leave the device, inside an invitation.
pub struct Device {
    pub id: u128,
    pub name: String,
    pub pickled_account: String,
    pub created_at: u64,
}

/// The mathematical value of a device record.
pub ghost struct DeviceV {
    pub id: u128,
    pub name: Seq<char>,
    pub pickled_account: Seq<char>,
    pub created_at: u64,
}

impl View for Device {
    type V = DeviceV;

    open spec fn view(&self) -> DeviceV {
        DeviceV {
            id: self.id,
            name: self.name@,
            pickled_account: self.pickled_account@,
            created_at: self.created_at,
        }
    }
}

impl Clone for Device {
    fn clone(&self) -> (r: Self)
        ensures
            r@ == self@,
    {
        Device {
            id: self.id,
            name: self.name.clone(),
            pickled_account: self.pickled_account.clone(),
            created_at: self.created_at,
        }
    }
}

impl Device {
    /// Creates a device with a fresh identity from the engine, under a fresh
    /// id and the current time.
    pub fn new(name: String) -> (r: Result<Device, MeshError>)
        ensures
            r matches Ok(d) ==> d@.name == name@,
            r matches Err(e) ==> e matches MeshError::Serialization,
    {
        let account = fresh_account();
        let pickled = match pickle_account(&account) {
            Ok(p) => p,
            Err(e) => {
                return Err(e);
            },
        };
        Ok(
            Device {
                id: fresh_device_id(),
                name,
                pickled_account: pickled,
                created_at: now_millis(),
            },
        )
    }

    /// Restores the engine's live account object from this device's
    /// serialized identity state. Mutations of the live object must be
    /// written back explicitly by re-pickling. It fails only on account
    /// state the engine cannot read back.
    pub fn account(&self) -> (r: Result<vodozemac::olm::Account, MeshError>)
        ensures
            r matches Err(e) ==> e matches MeshError::Serialization,
    {
        unpickle_account(self.pickled_account.as_str())
    }
}

} // verus!
