//! The checks made on the settings before anything is written to a disk.

use vstd::prelude::*;

use crate::config::User;
use crate::sysinfo::Device;
use crate::text::str_eq;

verus! {

/// Why the settings were refused.
#[derive(Debug, Copy, Clone, PartialEq, Eq)]
pub enum ConfigError {
    /// The password and its confirmation differ.
    PasswordMismatch,
    /// The chosen device is the one the installer never touches.
    ProtectedDevice,
}

/// The name of the device that the installer refuses to install on.
pub open spec fn protected_device_name() -> Seq<char> {
    "nvme0n1"@
}

/// Accepts the settings unless the password and its confirmation differ
/// (checked first) or the device is the protected one.
pub fn validate_config(user: &User, device: &Device) -> (r: Result<(), ConfigError>)
    ensures
        r == (if user.password@ != user.cpassword@ {
            Err(ConfigError::PasswordMismatch)
        } else if device.name@ == protected_device_name() {
            Err(ConfigError::ProtectedDevice)
        } else {
            Ok(())
        }),
{
    if !(user.password == user.cpassword) {
        return Err(ConfigError::PasswordMismatch);
    }
    if str_eq(device.name.as_str(), "nvme0n1") {
        return Err(ConfigError::ProtectedDevice);
    }
    Ok(())
}

} // verus!
