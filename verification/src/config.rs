//! The installation settings that the user enters.

use vstd::prelude::*;

verus! {

/// The account to create on the installed system.
#[derive(Debug)]
pub struct User {
    pub name: String,
    pub password: String,
    pub cpassword: String,
}

/// How to make the file system of one partition: the program and the
/// arguments it gets before the partition's device path.
#[derive(Debug)]
pub struct PartData<'a> {
    pub fs: &'a str,
    pub args: Vec<&'a str>,
}

/// Megabytes left on a device of `device_size` bytes once the swap partition
/// of `swap` megabytes and 300 megabytes for the boot partitions are taken;
/// the megabyte count is truncated to 64 bits first, as a cast does.
pub fn space_size(device_size: u128, swap: u64) -> (space: u64)
    requires
        swap + 300 <= ((device_size / 1000000) as u64),
    ensures
        space == ((device_size / 1000000) as u64) - swap - 300,
{
    ((device_size / 1000000) as u64) - swap - 300
}

} // verus!
