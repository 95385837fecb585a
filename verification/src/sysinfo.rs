//! Block devices as the system reports them, and what the installer reads
//! of them.

use vstd::prelude::*;

verus! {

/// A partition of a block device. Sizes are in bytes.
#[derive(Debug)]
pub struct Partition {
    pub name: String,
    pub rm: bool,
    pub size: u128,
    pub ro: bool,
    pub mountpoints: Vec<Option<String>>,
}

/// A block device with its partitions, if it has any. Sizes are in bytes.
#[derive(Debug)]
pub struct Device {
    pub name: String,
    pub rm: bool,
    pub size: u128,
    pub ro: bool,
    pub children: Option<Vec<Partition>>,
}

/// The block devices of the machine.
#[derive(Debug)]
pub struct Devices {
    pub blockdevices: Vec<Device>,
}

/// The size in bytes of each device, in the order the devices are listed.
pub fn get_device_sizes(devices: &Devices) -> (sizes: Vec<u128>)
    ensures
        sizes@ == devices.blockdevices@.map_values(|d: Device| d.size),
{
    let mut sizes: Vec<u128> = Vec::new();
    let mut i: usize = 0;
    while i < devices.blockdevices.len()
        invariant
            i <= devices.blockdevices@.len(),
            sizes@ == devices.blockdevices@.subrange(0, i as int).map_values(|d: Device| d.size),
        decreases devices.blockdevices@.len() - i,
    {
        sizes.push(devices.blockdevices[i].size);
        assert(devices.blockdevices@.subrange(0, i + 1) =~= devices.blockdevices@.subrange(
            0,
            i as int,
        ).push(devices.blockdevices@[i as int]));
        i = i + 1;
    }
    assert(devices.blockdevices@.subrange(0, i as int) =~= devices.blockdevices@);
    sizes
}

} // verus!
