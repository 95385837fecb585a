//! Partition layout arithmetic. Boundaries are in megabytes from the start
//! of the device: the first partition starts at the first boundary and each
//! later one starts where the previous one ends.

use vstd::prelude::*;

use crate::sysinfo::Device;

verus! {

/// Converts bytes to (decimal) megabytes, rounding down.
pub fn to_mb(size: u128) -> (mb: u128)
    ensures
        mb == size / 1000000,
{
    size / 1000000
}

/// Where the first partition starts: 4000 MB in on a legacy (BIOS) system,
/// at 0 otherwise.
pub open spec fn layout_start(is_legacy: bool) -> nat {
    if is_legacy {
        4000
    } else {
        0
    }
}

/// Where the swap partition ends: after the start, a 105 MB EFI partition
/// and `swap` MB of swap.
pub open spec fn swap_end(swap: nat, is_legacy: bool) -> nat {
    layout_start(is_legacy) + 105 + swap
}

/// The boundaries of the layout on a device of `size_mb` MB: the start, the
/// end of the EFI partition, the end of swap, then, with a home partition,
/// the end of a root partition of `root_mb` MB, and last the end of the
/// device.
pub open spec fn partition_layout(
    size_mb: nat,
    swap: nat,
    root_mb: nat,
    has_home: bool,
    is_legacy: bool,
) -> Seq<nat> {
    let start = layout_start(is_legacy);
    let head = seq![start, start + 105, swap_end(swap, is_legacy)];
    if has_home {
        head + seq![root_mb + swap_end(swap, is_legacy), size_mb]
    } else {
        head + seq![size_mb]
    }
}

/// The megabytes of `device` left after the swap partition, which the root
/// and home partitions share.
pub fn home_root_space(device: &Device, swap: u128, is_legacy: bool) -> (rest: u128)
    requires
        swap_end(swap as nat, is_legacy) <= device.size / 1000000,
    ensures
        rest == device.size / 1000000 - swap_end(swap as nat, is_legacy),
{
    let start: u128 = if is_legacy { 4000 } else { 0 };
    to_mb(device.size) - (start + 105 + swap)
}

/// The partition boundaries for `device`, given the swap size and the size
/// of the root partition (used only when there is a home partition); the
/// last boundary is the end of the device.
pub fn calculate_partitions(
    device: &Device,
    swap: u128,
    root_mb: u128,
    has_home: bool,
    is_legacy: bool,
) -> (sizes: Vec<u128>)
    requires
        swap_end(swap as nat, is_legacy) <= u128::MAX,
        has_home ==> root_mb + swap_end(swap as nat, is_legacy) <= u128::MAX,
    ensures
        sizes@.map_values(|x: u128| x as nat) == partition_layout(
            device.size as nat / 1000000,
            swap as nat,
            root_mb as nat,
            has_home,
            is_legacy,
        ),
        sizes@.len() == if has_home { 5nat } else { 4nat },
        sizes@[0] == if is_legacy { 4000u128 } else { 0u128 },
        sizes@[1] == sizes@[0] + 105,
        sizes@[2] == sizes@[1] + swap,
        has_home ==> sizes@[3] == sizes@[2] + root_mb,
        sizes@.last() == device.size / 1000000,
{
    let mut sizes: Vec<u128> = Vec::new();
    let size = to_mb(device.size);
    sizes.push(if is_legacy { 4000 } else { 0 });
    let s0 = sizes[0];
    sizes.push(105 + s0);
    let s1 = sizes[1];
    sizes.push(swap + s1);
    let s2 = sizes[2];
    if !has_home {
        sizes.push(size);
    } else {
        sizes.push(root_mb + s2);
        sizes.push(size);
    }
    assert(sizes@.map_values(|x: u128| x as nat) =~= partition_layout(
        device.size as nat / 1000000,
        swap as nat,
        root_mb as nat,
        has_home,
        is_legacy,
    ));
    sizes
}

/// The layout's boundaries, one by one: it starts at 4000 MB on a legacy
/// system and at 0 otherwise; the EFI partition is 105 MB; the swap
/// partition is `swap` MB; with a home partition the root partition is
/// exactly `root_mb` MB (in either boot mode) and home takes the rest; the
/// last boundary is the end of the device.
pub proof fn lemma_layout_boundaries(
    size_mb: nat,
    swap: nat,
    root_mb: nat,
    has_home: bool,
    is_legacy: bool,
)
    ensures
        ({
            let l = partition_layout(size_mb, swap, root_mb, has_home, is_legacy);
            &&& l.len() == if has_home { 5nat } else { 4nat }
            &&& l[0] == if is_legacy { 4000nat } else { 0nat }
            &&& l[1] == l[0] + 105
            &&& l[2] == l[1] + swap
            &&& has_home ==> l[3] == l[2] + root_mb
            &&& l.last() == size_mb
        }),
{
}

/// The layout tiles the device: it starts at the layout start, its
/// boundaries never go down, and the last one is the end of the device,
/// whenever swap fits on the device and the root partition fits in the
/// space after swap.
pub proof fn lemma_layout_tiles_device(
    size_mb: nat,
    swap: nat,
    root_mb: nat,
    has_home: bool,
    is_legacy: bool,
)
    requires
        swap_end(swap, is_legacy) <= size_mb,
        has_home ==> root_mb <= size_mb - swap_end(swap, is_legacy),
    ensures
        ({
            let l = partition_layout(size_mb, swap, root_mb, has_home, is_legacy);
            &&& l[0] == layout_start(is_legacy)
            &&& l.last() == size_mb
            &&& l.len() == if has_home { 5nat } else { 4nat }
            &&& forall|i: int, j: int| 0 <= i <= j < l.len() ==> l[i] <= l[j]
        }),
{
}

} // verus!
