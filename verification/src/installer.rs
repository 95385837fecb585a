//! The first, single-step installer: a fixed four-partition layout (EFI,
//! swap, root, home) and the commands that create it.

use vstd::prelude::*;
use vstd::string::*;

use crate::command::{command, commands_view, CommandView, ShellCommand};
use crate::install::partitions::{
    boundaries_fit, dev_path, label_command, lemma_mkpart_commands_shape, mkpart_commands,
    push_mkpart_commands,
};
use crate::sysinfo::Device;
use crate::text::{decimal, str_eq, u64_to_string};
use crate::validation::protected_device_name;

verus! {

/// Converts bytes to (decimal) megabytes, after truncating the byte count
/// to 64 bits as a cast does.
#[allow(non_snake_case)]
pub fn toMB(size: u128) -> (mb: u64)
    ensures
        mb == (size as u64) / 1000000,
{
    (size as u64) / 1000000
}

/// Below 2^64 bytes the truncating conversion [`toMB`] and the 128-bit
/// conversion [`crate::install::logic::to_mb`] agree.
pub proof fn lemma_to_mb_conversions_agree(size: u128)
    requires
        size <= u64::MAX,
    ensures
        (size as u64) / 1000000 == size / 1000000,
{
}

/// A size followed by its unit, such as `2049MB`.
pub fn space_as_string(size: u64, unit: &str) -> (s: String)
    ensures
        s@ == decimal(size as nat) + unit@,
{
    let mut ans = u64_to_string(size);
    ans.append(unit);
    ans
}

/// The sum of a sequence of sizes.
pub open spec fn seq_sum(s: Seq<u64>) -> nat
    decreases s.len(),
{
    if s.len() == 0 {
        0
    } else {
        seq_sum(s.drop_last()) + s.last() as nat
    }
}

/// A prefix never sums to more than the whole sequence.
pub proof fn lemma_seq_sum_prefix(s: Seq<u64>, i: int)
    requires
        0 <= i <= s.len(),
    ensures
        seq_sum(s.subrange(0, i)) <= seq_sum(s),
    decreases s.len() - i,
{
    if i < s.len() {
        lemma_seq_sum_prefix(s, i + 1);
        assert(s.subrange(0, i + 1).drop_last() =~= s.subrange(0, i));
    } else {
        assert(s.subrange(0, i) =~= s);
    }
}

/// Sums add up piecewise: the empty sequence sums to 0, one size sums to
/// itself, and a concatenation sums to the sum of its parts.
pub proof fn lemma_seq_sum_additive(a: Seq<u64>, b: Seq<u64>, x: u64)
    ensures
        seq_sum(Seq::<u64>::empty()) == 0,
        seq_sum(seq![x]) == x,
        seq_sum(a + b) == seq_sum(a) + seq_sum(b),
    decreases b.len(),
{
    assert(seq![x].drop_last() =~= Seq::<u64>::empty());
    if b.len() == 0 {
        assert(a + b =~= a);
    } else {
        lemma_seq_sum_additive(a, b.drop_last(), x);
        assert((a + b).drop_last() =~= a + b.drop_last());
    }
}

/// The sum of the sizes; the sum must fit in 64 bits.
pub fn sum(arr: &Vec<u64>) -> (total: u64)
    requires
        seq_sum(arr@) <= u64::MAX,
    ensures
        total == seq_sum(arr@),
{
    let mut total: u64 = 0;
    let mut i: usize = 0;
    while i < arr.len()
        invariant
            i <= arr@.len(),
            seq_sum(arr@) <= u64::MAX,
            total == seq_sum(arr@.subrange(0, i as int)),
        decreases arr@.len() - i,
    {
        proof {
            assert(arr@.subrange(0, i + 1).drop_last() =~= arr@.subrange(0, i as int));
            lemma_seq_sum_prefix(arr@, i + 1);
        }
        total = total + arr[i];
        i = i + 1;
    }
    assert(arr@.subrange(0, i as int) =~= arr@);
    total
}

/// The megabytes of `device` that the root and home partitions share: all
/// but the 2350 MB that the boot and swap partitions take.
pub fn partitionable_space(device: &Device) -> (space: u64)
    requires
        (device.size as u64) / 1000000 >= 2350,
    ensures
        space == (device.size as u64) / 1000000 - 2350,
{
    toMB(device.size) - 2350
}

/// The partition boundaries in megabytes: 0, the end of the 300 MB boot
/// partition, the end of the 2048 MB swap partition, the end of a root
/// partition of `root_mb` MB and the end of a home partition of `home_mb` MB.
pub fn calculate_partitions(root_mb: u64, home_mb: u64) -> (sizes: Vec<u64>)
    requires
        2348 + root_mb + home_mb <= u64::MAX,
    ensures
        sizes@ == seq![0u64, 300u64, 2348u64, (2348 + root_mb) as u64, (2348 + root_mb + home_mb) as u64],
{
    let mut sizes: Vec<u64> = Vec::new();
    sizes.push(0);
    sizes.push(300);
    let last = sizes[1];
    sizes.push(2048 + last);
    let last = sizes[2];
    sizes.push(root_mb + last);
    let last = sizes[3];
    sizes.push(home_mb + last);
    assert(sizes@ =~= seq![0u64, 300u64, 2348u64, (2348 + root_mb) as u64, (2348 + root_mb + home_mb) as u64]);
    sizes
}

/// `/dev/<name>`, or `/dev/<name><id>` for partition `id` when `id` is not 0.
pub fn slashdev(name: &str, id: u16) -> (path: String)
    ensures
        path@ == dev_path(name@, id as nat),
{
    let mut devname = String::from_str("/dev/");
    devname.append(name);
    if id != 0 {
        let number = u64_to_string(id as u64);
        devname.append(number.as_str());
    }
    devname
}

/// The commands that install on device `name` with the boundaries `parts`:
/// none on the protected device; otherwise a test echo, wiping the device,
/// a GPT label, one partition per pair of consecutive boundaries, then a
/// FAT32 file system on partition 1, swap on partition 2 and ext4 on
/// partitions 3 and 4.
pub open spec fn install_plan(name: Seq<char>, parts: Seq<u64>) -> Seq<CommandView> {
    let dev = dev_path(name, 0);
    if name == protected_device_name() {
        Seq::<CommandView>::empty()
    } else {
        seq![("echo"@, seq!["hello"@]), ("wipefs"@, seq!["-a"@, dev]), label_command(dev)]
            + mkpart_commands(dev, parts) + seq![
            ("mkfs.fat"@, seq!["-F"@, "-F"@, "32"@, dev_path(name, 1)]),
            ("mkswap"@, seq!["-F"@, dev_path(name, 2)]),
            ("mkfs.ext4"@, seq!["-F"@, dev_path(name, 3)]),
            ("mkfs.ext4"@, seq!["-F"@, dev_path(name, 4)]),
        ]
    }
}

/// The single-step plan refuses exactly the protected device: for it there
/// are no commands, and for every other device the plan echoes, wipes the
/// whole device `/dev/<name>`, labels it GPT, creates one partition per pair
/// of consecutive boundaries (from boundary + 1 MB to the next boundary +
/// 1 MB), and makes FAT32, swap, ext4 and ext4 on partitions 1 to 4.
pub proof fn lemma_install_plan_shape(name: Seq<char>, parts: Seq<u64>)
    requires
        name != protected_device_name() ==> parts.len() >= 1,
    ensures
        (install_plan(name, parts).len() == 0) <==> (name == protected_device_name()),
        name != protected_device_name() ==> {
            let p = install_plan(name, parts);
            let dev = "/dev/"@ + name;
            &&& p.len() == parts.len() + 6
            &&& p[0] == ("echo"@, seq!["hello"@])
            &&& p[1] == ("wipefs"@, seq!["-a"@, dev])
            &&& p[2] == ("parted"@, seq![dev, "mklabel"@, "gpt"@])
            &&& forall|i: int|
                0 <= i < parts.len() - 1 ==> #[trigger] p[3 + i] == (
                    "parted"@,
                    seq![
                        "-s"@,
                        "-a"@,
                        "optimal"@,
                        dev,
                        "mkpart"@,
                        "primary"@,
                        decimal((parts[i] + 1) as nat) + "MB"@,
                        decimal((parts[i + 1] + 1) as nat) + "MB"@,
                    ],
                )
            &&& p[parts.len() + 2int] == ("mkfs.fat"@, seq!["-F"@, "-F"@, "32"@, dev_path(name, 1)])
            &&& p[parts.len() + 3int] == ("mkswap"@, seq!["-F"@, dev_path(name, 2)])
            &&& p[parts.len() + 4int] == ("mkfs.ext4"@, seq!["-F"@, dev_path(name, 3)])
            &&& p[parts.len() + 5int] == ("mkfs.ext4"@, seq!["-F"@, dev_path(name, 4)])
        },
{
    if name != protected_device_name() {
        let dev = dev_path(name, 0);
        assert(dev =~= "/dev/"@ + name);
        lemma_mkpart_commands_shape(dev, parts);
        let p = install_plan(name, parts);
        let m = mkpart_commands(dev, parts);
        assert forall|i: int| 0 <= i < parts.len() - 1 implies #[trigger] p[3 + i] == (
            "parted"@,
            seq![
                "-s"@,
                "-a"@,
                "optimal"@,
                dev,
                "mkpart"@,
                "primary"@,
                decimal((parts[i] + 1) as nat) + "MB"@,
                decimal((parts[i + 1] + 1) as nat) + "MB"@,
            ],
        ) by {
            assert(p[3 + i] == m[i]);
            assert(m[i].1 =~= seq![
                "-s"@,
                "-a"@,
                "optimal"@,
                dev,
                "mkpart"@,
                "primary"@,
                decimal((parts[i] + 1) as nat) + "MB"@,
                decimal((parts[i + 1] + 1) as nat) + "MB"@,
            ]);
        }
    }
}

/// The commands of [`install_plan`].
pub fn install_commands(name: &str, partitions_mb: &Vec<u64>) -> (cmds: Vec<ShellCommand>)
    requires
        name@ != protected_device_name() ==> partitions_mb@.len() >= 1 && boundaries_fit(
            partitions_mb@,
        ),
    ensures
        commands_view(cmds@) == install_plan(name@, partitions_mb@),
        name@ == protected_device_name() ==> cmds@.len() == 0,
        name@ != protected_device_name() ==> cmds@.len() == partitions_mb@.len() + 6 && cmds@[1]@
            == ("wipefs"@, seq!["-a"@, "/dev/"@ + name@]),
{
    let mut cmds: Vec<ShellCommand> = Vec::new();
    if str_eq(name, "nvme0n1") {
        assert(commands_view(cmds@) =~= Seq::<CommandView>::empty());
        proof { lemma_install_plan_shape(name@, partitions_mb@); }
        return cmds;
    }
    let ghost plan = install_plan(name@, partitions_mb@);
    let devname = slashdev(name, 0);
    let c0 = command("echo", vec!["hello"]);
    let c1 = command("wipefs", vec!["-a", devname.as_str()]);
    let c2 = command("parted", vec![devname.as_str(), "mklabel", "gpt"]);
    assert(c0@.1 =~= seq!["hello"@]);
    assert(c1@.1 =~= seq!["-a"@, devname@]);
    assert(c2@.1 =~= label_command(devname@).1);
    cmds.push(c0);
    cmds.push(c1);
    cmds.push(c2);
    let ghost head = commands_view(cmds@);
    push_mkpart_commands(&mut cmds, partitions_mb, devname.as_str());
    let boot = slashdev(name, 1);
    let swap = slashdev(name, 2);
    let root = slashdev(name, 3);
    let home = slashdev(name, 4);
    let c3 = command("mkfs.fat", vec!["-F", "-F", "32", boot.as_str()]);
    let c4 = command("mkswap", vec!["-F", swap.as_str()]);
    let c5 = command("mkfs.ext4", vec!["-F", root.as_str()]);
    let c6 = command("mkfs.ext4", vec!["-F", home.as_str()]);
    assert(c3@.1 =~= seq!["-F"@, "-F"@, "32"@, boot@]);
    assert(c4@.1 =~= seq!["-F"@, swap@]);
    assert(c5@.1 =~= seq!["-F"@, root@]);
    assert(c6@.1 =~= seq!["-F"@, home@]);
    let ghost middle = commands_view(cmds@);
    cmds.push(c3);
    cmds.push(c4);
    cmds.push(c5);
    cmds.push(c6);
    proof {
        assert(head =~= seq![("echo"@, seq!["hello"@]), ("wipefs"@, seq!["-a"@, devname@]), label_command(devname@)]);
        assert(commands_view(cmds@) =~= middle + seq![c3@, c4@, c5@, c6@]);
    }
    assert(commands_view(cmds@) =~= plan);
    proof {
        lemma_install_plan_shape(name@, partitions_mb@);
        assert(cmds@[1]@ == commands_view(cmds@)[1]);
    }
    cmds
}

} // verus!
