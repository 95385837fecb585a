//! Device paths and the commands that partition, format, mount and unmount
//! the target device.

use vstd::prelude::*;
use vstd::string::*;

use crate::command::{command, commands_view, strs_view, CommandView, ShellCommand};
use crate::config::PartData;
use crate::text::{decimal, lemma_decimal_injective, u64_to_string};

verus! {

/// The path of device `name` under `/dev/`, followed by the partition
/// number `id` unless it is 0, which names the whole device.
pub open spec fn dev_path(name: Seq<char>, id: nat) -> Seq<char> {
    "/dev/"@ + name + (if id == 0 {
        Seq::<char>::empty()
    } else {
        decimal(id)
    })
}

/// Different partitions of a device have different paths.
pub proof fn lemma_partition_paths_distinct(name: Seq<char>, i: nat, j: nat)
    requires
        i != 0,
        j != 0,
        i != j,
    ensures
        dev_path(name, i) != dev_path(name, j),
{
    let prefix = "/dev/"@ + name;
    if dev_path(name, i) == dev_path(name, j) {
        assert(dev_path(name, i).subrange(prefix.len() as int, dev_path(name, i).len() as int) =~= decimal(i));
        assert(dev_path(name, j).subrange(prefix.len() as int, dev_path(name, j).len() as int) =~= decimal(j));
        lemma_decimal_injective(i, j);
    }
}

/// `/dev/<name>`, or `/dev/<name><id>` for partition `id` when `id` is not 0.
pub fn slashdev(name: &str, id: u8) -> (path: String)
    ensures
        path@ == dev_path(name@, id as nat),
{
    let mut devname = String::from_str("/dev/");
    devname.append(name);
    if id != 0 {
        let number = u64_to_string(id as u64);
        devname.append(number.as_str());
    }
    devname
}

/// A size followed by its unit, such as `2049MB`.
pub fn space_as_string(size: u64, unit: &str) -> (s: String)
    ensures
        s@ == decimal(size as nat) + unit@,
{
    let mut ans = u64_to_string(size);
    ans.append(unit);
    ans
}

/// The command that gives device `dev` a fresh GPT partition table.
pub open spec fn label_command(dev: Seq<char>) -> CommandView {
    ("parted"@, seq![dev, "mklabel"@, "gpt"@])
}

/// The command that creates a primary partition on `dev` from megabyte
/// `from + 1` to megabyte `to + 1`.
pub open spec fn mkpart_command(dev: Seq<char>, from: nat, to: nat) -> CommandView {
    (
        "parted"@,
        seq![
            "-s"@,
            "-a"@,
            "optimal"@,
            dev,
            "mkpart"@,
            "primary"@,
            decimal(from + 1) + "MB"@,
            decimal(to + 1) + "MB"@,
        ],
    )
}

/// One partition between each two consecutive boundaries of `parts`.
pub open spec fn mkpart_commands(dev: Seq<char>, parts: Seq<u64>) -> Seq<CommandView> {
    Seq::new(
        (parts.len() - 1) as nat,
        |i: int| mkpart_command(dev, parts[i] as nat, parts[i + 1] as nat),
    )
}

/// One partition per pair of consecutive boundaries, however many there
/// are: the `i`-th runs `parted` on `dev` from megabyte `parts[i] + 1` to
/// megabyte `parts[i + 1] + 1`, so each partition starts where the previous
/// one ends.
pub proof fn lemma_mkpart_commands_shape(dev: Seq<char>, parts: Seq<u64>)
    requires
        parts.len() >= 1,
    ensures
        mkpart_commands(dev, parts).len() == parts.len() - 1,
        forall|i: int|
            #![trigger mkpart_commands(dev, parts)[i]]
            0 <= i < parts.len() - 1 ==> {
                let c = mkpart_commands(dev, parts)[i];
                &&& c.0 == "parted"@
                &&& c.1.len() == 8
                &&& c.1[3] == dev
                &&& c.1[4] == "mkpart"@
                &&& c.1[6] == decimal((parts[i] + 1) as nat) + "MB"@
                &&& c.1[7] == decimal((parts[i + 1] + 1) as nat) + "MB"@
            },
        forall|i: int|
            0 <= i < parts.len() - 2 ==> (#[trigger] mkpart_commands(dev, parts)[i]).1[7]
                == mkpart_commands(dev, parts)[i + 1].1[6],
{
}

/// Every boundary can be moved one megabyte up.
pub open spec fn boundaries_fit(parts: Seq<u64>) -> bool {
    forall|i: int| 0 <= i < parts.len() ==> #[trigger] parts[i] < u64::MAX
}

fn mkpart(dev: &str, from: u64, to: u64) -> (c: ShellCommand)
    requires
        from < u64::MAX,
        to < u64::MAX,
    ensures
        c@ == mkpart_command(dev@, from as nat, to as nat),
{
    let a = space_as_string(from + 1, "MB");
    let b = space_as_string(to + 1, "MB");
    let c = command("parted", vec!["-s", "-a", "optimal", dev, "mkpart", "primary", a.as_str(), b.as_str()]);
    assert(c@.1 =~= mkpart_command(dev@, from as nat, to as nat).1);
    c
}

/// Appends the partition-creating commands for the boundaries `parts`.
pub fn push_mkpart_commands(cmds: &mut Vec<ShellCommand>, parts: &Vec<u64>, dev: &str)
    requires
        parts@.len() >= 1,
        boundaries_fit(parts@),
    ensures
        commands_view(final(cmds)@) == commands_view(old(cmds)@) + mkpart_commands(dev@, parts@),
{
    let ghost start = commands_view(cmds@);
    let mut i: usize = 0;
    while i < parts.len() - 1
        invariant
            parts@.len() >= 1,
            boundaries_fit(parts@),
            i + 1 <= parts@.len(),
            commands_view(cmds@) == start + mkpart_commands(dev@, parts@.subrange(0, i + 1)),
        decreases parts@.len() - i,
    {
        let ghost before = cmds@;
        let c = mkpart(dev, parts[i], parts[i + 1]);
        cmds.push(c);
        proof {
            assert(commands_view(cmds@) =~= commands_view(before).push(c@));
            assert(mkpart_commands(dev@, parts@.subrange(0, i + 2)) =~= mkpart_commands(
                dev@,
                parts@.subrange(0, i + 1),
            ).push(mkpart_command(dev@, parts@[i as int] as nat, parts@[i + 1] as nat)));
        }
        i = i + 1;
    }
    assert(parts@.subrange(0, i + 1) =~= parts@);
}

/// The commands that label device `devname` with GPT and create one
/// partition between each two consecutive boundaries (in megabytes).
pub fn make_commands(partitions_mb: &Vec<u64>, devname: &str) -> (cmds: Vec<ShellCommand>)
    requires
        partitions_mb@.len() >= 1,
        boundaries_fit(partitions_mb@),
    ensures
        commands_view(cmds@) == seq![label_command(devname@)] + mkpart_commands(
            devname@,
            partitions_mb@,
        ),
        cmds@.len() == partitions_mb@.len(),
        cmds@[0]@ == ("parted"@, seq![devname@, "mklabel"@, "gpt"@]),
        forall|i: int|
            0 <= i < partitions_mb@.len() - 1 ==> {
                let c = #[trigger] cmds@[i + 1]@;
                &&& c.0 == "parted"@
                &&& c.1 == seq![
                    "-s"@,
                    "-a"@,
                    "optimal"@,
                    devname@,
                    "mkpart"@,
                    "primary"@,
                    decimal((partitions_mb@[i] + 1) as nat) + "MB"@,
                    decimal((partitions_mb@[i + 1] + 1) as nat) + "MB"@,
                ]
            },
{
    let mut cmds: Vec<ShellCommand> = Vec::new();
    let label = command("parted", vec![devname, "mklabel", "gpt"]);
    assert(label@.1 =~= label_command(devname@).1);
    cmds.push(label);
    assert(commands_view(cmds@) =~= seq![label_command(devname@)]);
    push_mkpart_commands(&mut cmds, partitions_mb, devname);
    proof {
        lemma_mkpart_commands_shape(devname@, partitions_mb@);
        let v = commands_view(cmds@);
        assert(v.len() == cmds@.len());
        assert(cmds@[0]@ == v[0]);
        assert forall|i: int| 0 <= i < partitions_mb@.len() - 1 implies {
            let c = #[trigger] cmds@[i + 1]@;
            &&& c.0 == "parted"@
            &&& c.1 == seq![
                "-s"@,
                "-a"@,
                "optimal"@,
                devname@,
                "mkpart"@,
                "primary"@,
                decimal((partitions_mb@[i] + 1) as nat) + "MB"@,
                decimal((partitions_mb@[i + 1] + 1) as nat) + "MB"@,
            ]
        } by {
            assert(cmds@[i + 1]@ == v[i + 1]);
            assert(v[i + 1] == mkpart_commands(devname@, partitions_mb@)[i]);
            assert(cmds@[i + 1]@.1 =~= seq![
                "-s"@,
                "-a"@,
                "optimal"@,
                devname@,
                "mkpart"@,
                "primary"@,
                decimal((partitions_mb@[i] + 1) as nat) + "MB"@,
                decimal((partitions_mb@[i + 1] + 1) as nat) + "MB"@,
            ]);
        }
    }
    cmds
}


/// The commands that release device `name` and erase every file system
/// signature on it: unmount `/mnt` lazily, turn off swap on partition 2,
/// wipe the whole device.
pub open spec fn wipe_fs_plan(name: Seq<char>) -> Seq<CommandView> {
    seq![
        ("umount"@, seq!["-l"@, "/mnt"@]),
        ("swapoff"@, seq![dev_path(name, 2)]),
        ("wipefs"@, seq!["--all"@, "--force"@, dev_path(name, 0)]),
    ]
}

/// The commands of [`wipe_fs_plan`].
pub fn wipe_fs_commands(name: &str) -> (cmds: Vec<ShellCommand>)
    ensures
        commands_view(cmds@) == wipe_fs_plan(name@),
{
    let swap = slashdev(name, 2);
    let whole = slashdev(name, 0);
    let c0 = command("umount", vec!["-l", "/mnt"]);
    let c1 = command("swapoff", vec![swap.as_str()]);
    let c2 = command("wipefs", vec!["--all", "--force", whole.as_str()]);
    assert(c0@.1 =~= wipe_fs_plan(name@)[0].1);
    assert(c1@.1 =~= wipe_fs_plan(name@)[1].1);
    assert(c2@.1 =~= wipe_fs_plan(name@)[2].1);
    let cmds = vec![c0, c1, c2];
    assert(commands_view(cmds@) =~= wipe_fs_plan(name@));
    cmds
}

/// The commands that unmount everything the installation mounted from
/// device `devname`: unmount `/mnt` lazily, turn off swap on partition 2,
/// then unmount `/mnt` recursively and by force.
pub open spec fn umount_plan(devname: Seq<char>) -> Seq<CommandView> {
    seq![
        ("umount"@, seq!["-l"@, "/mnt"@]),
        ("swapoff"@, seq![dev_path(devname, 2)]),
        ("umount"@, seq!["-Rf"@, "/mnt"@]),
    ]
}

/// The commands of [`umount_plan`].
pub fn umount_commands(devname: &str) -> (cmds: Vec<ShellCommand>)
    ensures
        commands_view(cmds@) == umount_plan(devname@),
{
    let swap = slashdev(devname, 2);
    let c0 = command("umount", vec!["-l", "/mnt"]);
    let c1 = command("swapoff", vec![swap.as_str()]);
    let c2 = command("umount", vec!["-Rf", "/mnt"]);
    assert(c0@.1 =~= umount_plan(devname@)[0].1);
    assert(c1@.1 =~= umount_plan(devname@)[1].1);
    assert(c2@.1 =~= umount_plan(devname@)[2].1);
    let cmds = vec![c0, c1, c2];
    assert(commands_view(cmds@) =~= umount_plan(devname@));
    cmds
}

/// The commands that mount the new system of device `devname`: the root
/// file system (partition 3) on `/mnt`, swap on partition 2, the EFI
/// partition 1 on `/mnt/boot/efi`, and, when there is one, the home
/// partition 4 on `/mnt/home`.
pub open spec fn mount_plan(devname: Seq<char>, has_home: bool) -> Seq<CommandView> {
    seq![
        ("mount"@, seq![dev_path(devname, 3), "/mnt"@]),
        ("swapon"@, seq![dev_path(devname, 2)]),
        ("mount"@, seq!["--mkdir"@, dev_path(devname, 1), "/mnt/boot/efi"@]),
    ] + if has_home {
        seq![("mount"@, seq!["--mkdir"@, dev_path(devname, 4), "/mnt/home"@])]
    } else {
        Seq::<CommandView>::empty()
    }
}

/// The commands of [`mount_plan`].
pub fn mount_commands(devname: &str, has_home: bool) -> (cmds: Vec<ShellCommand>)
    ensures
        commands_view(cmds@) == mount_plan(devname@, has_home),
{
    let root = slashdev(devname, 3);
    let swap = slashdev(devname, 2);
    let boot = slashdev(devname, 1);
    let c0 = command("mount", vec![root.as_str(), "/mnt"]);
    let c1 = command("swapon", vec![swap.as_str()]);
    let c2 = command("mount", vec!["--mkdir", boot.as_str(), "/mnt/boot/efi"]);
    assert(c0@.1 =~= mount_plan(devname@, has_home)[0].1);
    assert(c1@.1 =~= mount_plan(devname@, has_home)[1].1);
    assert(c2@.1 =~= mount_plan(devname@, has_home)[2].1);
    let mut cmds = vec![c0, c1, c2];
    if has_home {
        let home = slashdev(devname, 4);
        let c3 = command("mount", vec!["--mkdir", home.as_str(), "/mnt/home"]);
        assert(c3@.1 =~= mount_plan(devname@, has_home)[3].1);
        cmds.push(c3);
    }
    assert(commands_view(cmds@) =~= mount_plan(devname@, has_home));
    cmds
}

/// Unmounting undoes mounting: the swap partition that the mount plan turns
/// on is the one the unmount plan turns off, every file system the mount
/// plan mounts lies under `/mnt`, and the unmount plan ends by unmounting
/// `/mnt` recursively.
pub proof fn lemma_umount_undoes_mount(devname: Seq<char>, has_home: bool)
    ensures
        ({
            let m = mount_plan(devname, has_home);
            let u = umount_plan(devname);
            &&& m[1] == ("swapon"@, seq![dev_path(devname, 2)])
            &&& u[1] == ("swapoff"@, seq![dev_path(devname, 2)])
            &&& u.last() == ("umount"@, seq!["-Rf"@, "/mnt"@])
            &&& forall|i: int|
                0 <= i < m.len() && #[trigger] m[i].0 == "mount"@ ==> "/mnt"@.is_prefix_of(
                    m[i].1.last(),
                )
        }),
{
    reveal_strlit("mount");
    reveal_strlit("swapon");
    reveal_strlit("/mnt");
    reveal_strlit("/mnt/boot/efi");
    reveal_strlit("/mnt/home");
    let m = mount_plan(devname, has_home);
    assert("/mnt"@.is_prefix_of("/mnt"@));
    assert("/mnt"@.is_prefix_of("/mnt/boot/efi"@));
    assert("/mnt"@.is_prefix_of("/mnt/home"@));
    assert("swapon"@.len() == 6);
    assert("mount"@.len() == 5);
    assert(m[1].0 != "mount"@);
}

/// The command that makes the file system described by `part` on
/// partition `id` of `device_name`.
pub open spec fn make_fs_command(part: PartData, device_name: Seq<char>, id: nat) -> CommandView {
    (part.fs@, strs_view(part.args@).push(dev_path(device_name, id)))
}

/// One file system per entry of `part_info`, the `i`-th on partition
/// `i + 1` (the number cast to a byte, so it wraps after 255).
pub open spec fn make_fs_plan(part_info: Seq<PartData>, device_name: Seq<char>) -> Seq<CommandView> {
    Seq::new(
        part_info.len(),
        |i: int| make_fs_command(part_info[i], device_name, ((i + 1) as u8) as nat),
    )
}

/// The commands of [`make_fs_plan`].
pub fn make_fs_commands(part_info: &Vec<PartData>, device_name: &str) -> (cmds: Vec<ShellCommand>)
    ensures
        commands_view(cmds@) == make_fs_plan(part_info@, device_name@),
{
    let mut cmds: Vec<ShellCommand> = Vec::new();
    let mut i: usize = 0;
    while i < part_info.len()
        invariant
            i <= part_info@.len(),
            commands_view(cmds@) == make_fs_plan(part_info@.subrange(0, i as int), device_name@),
        decreases part_info@.len() - i,
    {
        let part = &part_info[i];
        let mut args: Vec<&str> = Vec::new();
        let mut k: usize = 0;
        while k < part.args.len()
            invariant
                k <= part.args@.len(),
                args@ == part.args@.subrange(0, k as int),
            decreases part.args@.len() - k,
        {
            args.push(part.args[k]);
            assert(part.args@.subrange(0, k + 1) =~= part.args@.subrange(0, k as int).push(part.args@[k as int]));
            k = k + 1;
        }
        assert(part.args@.subrange(0, k as int) =~= part.args@);
        let dev = slashdev(device_name, (i + 1) as u8);
        args.push(dev.as_str());
        let c = command(part.fs, args);
        let ghost before = cmds@;
        cmds.push(c);
        proof {
            assert(c@.1 =~= strs_view(part.args@).push(dev@));
            assert(commands_view(cmds@) =~= commands_view(before).push(c@));
            assert(make_fs_plan(part_info@.subrange(0, i + 1), device_name@) =~= make_fs_plan(
                part_info@.subrange(0, i as int),
                device_name@,
            ).push(make_fs_command(part_info@[i as int], device_name@, ((i + 1) as u8) as nat)));
        }
        i = i + 1;
    }
    assert(part_info@.subrange(0, i as int) =~= part_info@);
    cmds
}

} // verus!
