use yarp::command::ShellCommand;
use yarp::components::control::{PackageBundle, PackageProfile};
use yarp::components::getLabel;
use yarp::config::{space_size, PartData, User};
use yarp::install::logic::{calculate_partitions, home_root_space, to_mb};
use yarp::install::partitions::{
    make_commands, make_fs_commands, mount_commands, slashdev, space_as_string, umount_commands,
    wipe_fs_commands,
};
use yarp::install::{
    bundle_path, chroot_command, filter_packages, get_packages, get_partitions_fs,
    package_bundles, pacstrap_command,
};
use yarp::installer;
use yarp::sysinfo::{get_device_sizes, Device, Devices, Partition};
use yarp::text::{split_string, str_eq, trim_string, u64_to_string};
use yarp::validation::{validate_config, ConfigError};

fn device(name: &str, size: u128) -> Device {
    Device { name: name.to_string(), rm: false, size, ro: false, children: None }
}

fn strings(v: &[&str]) -> Vec<String> {
    v.iter().map(|s| s.to_string()).collect()
}

fn cmd(program: &str, args: &[&str]) -> ShellCommand {
    ShellCommand { program: program.to_string(), args: strings(args) }
}

fn profile(desktop: bool, multimedia: bool, utils: bool, nightly: bool, amd: bool, intel: bool) -> PackageProfile {
    PackageProfile { desktop, multimedia, utils, nightly, amd_gpu: amd, intel_gpu: intel }
}

#[test]
fn decimal_rendering() {
    assert_eq!(u64_to_string(0), "0");
    assert_eq!(u64_to_string(7), "7");
    assert_eq!(u64_to_string(120), "120");
    assert_eq!(u64_to_string(u64::MAX), u64::MAX.to_string());
}

#[test]
fn trimming() {
    assert_eq!(trim_string("  vim \t"), "vim");
    assert_eq!(trim_string("\u{3000}git\u{a0}"), "git");
    assert_eq!(trim_string("   "), "");
    assert_eq!(trim_string(""), "");
    assert_eq!(trim_string("a b"), "a b");
}

#[test]
fn splitting_on_line_breaks() {
    assert_eq!(split_string("a\nb\n", '\n'), strings(&["a", "b", ""]));
    assert_eq!(split_string("", '\n'), strings(&[""]));
    assert_eq!(split_string("\n\n", '\n'), strings(&["", "", ""]));
    assert_eq!(split_string("one", '\n'), strings(&["one"]));
}

#[test]
fn comparing_text() {
    assert!(str_eq("nvme0n1", "nvme0n1"));
    assert!(!str_eq("nvme0n1", "nvme0n2"));
    assert!(!str_eq("sda", "sda1"));
    assert!(str_eq("", ""));
}

#[test]
fn device_paths() {
    assert_eq!(slashdev("sda", 0), "/dev/sda");
    assert_eq!(slashdev("sda", 2), "/dev/sda2");
    assert_eq!(slashdev("nvme0n1", 255), "/dev/nvme0n1255");
    assert_eq!(installer::slashdev("sdb", 0), "/dev/sdb");
    assert_eq!(installer::slashdev("sdb", 4), "/dev/sdb4");
    assert_eq!(installer::slashdev("sdb", 300), "/dev/sdb300");
}

#[test]
fn sizes_with_units() {
    assert_eq!(space_as_string(2049, "MB"), "2049MB");
    assert_eq!(installer::space_as_string(0, "MB"), "0MB");
}

#[test]
fn megabyte_conversions() {
    assert_eq!(to_mb(256_060_514_304), 256_060);
    assert_eq!(to_mb(999_999), 0);
    assert_eq!(installer::toMB(256_060_514_304), 256_060);
    // the 64-bit conversion truncates the byte count first
    assert_eq!(installer::toMB((1u128 << 64) + 5_000_000), 5);
    assert_eq!(to_mb((1u128 << 64) + 5_000_000), 18_446_744_073_714);
}

#[test]
fn conversions_agree_below_two_to_the_64() {
    for size in [0u128, 999_999, 1_000_000, 256_060_514_304, u64::MAX as u128] {
        assert_eq!(installer::toMB(size) as u128, to_mb(size));
    }
}

#[test]
fn summing_sizes() {
    assert_eq!(installer::sum(&vec![]), 0);
    assert_eq!(installer::sum(&vec![0, 300, 2348, 2448, 2648]), 7744);
}

#[test]
fn fixed_layout() {
    assert_eq!(installer::calculate_partitions(100, 200), vec![0, 300, 2348, 2448, 2648]);
    assert_eq!(installer::calculate_partitions(0, 0), vec![0, 300, 2348, 2348, 2348]);
    assert_eq!(installer::partitionable_space(&device("sda", 10_000_000_000)), 7650);
}

#[test]
fn layout_without_home() {
    let d = device("sda", 256_060_514_304);
    assert_eq!(calculate_partitions(&d, 4096, 0, false, false), vec![0, 105, 4201, 256_060]);
    assert_eq!(calculate_partitions(&d, 4096, 0, false, true), vec![4000, 4105, 8201, 256_060]);
}

#[test]
fn layout_with_home() {
    let d = device("sda", 256_060_514_304);
    let rest = home_root_space(&d, 4096, false);
    assert_eq!(rest, 256_060 - 4201);
    let root = rest / 2;
    assert_eq!(
        calculate_partitions(&d, 4096, root, true, false),
        vec![0, 105, 4201, 4201 + root, 256_060]
    );
    assert_eq!(home_root_space(&d, 4096, true), 256_060 - 8201);
}

#[test]
fn layout_tiles_the_device() {
    let d = device("sda", 64_000_000_000);
    for (has_home, legacy) in [(false, false), (false, true), (true, false), (true, true)] {
        let rest = home_root_space(&d, 2048, legacy);
        let sizes = calculate_partitions(&d, 2048, rest * 35 / 100, has_home, legacy);
        assert_eq!(sizes[0], if legacy { 4000 } else { 0 });
        assert_eq!(*sizes.last().unwrap(), to_mb(d.size));
        assert!(sizes.windows(2).all(|w| w[0] <= w[1]));
    }
}

#[test]
fn partition_file_systems() {
    let fs = get_partitions_fs();
    let shape: Vec<(&str, Vec<&str>)> = fs.iter().map(|p| (p.fs, p.args.clone())).collect();
    assert_eq!(
        shape,
        vec![
            ("mkfs.fat", vec!["-F", "32"]),
            ("mkswap", vec![]),
            ("mkfs.ext4", vec!["-F"]),
            ("mkfs.ext4", vec!["-F"]),
        ]
    );
}

#[test]
fn package_lines_are_cleaned() {
    let mut lines = strings(&["  vim ", "", "# editors", "   ", "git", "\t#x", "base-devel\r"]);
    filter_packages(&mut lines);
    assert_eq!(lines, strings(&["vim", "git", "base-devel"]));
}

#[test]
fn cleaning_twice_changes_nothing() {
    let mut lines = strings(&[" a ", "#b", "", "c"]);
    filter_packages(&mut lines);
    let once = lines.clone();
    filter_packages(&mut lines);
    assert_eq!(lines, once);
}

#[test]
fn packages_from_bundles() {
    let texts = strings(&["base\nlinux\n# kernel\n\n", "  vim\ngit"]);
    assert_eq!(get_packages(&texts), strings(&["base", "linux", "vim", "git"]));
    assert_eq!(get_packages(&vec![]), Vec::<String>::new());
}

#[test]
fn packages_have_no_line_breaks_or_comments() {
    let texts = strings(&["a\r\n b \n#c\n", "\n\nd"]);
    for p in get_packages(&texts) {
        assert!(!p.is_empty());
        assert!(!p.starts_with('#'));
        assert!(!p.contains('\n'));
        assert_eq!(p.trim(), p);
    }
}

#[test]
fn bundles_for_profiles() {
    assert_eq!(package_bundles(profile(false, false, false, false, false, false)), vec!["base"]);
    assert_eq!(
        package_bundles(profile(true, true, true, true, true, true)),
        vec!["base", "multimedia", "nightly", "desktop", "utils", "amd_gpu", "intel_gpu"]
    );
    assert_eq!(package_bundles(profile(true, false, false, true, false, false)), vec!["base", "nightly", "desktop"]);
    assert_eq!(bundle_path("base"), "./packages/base.x86_64");
    let _ = PackageBundle::BASE;
}

#[test]
fn pacstrap_arguments() {
    let c = pacstrap_command(&strings(&["base", "vim"]));
    assert_eq!(c, cmd("pacstrap", &["-K", "/mnt", "base", "vim"]));
}

#[test]
fn chroot_arguments() {
    let user = User { name: "ana".to_string(), password: "pw".to_string(), cpassword: "pw".to_string() };
    let d = device("sda", 0);
    assert_eq!(
        chroot_command(&user, &d, true),
        cmd("arch-chroot", &["/mnt", "/install.sh", "ana", "pw", "true", "/dev/sda"])
    );
    assert_eq!(chroot_command(&user, &d, false).args[4], "false");
}

#[test]
fn partitioning_commands() {
    let cmds = make_commands(&vec![0, 300, 2348], "/dev/sda");
    assert_eq!(
        cmds,
        vec![
            cmd("parted", &["/dev/sda", "mklabel", "gpt"]),
            cmd("parted", &["-s", "-a", "optimal", "/dev/sda", "mkpart", "primary", "1MB", "301MB"]),
            cmd("parted", &["-s", "-a", "optimal", "/dev/sda", "mkpart", "primary", "301MB", "2349MB"]),
        ]
    );
    assert_eq!(make_commands(&vec![5], "/dev/sda").len(), 1);
}

#[test]
fn file_system_commands() {
    let parts = vec![PartData { fs: "mkfs.fat", args: vec!["-F", "32"] }, PartData { fs: "mkswap", args: vec![] }];
    assert_eq!(
        make_fs_commands(&parts, "sda"),
        vec![cmd("mkfs.fat", &["-F", "32", "/dev/sda1"]), cmd("mkswap", &["/dev/sda2"])]
    );
}

#[test]
fn wipe_and_unmount_commands() {
    assert_eq!(
        wipe_fs_commands("sda"),
        vec![
            cmd("umount", &["-l", "/mnt"]),
            cmd("swapoff", &["/dev/sda2"]),
            cmd("wipefs", &["--all", "--force", "/dev/sda"]),
        ]
    );
    assert_eq!(
        umount_commands("sda"),
        vec![cmd("umount", &["-l", "/mnt"]), cmd("swapoff", &["/dev/sda2"]), cmd("umount", &["-Rf", "/mnt"])]
    );
}

#[test]
fn mount_commands_with_and_without_home() {
    let base = vec![
        cmd("mount", &["/dev/sda3", "/mnt"]),
        cmd("swapon", &["/dev/sda2"]),
        cmd("mount", &["--mkdir", "/dev/sda1", "/mnt/boot/efi"]),
    ];
    assert_eq!(mount_commands("sda", false), base);
    let mut with_home = base.clone_commands();
    with_home.push(cmd("mount", &["--mkdir", "/dev/sda4", "/mnt/home"]));
    assert_eq!(mount_commands("sda", true), with_home);
}

trait CloneCommands {
    fn clone_commands(&self) -> Vec<ShellCommand>;
}

impl CloneCommands for Vec<ShellCommand> {
    fn clone_commands(&self) -> Vec<ShellCommand> {
        self.iter().map(|c| ShellCommand { program: c.program.clone(), args: c.args.clone() }).collect()
    }
}

#[test]
fn mounts_match_file_systems() {
    let fs = get_partitions_fs();
    let formats = make_fs_commands(&fs, "sda");
    let mounts = mount_commands("sda", true);
    assert_eq!(formats[2].program, "mkfs.ext4");
    assert_eq!(formats[2].args.last().unwrap(), &mounts[0].args[0]);
    assert_eq!(formats[1].program, "mkswap");
    assert_eq!(formats[1].args.last().unwrap(), &mounts[1].args[0]);
    assert_eq!(formats[0].program, "mkfs.fat");
    assert_eq!(formats[0].args.last().unwrap(), &mounts[2].args[1]);
    assert_eq!(formats[3].args.last().unwrap(), &mounts[3].args[1]);
}

#[test]
fn unmounting_undoes_mounting() {
    let mounts = mount_commands("vda", true);
    let unmounts = umount_commands("vda");
    assert_eq!(mounts[1].args, unmounts[1].args);
    assert_eq!(unmounts[2], cmd("umount", &["-Rf", "/mnt"]));
    for m in mounts.iter().filter(|c| c.program == "mount") {
        assert!(m.args.last().unwrap().starts_with("/mnt"));
    }
}

#[test]
fn single_step_install_commands() {
    let cmds = installer::install_commands("sda", &vec![0, 300, 2348]);
    assert_eq!(
        cmds,
        vec![
            cmd("echo", &["hello"]),
            cmd("wipefs", &["-a", "/dev/sda"]),
            cmd("parted", &["/dev/sda", "mklabel", "gpt"]),
            cmd("parted", &["-s", "-a", "optimal", "/dev/sda", "mkpart", "primary", "1MB", "301MB"]),
            cmd("parted", &["-s", "-a", "optimal", "/dev/sda", "mkpart", "primary", "301MB", "2349MB"]),
            cmd("mkfs.fat", &["-F", "-F", "32", "/dev/sda1"]),
            cmd("mkswap", &["-F", "/dev/sda2"]),
            cmd("mkfs.ext4", &["-F", "/dev/sda3"]),
            cmd("mkfs.ext4", &["-F", "/dev/sda4"]),
        ]
    );
}

#[test]
fn protected_device_gets_no_commands() {
    assert!(installer::install_commands("nvme0n1", &vec![]).is_empty());
}

#[test]
fn config_validation() {
    let ok = User { name: "a".to_string(), password: "x".to_string(), cpassword: "x".to_string() };
    let bad = User { name: "a".to_string(), password: "x".to_string(), cpassword: "y".to_string() };
    assert_eq!(validate_config(&ok, &device("sda", 0)), Ok(()));
    assert_eq!(validate_config(&bad, &device("sda", 0)), Err(ConfigError::PasswordMismatch));
    assert_eq!(validate_config(&ok, &device("nvme0n1", 0)), Err(ConfigError::ProtectedDevice));
    // the password check comes first
    assert_eq!(validate_config(&bad, &device("nvme0n1", 0)), Err(ConfigError::PasswordMismatch));
}

#[test]
fn device_labels_and_sizes() {
    assert_eq!(getLabel("sda", "256.06"), "sda     256.06");
    let devices = Devices {
        blockdevices: vec![
            device("sda", 10),
            Device {
                name: "sdb".to_string(),
                rm: true,
                size: 20,
                ro: false,
                children: Some(vec![Partition {
                    name: "sdb1".to_string(),
                    rm: true,
                    size: 20,
                    ro: false,
                    mountpoints: vec![None],
                }]),
            },
        ],
    };
    assert_eq!(get_device_sizes(&devices), vec![10, 20]);
}

#[test]
fn space_left_for_root_and_home() {
    assert_eq!(space_size(64_000_000_000, 4096), 64_000 - 4096 - 300);
}

#[test]
fn partition_paths_are_distinct() {
    let paths: Vec<String> = (1..=12u8).map(|i| slashdev("sda", i)).collect();
    for i in 0..paths.len() {
        for j in 0..paths.len() {
            assert_eq!(i == j, paths[i] == paths[j]);
        }
    }
}
