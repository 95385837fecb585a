//! The installation: file systems of the partitions, package lists and the
//! commands run on the target system.

use vstd::prelude::*;
use vstd::string::*;

use crate::command::{strs_view, ShellCommand};
use crate::components::control::PackageProfile;
use crate::config::{PartData, User};
use crate::sysinfo::Device;
use crate::text::{
    lemma_split_on_join, lemma_split_on_nonempty, lemma_split_on_pieces, lemma_trim_idempotent, lemma_trim_shape, split_on, split_string,
    strings_view, trim, trim_string,
};

pub mod logic;
pub mod partitions;

verus! {

broadcast use vstd::seq_lib::group_seq_properties;

/// The program and arguments of a file system description.
pub open spec fn part_data_view(p: PartData) -> (Seq<char>, Seq<Seq<char>>) {
    (p.fs@, strs_view(p.args@))
}

/// The file systems of partitions 1 to 4: FAT32 for EFI, swap, and ext4 for
/// root and home.
pub open spec fn partitions_fs_plan() -> Seq<(Seq<char>, Seq<Seq<char>>)> {
    seq![
        ("mkfs.fat"@, seq!["-F"@, "32"@]),
        ("mkswap"@, Seq::<Seq<char>>::empty()),
        ("mkfs.ext4"@, seq!["-F"@]),
        ("mkfs.ext4"@, seq!["-F"@]),
    ]
}

/// How to make the file system of each partition, in partition order.
pub fn get_partitions_fs() -> (part_info: Vec<PartData<'static>>)
    ensures
        part_info@.map_values(|p: PartData<'static>| part_data_view(p)) == partitions_fs_plan(),
{
    let part_info = vec![
        PartData { fs: "mkfs.fat", args: vec!["-F", "32"] },
        PartData { fs: "mkswap", args: vec![] },
        PartData { fs: "mkfs.ext4", args: vec!["-F"] },
        PartData { fs: "mkfs.ext4", args: vec!["-F"] },
    ];
    assert(strs_view(part_info@[0].args@) =~= seq!["-F"@, "32"@]);
    assert(strs_view(part_info@[1].args@) =~= Seq::<Seq<char>>::empty());
    assert(strs_view(part_info@[2].args@) =~= seq!["-F"@]);
    assert(strs_view(part_info@[3].args@) =~= seq!["-F"@]);
    assert(part_info@.map_values(|p: PartData<'static>| part_data_view(p)) =~= partitions_fs_plan());
    part_info
}

/// The partitions get the file systems that their mounts expect: with the
/// file systems of [`get_partitions_fs`] made on device `dev`, partition 1,
/// mounted on `/mnt/boot/efi`, gets FAT32; partition 2, turned on as swap,
/// gets swap; partition 3, mounted on `/mnt`, gets ext4; and partition 4,
/// mounted on `/mnt/home` when there is a home partition, gets ext4.
pub proof fn lemma_mounts_match_file_systems(parts: Seq<PartData>, dev: Seq<char>, has_home: bool)
    requires
        parts.map_values(|p: PartData| part_data_view(p)) == partitions_fs_plan(),
    ensures
        ({
            let f = partitions::make_fs_plan(parts, dev);
            let m = partitions::mount_plan(dev, has_home);
            &&& f.len() == 4
            &&& f[0] == ("mkfs.fat"@, seq!["-F"@, "32"@, partitions::dev_path(dev, 1)])
            &&& m[2] == ("mount"@, seq!["--mkdir"@, partitions::dev_path(dev, 1), "/mnt/boot/efi"@])
            &&& f[1] == ("mkswap"@, seq![partitions::dev_path(dev, 2)])
            &&& m[1] == ("swapon"@, seq![partitions::dev_path(dev, 2)])
            &&& f[2] == ("mkfs.ext4"@, seq!["-F"@, partitions::dev_path(dev, 3)])
            &&& m[0] == ("mount"@, seq![partitions::dev_path(dev, 3), "/mnt"@])
            &&& f[3] == ("mkfs.ext4"@, seq!["-F"@, partitions::dev_path(dev, 4)])
            &&& has_home ==> m[3] == ("mount"@, seq![
                "--mkdir"@,
                partitions::dev_path(dev, 4),
                "/mnt/home"@,
            ])
        }),
{
    let f = partitions::make_fs_plan(parts, dev);
    let v = parts.map_values(|p: PartData| part_data_view(p));
    assert(parts.len() == 4) by {
        assert(v.len() == parts.len());
        assert(partitions_fs_plan().len() == 4);
    }
    assert forall|k: int| 0 <= k < 4 implies #[trigger] part_data_view(parts[k]) == partitions_fs_plan()[k] by {
        assert(v[k] == part_data_view(parts[k]));
    }
    assert(f[0].1 =~= seq!["-F"@, "32"@, partitions::dev_path(dev, 1)]) by {
        assert(part_data_view(parts[0]) == partitions_fs_plan()[0]);
    }
    assert(f[1].1 =~= seq![partitions::dev_path(dev, 2)]) by {
        assert(part_data_view(parts[1]) == partitions_fs_plan()[1]);
    }
    assert(f[2].1 =~= seq!["-F"@, partitions::dev_path(dev, 3)]) by {
        assert(part_data_view(parts[2]) == partitions_fs_plan()[2]);
    }
    assert(f[3].1 =~= seq!["-F"@, partitions::dev_path(dev, 4)]) by {
        assert(part_data_view(parts[3]) == partitions_fs_plan()[3]);
    }
}

/// A line names a package when it is not empty and is not a comment.
pub open spec fn is_package_line(line: Seq<char>) -> bool {
    line.len() > 0 && line[0] != '#'
}

/// The lines, each trimmed, without the empty ones and the comments.
pub open spec fn clean_packages(lines: Seq<Seq<char>>) -> Seq<Seq<char>> {
    lines.map_values(|l: Seq<char>| trim(l)).filter(|l: Seq<char>| is_package_line(l))
}

/// Trims each package line and removes the empty lines and the comments
/// (lines starting with `#`), keeping the order of the rest.
pub fn filter_packages(packages: &mut Vec<String>)
    ensures
        strings_view(final(packages)@) == clean_packages(strings_view(old(packages)@)),
{
    let ghost lines = strings_view(packages@);
    let mut kept: Vec<String> = Vec::new();
    let mut i: usize = 0;
    while i < packages.len()
        invariant
            i <= packages@.len(),
            lines == strings_view(packages@),
            strings_view(kept@) == clean_packages(lines.subrange(0, i as int)),
        decreases packages@.len() - i,
    {
        let t = trim_string(packages[i].as_str());
        let keep = t.as_str().unicode_len() > 0 && t.as_str().get_char(0) != '#';
        let ghost before = kept@;
        proof {
            let pred = |l: Seq<char>| is_package_line(l);
            assert(lines.subrange(0, i + 1) =~= lines.subrange(0, i as int).push(lines[i as int]));
            assert(lines.subrange(0, i + 1).map_values(|l: Seq<char>| trim(l)) =~= lines.subrange(
                0,
                i as int,
            ).map_values(|l: Seq<char>| trim(l)).push(trim(lines[i as int])));
            lines.subrange(0, i as int).map_values(|l: Seq<char>| trim(l)).lemma_filter_push(
                trim(lines[i as int]),
                pred,
            );
        }
        if keep {
            kept.push(t);
            assert(strings_view(kept@) =~= strings_view(before).push(trim(lines[i as int])));
        }
        i = i + 1;
    }
    assert(lines.subrange(0, i as int) =~= lines);
    *packages = kept;
}

/// Each cleaned line is a package line, is already trimmed, and is the
/// trimmed form of one of the input lines.
pub proof fn lemma_clean_packages_elements(lines: Seq<Seq<char>>)
    ensures
        forall|i: int|
            #![trigger clean_packages(lines)[i]]
            0 <= i < clean_packages(lines).len() ==> {
                &&& is_package_line(clean_packages(lines)[i])
                &&& trim(clean_packages(lines)[i]) == clean_packages(lines)[i]
                &&& exists|k: int| 0 <= k < lines.len() && clean_packages(lines)[i] == trim(lines[k])
            },
{
    let m = lines.map_values(|l: Seq<char>| trim(l));
    let pred = |l: Seq<char>| is_package_line(l);
    assert forall|i: int|
        #![trigger clean_packages(lines)[i]]
        0 <= i < clean_packages(lines).len() implies {
            &&& is_package_line(clean_packages(lines)[i])
            &&& trim(clean_packages(lines)[i]) == clean_packages(lines)[i]
            &&& exists|k: int| 0 <= k < lines.len() && clean_packages(lines)[i] == trim(lines[k])
        } by {
        let p = m.filter(pred)[i];
        m.lemma_filter_pred(pred, i);
        assert(m.filter(pred).contains(p));
        m.lemma_filter_contains_rev(pred, p);
        let k = choose|k: int| 0 <= k < m.len() && m[k] == p;
        assert(p == trim(lines[k]));
        lemma_trim_idempotent(lines[k]);
    }
}

proof fn lemma_filter_keeps_all(s: Seq<Seq<char>>, pred: spec_fn(Seq<char>) -> bool)
    requires
        forall|i: int| 0 <= i < s.len() ==> pred(#[trigger] s[i]),
    ensures
        s.filter(pred) == s,
    decreases s.len(),
{
    reveal(Seq::filter);
    if s.len() > 0 {
        lemma_filter_keeps_all(s.drop_last(), pred);
        assert(s.drop_last().push(s.last()) =~= s);
    }
}

/// Cleaning keeps exactly the real package lines: every kept name is
/// non-empty and does not start with `#`, and every input line whose trimmed
/// form is non-empty and does not start with `#` is kept, trimmed.
pub proof fn lemma_clean_packages_keeps_exactly(lines: Seq<Seq<char>>)
    ensures
        forall|i: int|
            #![trigger clean_packages(lines)[i]]
            0 <= i < clean_packages(lines).len() ==> clean_packages(lines)[i].len() > 0
                && clean_packages(lines)[i][0] != '#',
        forall|k: int|
            0 <= k < lines.len() && trim(#[trigger] lines[k]).len() > 0 && trim(lines[k])[0] != '#'
                ==> clean_packages(lines).contains(trim(lines[k])),
{
    lemma_clean_packages_elements(lines);
    let m = lines.map_values(|l: Seq<char>| trim(l));
    let pred = |l: Seq<char>| is_package_line(l);
    assert forall|k: int|
        0 <= k < lines.len() && trim(#[trigger] lines[k]).len() > 0 && trim(lines[k])[0] != '#'
            implies clean_packages(lines).contains(trim(lines[k])) by {
        assert(m[k] == trim(lines[k]));
        m.lemma_filter_contains(pred, k);
    }
}

/// Cleaning package lines a second time changes nothing.
pub proof fn lemma_clean_packages_idempotent(lines: Seq<Seq<char>>)
    ensures
        clean_packages(clean_packages(lines)) == clean_packages(lines),
{
    let y = clean_packages(lines);
    lemma_clean_packages_elements(lines);
    assert(y.map_values(|l: Seq<char>| trim(l)) =~= y) by {
        assert forall|i: int| 0 <= i < y.len() implies trim(y[i]) == y[i] by {
            assert(trim(clean_packages(lines)[i]) == clean_packages(lines)[i]);
        }
    }
    assert forall|i: int| 0 <= i < y.len() implies is_package_line(#[trigger] y[i]) by {
        assert(is_package_line(clean_packages(lines)[i]));
    }
    lemma_filter_keeps_all(y, |l: Seq<char>| is_package_line(l));
}

/// The text that the bundle files make once each is followed by a line
/// break and they are joined in order.
pub open spec fn bundle_content(texts: Seq<Seq<char>>) -> Seq<char>
    decreases texts.len(),
{
    if texts.len() == 0 {
        Seq::<char>::empty()
    } else {
        bundle_content(texts.drop_last()) + texts.last() + seq!['\n']
    }
}

/// The package names in bundle files with the texts `texts`: their lines,
/// trimmed, without empty lines and comments.
pub open spec fn packages_of(texts: Seq<Seq<char>>) -> Seq<Seq<char>> {
    clean_packages(split_on(bundle_content(texts), '\n'))
}

/// The package names listed in the bundle files whose texts are `texts`,
/// given in the order of [`package_bundles`].
pub fn get_packages(texts: &Vec<String>) -> (packages: Vec<String>)
    ensures
        strings_view(packages@) == packages_of(strings_view(texts@)),
{
    let ghost tv = strings_view(texts@);
    let mut content = String::new();
    let mut i: usize = 0;
    while i < texts.len()
        invariant
            i <= texts@.len(),
            tv == strings_view(texts@),
            content@ == bundle_content(tv.subrange(0, i as int)),
        decreases texts@.len() - i,
    {
        let ghost before = content@;
        content.append(texts[i].as_str());
        content.append("\n");
        proof {
            reveal_strlit("\n");
            assert("\n"@ =~= seq!['\n']);
            assert(tv.subrange(0, i + 1).drop_last() =~= tv.subrange(0, i as int));
            assert(tv.subrange(0, i + 1).last() == texts@[i as int]@);
            assert(content@ =~= before + texts@[i as int]@ + seq!['\n']);
        }
        i = i + 1;
    }
    assert(tv.subrange(0, i as int) =~= tv);
    let mut packages = split_string(content.as_str(), '\n');
    filter_packages(&mut packages);
    packages
}

/// Every package name taken from bundle files is one of their lines,
/// trimmed: it is not empty, is not a comment, has no whitespace at either
/// end and holds no line break.
pub proof fn lemma_packages_are_clean(texts: Seq<Seq<char>>)
    ensures
        forall|i: int|
            #![trigger packages_of(texts)[i]]
            0 <= i < packages_of(texts).len() ==> {
                &&& is_package_line(packages_of(texts)[i])
                &&& trim(packages_of(texts)[i]) == packages_of(texts)[i]
                &&& !packages_of(texts)[i].contains('\n')
            },
{
    let lines = split_on(bundle_content(texts), '\n');
    lemma_clean_packages_elements(lines);
    lemma_split_on_pieces(bundle_content(texts), '\n');
    assert forall|i: int|
        #![trigger packages_of(texts)[i]]
        0 <= i < packages_of(texts).len() implies !packages_of(texts)[i].contains('\n') by {
        let p = packages_of(texts)[i];
        assert(p == clean_packages(lines)[i]);
        let k = choose|k: int| 0 <= k < lines.len() && clean_packages(lines)[i] == trim(lines[k]);
        lemma_trim_shape(lines[k]);
        assert(!lines[k].contains('\n'));
    }
}

proof fn lemma_clean_packages_add(x: Seq<Seq<char>>, y: Seq<Seq<char>>)
    ensures
        clean_packages(x + y) == clean_packages(x) + clean_packages(y),
{
    let f = |l: Seq<char>| trim(l);
    let pred = |l: Seq<char>| is_package_line(l);
    assert((x + y).map_values(f) =~= x.map_values(f) + y.map_values(f));
    Seq::filter_distributes_over_add(x.map_values(f), y.map_values(f), pred);
}

proof fn lemma_clean_blank_line()
    ensures
        clean_packages(seq![Seq::<char>::empty()]) == Seq::<Seq<char>>::empty(),
{
    let m = seq![Seq::<char>::empty()].map_values(|l: Seq<char>| trim(l));
    assert(trim(Seq::<char>::empty()) == Seq::<char>::empty());
    assert(m =~= Seq::<Seq<char>>::empty().push(Seq::<char>::empty()));
    Seq::<Seq<char>>::empty().lemma_filter_push(Seq::<char>::empty(), |l: Seq<char>| is_package_line(l));
    reveal(Seq::filter);
}

/// The joined bundle text splits into the lines of its files and one empty
/// piece after the last line break; text appended after it splits on its
/// own.
proof fn lemma_split_bundle_content(texts: Seq<Seq<char>>, z: Seq<char>)
    ensures
        split_on(bundle_content(texts), '\n').len() >= 1,
        split_on(bundle_content(texts), '\n').last() == Seq::<char>::empty(),
        split_on(bundle_content(texts) + z, '\n') == split_on(bundle_content(texts), '\n').drop_last()
            + split_on(z, '\n'),
    decreases texts.len(),
{
    let b = bundle_content(texts);
    if texts.len() == 0 {
        assert(b + z =~= z);
    } else {
        let ts = texts.drop_last();
        let t = texts.last();
        let b0 = bundle_content(ts);
        let s0 = split_on(b0, '\n');
        lemma_split_bundle_content(ts, t + seq!['\n'] + z);
        lemma_split_bundle_content(ts, t + seq!['\n']);
        lemma_split_on_join(t, z, '\n');
        lemma_split_on_join(t, Seq::<char>::empty(), '\n');
        lemma_split_on_nonempty(t, '\n');
        assert(b + z =~= b0 + (t + seq!['\n'] + z));
        assert(b =~= b0 + (t + seq!['\n'] + Seq::<char>::empty()));
        assert(split_on(Seq::<char>::empty(), '\n') =~= seq![Seq::<char>::empty()]);
        let st = split_on(t, '\n');
        assert(split_on(b, '\n') =~= s0.drop_last() + st + seq![Seq::<char>::empty()]);
        assert(split_on(b, '\n').drop_last() =~= s0.drop_last() + st);
        assert(split_on(b + z, '\n') =~= s0.drop_last() + st + split_on(z, '\n'));
    }
}

proof fn lemma_packages_push(texts: Seq<Seq<char>>, t: Seq<char>)
    ensures
        packages_of(Seq::<Seq<char>>::empty()) == Seq::<Seq<char>>::empty(),
        packages_of(texts.push(t)) == packages_of(texts) + clean_packages(split_on(t, '\n')),
{
    lemma_clean_blank_line();
    assert(bundle_content(Seq::<Seq<char>>::empty()) == Seq::<char>::empty());
    assert(split_on(Seq::<char>::empty(), '\n') =~= seq![Seq::<char>::empty()]);
    let b = bundle_content(texts);
    let s = split_on(b, '\n');
    lemma_split_bundle_content(texts, t + seq!['\n']);
    lemma_split_bundle_content(texts, Seq::<char>::empty());
    assert(b + Seq::<char>::empty() =~= b);
    lemma_split_on_join(t, Seq::<char>::empty(), '\n');
    assert(t + seq!['\n'] =~= t + seq!['\n'] + Seq::<char>::empty());
    assert(texts.push(t).drop_last() =~= texts);
    assert(bundle_content(texts.push(t)) =~= b + (t + seq!['\n']));
    let st = split_on(t, '\n');
    let blank = seq![Seq::<char>::empty()];
    assert(split_on(bundle_content(texts.push(t)), '\n') =~= s.drop_last() + st + blank);
    assert(s =~= s.drop_last() + blank);
    lemma_clean_packages_add(s.drop_last(), blank);
    lemma_clean_packages_add(s.drop_last() + st, blank);
    lemma_clean_packages_add(s.drop_last(), st);
    assert(packages_of(texts) =~= clean_packages(s.drop_last()));
    assert(packages_of(texts.push(t)) =~= clean_packages(s.drop_last()) + clean_packages(st));
}

/// The packages of several bundle files are the packages of each file in
/// turn: no file's last line runs into the next file's first line, and a
/// single file gives the cleaned lines of its own text.
pub proof fn lemma_packages_file_by_file(texts: Seq<Seq<char>>, t: Seq<char>)
    ensures
        packages_of(Seq::<Seq<char>>::empty()) == Seq::<Seq<char>>::empty(),
        packages_of(texts.push(t)) == packages_of(texts) + clean_packages(split_on(t, '\n')),
        packages_of(seq![t]) == clean_packages(split_on(t, '\n')),
{
    lemma_packages_push(texts, t);
    lemma_packages_push(Seq::<Seq<char>>::empty(), t);
    assert(Seq::<Seq<char>>::empty().push(t) =~= seq![t]);
    assert(Seq::<Seq<char>>::empty() + clean_packages(split_on(t, '\n')) =~= clean_packages(split_on(t, '\n')));
}

/// `[name]` when `chosen`, nothing otherwise.
pub open spec fn chosen_bundle(chosen: bool, name: Seq<char>) -> Seq<Seq<char>> {
    if chosen {
        seq![name]
    } else {
        Seq::<Seq<char>>::empty()
    }
}

/// The bundles to install for a profile, in the order they are read: the
/// base bundle, then multimedia, nightly, desktop, utils, AMD GPU and Intel
/// GPU as chosen.
pub open spec fn bundle_names(p: PackageProfile) -> Seq<Seq<char>> {
    seq!["base"@] + chosen_bundle(p.multimedia, "multimedia"@) + chosen_bundle(
        p.nightly,
        "nightly"@,
    ) + chosen_bundle(p.desktop, "desktop"@) + chosen_bundle(p.utils, "utils"@) + chosen_bundle(
        p.amd_gpu,
        "amd_gpu"@,
    ) + chosen_bundle(p.intel_gpu, "intel_gpu"@)
}

/// The base bundle always comes first, and each optional bundle is chosen
/// exactly when its own flag is set.
#[verifier::spinoff_prover]
#[verifier::rlimit(60)]
pub proof fn lemma_bundle_names_follow_flags(p: PackageProfile)
    ensures
        bundle_names(p)[0] == "base"@,
        bundle_names(p).contains("multimedia"@) <==> p.multimedia,
        bundle_names(p).contains("nightly"@) <==> p.nightly,
        bundle_names(p).contains("desktop"@) <==> p.desktop,
        bundle_names(p).contains("utils"@) <==> p.utils,
        bundle_names(p).contains("amd_gpu"@) <==> p.amd_gpu,
        bundle_names(p).contains("intel_gpu"@) <==> p.intel_gpu,
{
    reveal_strlit("base");
    reveal_strlit("multimedia");
    reveal_strlit("nightly");
    reveal_strlit("desktop");
    reveal_strlit("utils");
    reveal_strlit("amd_gpu");
    reveal_strlit("intel_gpu");
    let all = seq!["base"@, "multimedia"@, "nightly"@, "desktop"@, "utils"@, "amd_gpu"@, "intel_gpu"@];
    let flags = seq![true, p.multimedia, p.nightly, p.desktop, p.utils, p.amd_gpu, p.intel_gpu];
    assert(all[0].len() == 4 && all[1].len() == 10 && all[2].len() == 7 && all[3].len() == 7);
    assert(all[4].len() == 5 && all[5].len() == 7 && all[6].len() == 9);
    assert(all[2][0] == 'n' && all[3][0] == 'd' && all[5][0] == 'a');
    assert forall|a: int, b: int| 0 <= a < 7 && 0 <= b < 7 && a != b implies all[a] != all[b] by {
        if all[a] == all[b] {
            assert(all[a].len() == all[b].len());
            assert(all[a][0] == all[b][0]);
        }
    }
    let names = bundle_names(p);
    // every listed name is one of the known names whose flag is set
    assert forall|k: int| 0 <= k < names.len() implies exists|j: int|
        0 <= j < 7 && flags[j] && #[trigger] names[k] == all[j] by {
        let s1 = seq!["base"@] + chosen_bundle(p.multimedia, "multimedia"@);
        let s2 = s1 + chosen_bundle(p.nightly, "nightly"@);
        let s3 = s2 + chosen_bundle(p.desktop, "desktop"@);
        let s4 = s3 + chosen_bundle(p.utils, "utils"@);
        let s5 = s4 + chosen_bundle(p.amd_gpu, "amd_gpu"@);
        assert(names == s5 + chosen_bundle(p.intel_gpu, "intel_gpu"@));
        if k >= s5.len() {
            assert(names[k] == all[6]);
        } else if k >= s4.len() {
            assert(names[k] == s5[k]);
            assert(names[k] == all[5]);
        } else if k >= s3.len() {
            assert(names[k] == s4[k]);
            assert(names[k] == all[4]);
        } else if k >= s2.len() {
            assert(names[k] == s3[k]);
            assert(names[k] == all[3]);
        } else if k >= s1.len() {
            assert(names[k] == s2[k]);
            assert(names[k] == all[2]);
        } else if k >= 1 {
            assert(names[k] == s1[k]);
            assert(names[k] == all[1]);
        } else {
            assert(names[k] == all[0]);
        }
    }
    assert forall|j: int| 1 <= j < 7 implies (names.contains(all[j]) <==> flags[j]) by {
        if names.contains(all[j]) {
            let k = choose|k: int| 0 <= k < names.len() && names[k] == all[j];
            let j2 = choose|j2: int| 0 <= j2 < 7 && flags[j2] && #[trigger] names[k] == all[j2];
            assert(j2 == j);
        }
        if flags[j] {
            let s1 = seq!["base"@] + chosen_bundle(p.multimedia, "multimedia"@);
            let s2 = s1 + chosen_bundle(p.nightly, "nightly"@);
            let s3 = s2 + chosen_bundle(p.desktop, "desktop"@);
            let s4 = s3 + chosen_bundle(p.utils, "utils"@);
            let s5 = s4 + chosen_bundle(p.amd_gpu, "amd_gpu"@);
            assert(names == s5 + chosen_bundle(p.intel_gpu, "intel_gpu"@));
            if j == 1 {
                assert(names[1] == all[1]);
            } else if j == 2 {
                assert(names[s1.len() as int] == all[2]);
            } else if j == 3 {
                assert(names[s2.len() as int] == all[3]);
            } else if j == 4 {
                assert(names[s3.len() as int] == all[4]);
            } else if j == 5 {
                assert(names[s4.len() as int] == all[5]);
            } else {
                assert(names[s5.len() as int] == all[6]);
            }
        }
    }
    assert(names.contains(all[1]) <==> flags[1]);
    assert(names.contains(all[2]) <==> flags[2]);
    assert(names.contains(all[3]) <==> flags[3]);
    assert(names.contains(all[4]) <==> flags[4]);
    assert(names.contains(all[5]) <==> flags[5]);
    assert(names.contains(all[6]) <==> flags[6]);
}

/// The names of the bundles to install for `params`, as [`bundle_names`].
pub fn package_bundles(params: PackageProfile) -> (names: Vec<&'static str>)
    ensures
        strs_view(names@) == bundle_names(params),
        strs_view(names@)[0] == "base"@,
        strs_view(names@).contains("multimedia"@) <==> params.multimedia,
        strs_view(names@).contains("nightly"@) <==> params.nightly,
        strs_view(names@).contains("desktop"@) <==> params.desktop,
        strs_view(names@).contains("utils"@) <==> params.utils,
        strs_view(names@).contains("amd_gpu"@) <==> params.amd_gpu,
        strs_view(names@).contains("intel_gpu"@) <==> params.intel_gpu,
{
    let mut names: Vec<&'static str> = Vec::new();
    names.push("base");
    if params.multimedia {
        names.push("multimedia");
    }
    if params.nightly {
        names.push("nightly");
    }
    if params.desktop {
        names.push("desktop");
    }
    if params.utils {
        names.push("utils");
    }
    if params.amd_gpu {
        names.push("amd_gpu");
    }
    if params.intel_gpu {
        names.push("intel_gpu");
    }
    assert(strs_view(names@) =~= bundle_names(params));
    proof { lemma_bundle_names_follow_flags(params); }
    names
}

/// The file that lists the packages of bundle `pack_name`.
pub fn bundle_path(pack_name: &str) -> (path: String)
    ensures
        path@ == "./packages/"@ + pack_name@ + ".x86_64"@,
{
    let mut path = String::from_str("./packages/");
    path.append(pack_name);
    path.append(".x86_64");
    path
}


/// The command that installs `packages` into the system mounted on `/mnt`.
pub fn pacstrap_command(packages: &Vec<String>) -> (c: ShellCommand)
    ensures
        c@ == ("pacstrap"@, seq!["-K"@, "/mnt"@] + strings_view(packages@)),
{
    let mut args: Vec<String> = Vec::new();
    args.push(String::from_str("-K"));
    args.push(String::from_str("/mnt"));
    let mut i: usize = 0;
    while i < packages.len()
        invariant
            i <= packages@.len(),
            strings_view(args@) == seq!["-K"@, "/mnt"@] + strings_view(packages@.subrange(0, i as int)),
        decreases packages@.len() - i,
    {
        let ghost before = args@;
        args.push(packages[i].clone());
        assert(strings_view(args@) =~= strings_view(before).push(packages@[i as int]@));
        assert(strings_view(packages@.subrange(0, i + 1)) =~= strings_view(
            packages@.subrange(0, i as int),
        ).push(packages@[i as int]@));
        i = i + 1;
    }
    assert(packages@.subrange(0, i as int) =~= packages@);
    ShellCommand { program: String::from_str("pacstrap"), args }
}

/// The boot mode as the installation script reads it.
pub open spec fn legacy_flag(is_legacy: bool) -> Seq<char> {
    if is_legacy {
        "true"@
    } else {
        "false"@
    }
}

/// The command that runs the installation script inside the new system,
/// giving it the user's name and password, the boot mode and the device.
pub open spec fn chroot_plan(user: User, device_name: Seq<char>, is_legacy: bool) -> (Seq<char>, Seq<Seq<char>>) {
    (
        "arch-chroot"@,
        seq![
            "/mnt"@,
            "/install.sh"@,
            user.name@,
            user.password@,
            legacy_flag(is_legacy),
            partitions::dev_path(device_name, 0),
        ],
    )
}

/// The command of [`chroot_plan`].
pub fn chroot_command(user: &User, device: &Device, is_legacy: bool) -> (c: ShellCommand)
    ensures
        c@ == chroot_plan(*user, device.name@, is_legacy),
{
    let mut args: Vec<String> = Vec::new();
    args.push(String::from_str("/mnt"));
    args.push(String::from_str("/install.sh"));
    args.push(user.name.clone());
    args.push(user.password.clone());
    args.push(String::from_str(if is_legacy { "true" } else { "false" }));
    args.push(partitions::slashdev(device.name.as_str(), 0));
    let c = ShellCommand { program: String::from_str("arch-chroot"), args };
    assert(c@.1 =~= chroot_plan(*user, device.name@, is_legacy).1);
    c
}

} // verus!
