//! Filesystem stats service: partitions from mountinfo, usage from statvfs
//! numbers, per-disk I/O counters from `/proc/diskstats`.

use vstd::prelude::*;

use crate::model::FilesystemInfo;
use crate::parse::{lines_of, mount_from, mount_rows, parse_mountinfo, DiskStatsLine, MountInfoLine};
use crate::order::str_eq;
use crate::text::{chars_of, lines, push_all, push_char, starts_with, u64_field};

verus! {

/// Filesystem types whose capacity and usage are collected.
pub open spec fn supported_fs_spec(t: Seq<char>) -> bool {
    t == "btrfs"@ || t == "ext2"@ || t == "ext3"@ || t == "ext4"@ || t == "xfs"@ || t == "zfs"@ || t == "overlay"@
        || t == "tmpfs"@
}

pub fn supported_fs(fs_type: &str) -> (b: bool)
    ensures
        b == supported_fs_spec(fs_type@),
{
    str_eq(fs_type, "btrfs") || str_eq(fs_type, "ext2") || str_eq(fs_type, "ext3") || str_eq(fs_type, "ext4")
        || str_eq(fs_type, "xfs") || str_eq(fs_type, "zfs") || str_eq(fs_type, "overlay") || str_eq(fs_type, "tmpfs")
}

pub struct Partition {
    pub device: String,
    pub mountpoint: String,
    pub fs_type: String,
    pub major: u64,
    pub minor: u64,
}

/// A partition as values: device, mountpoint, type, major, minor.
pub type PartV = (Seq<char>, Seq<char>, Seq<char>, u64, u64);

pub open spec fn part_view(p: Partition) -> PartV {
    (p.device@, p.mountpoint@, p.fs_type@, p.major, p.minor)
}

pub open spec fn parts_view(s: Seq<Partition>) -> Seq<PartV> {
    Seq::new(s.len(), |i: int| part_view(s[i]))
}

/// A mount as values: major, minor, mountpoint, type, source.
pub type MountV = (u64, u64, Seq<char>, Seq<char>, Seq<char>);

/// The mounts of a mountinfo text, in order.
pub open spec fn mounts_of(content: Seq<char>) -> Seq<MountV> {
    let rows = mount_rows(lines(content));
    Seq::new(rows.len(), |i: int| (u64_field(rows[i].2), u64_field(rows[i].3), rows[i].0[4], rows[i].1[0], rows[i].1[1]))
}

/// Partitions of the mounts: supported types only, one per source device
/// (bind mounts dedupe) but one per mountpoint for tmpfs, whose device is
/// reported as its mountpoint. Also the keys seen.
pub open spec fn partitions_of(ms: Seq<MountV>) -> (Seq<PartV>, Seq<Seq<char>>)
    decreases ms.len(),
{
    if ms.len() == 0 {
        (Seq::empty(), Seq::empty())
    } else {
        let (ps, seen) = partitions_of(ms.drop_last());
        let m = ms.last();
        if !supported_fs_spec(m.3) {
            (ps, seen)
        } else {
            let tmpfs = m.3 == "tmpfs"@;
            let key = if tmpfs {
                m.2
            } else {
                m.4
            };
            if seen.contains(key) {
                (ps, seen)
            } else {
                (ps.push((key, m.2, m.3, m.0, m.1)), seen.push(key))
            }
        }
    }
}

/// statvfs-derived numbers for one filesystem.
#[derive(Debug, Default, Clone, Copy)]
pub struct FsUsage {
    pub capacity: u64,
    pub free: u64,
    pub available: u64,
    pub inodes: u64,
    pub inodes_free: u64,
}

/// Usage from statvfs counts: blocks times the fragment size.
pub fn usage_from_statvfs(blocks: u64, bfree: u64, bavail: u64, files: u64, ffree: u64, frsize: u64) -> (u: FsUsage)
    requires
        blocks * frsize <= u64::MAX,
        bfree * frsize <= u64::MAX,
        bavail * frsize <= u64::MAX,
    ensures
        u.capacity == blocks * frsize,
        u.free == bfree * frsize,
        u.available == bavail * frsize,
        u.inodes == files,
        u.inodes_free == ffree,
{
    FsUsage { capacity: blocks * frsize, free: bfree * frsize, available: bavail * frsize, inodes: files, inodes_free: ffree }
}

pub struct FsService {
    pub partitions: Vec<Partition>,
}

fn has_key(seen: &Vec<String>, k: &str) -> (b: bool)
    ensures
        b == seen@.map_values(|s: String| s@).contains(k@),
{
    let ghost sv = seen@.map_values(|s: String| s@);
    let mut i: usize = 0;
    while i < seen.len()
        invariant
            i <= seen@.len(),
            sv == seen@.map_values(|s: String| s@),
            forall|m: int| 0 <= m < i ==> sv[m] != k@,
        decreases seen.len() - i,
    {
        if str_eq(seen[i].as_str(), k) {
            assert(sv[i as int] == k@);
            return true;
        }
        i += 1;
    }
    false
}

impl FsService {
    /// The partitions of a mountinfo text.
    pub fn from_mountinfo(content: &str) -> (f: FsService)
        ensures
            parts_view(f.partitions@) == partitions_of(mounts_of(content@)).0,
    {
        let mounts = parse_mountinfo(content);
        let ghost ms = mounts_of(content@);
        assert forall|j: int| 0 <= j < mounts@.len() implies (#[trigger] mounts@[j].major, mounts@[j].minor, mounts@[j].mountpoint@, mounts@[j].fs_type@, mounts@[j].source@) == ms[j] by {
            assert(mount_from(mounts@[j], mount_rows(lines(content@))[j]));
        }
        let mut parts: Vec<Partition> = Vec::new();
        let mut seen: Vec<String> = Vec::new();
        let mut i: usize = 0;
        while i < mounts.len()
            invariant
                i <= mounts@.len() == ms.len(),
                forall|j: int| 0 <= j < mounts@.len() ==> (#[trigger] mounts@[j].major, mounts@[j].minor, mounts@[j].mountpoint@, mounts@[j].fs_type@, mounts@[j].source@) == ms[j],
                (parts_view(parts@), seen@.map_values(|s: String| s@)) == partitions_of(ms.take(i as int)),
            decreases mounts.len() - i,
        {
            let m = &mounts[i];
            assert(ms.take(i + 1).drop_last() == ms.take(i as int));
            assert(ms.take(i + 1).last() == ms[i as int]);
            if supported_fs(m.fs_type.as_str()) {
                let tmpfs = str_eq(m.fs_type.as_str(), "tmpfs");
                let key = if tmpfs {
                    m.mountpoint.clone()
                } else {
                    m.source.clone()
                };
                if !has_key(&seen, key.as_str()) {
                    let ghost pv = parts@;
                    let ghost sv = seen@;
                    let p = Partition {
                        device: key.clone(),
                        mountpoint: m.mountpoint.clone(),
                        fs_type: m.fs_type.clone(),
                        major: m.major,
                        minor: m.minor,
                    };
                    parts.push(p);
                    seen.push(key);
                    assert(parts_view(parts@) =~= parts_view(pv).push(part_view(p)));
                    assert(seen@.map_values(|s: String| s@) =~= sv.map_values(|s: String| s@).push(key@));
                }
            }
            i += 1;
        }
        assert(ms.take(ms.len() as int) == ms);
        FsService { partitions: parts }
    }

    pub fn partitions(&self) -> (r: &[Partition])
        ensures
            r@ == self.partitions@,
    {
        self.partitions.as_slice()
    }
}

/// Whether a partition mounted at `mp` holds `path`.
pub open spec fn covers(path: Seq<char>, mp: Seq<char>) -> bool {
    path == mp || starts_with(path, crate::events::trim_slash_end(mp) + seq!['/'])
}

/// The partition holding `path` with the longest mountpoint (the last one
/// listed among equally long ones).
pub open spec fn best_partition(ps: Seq<PartV>, path: Seq<char>) -> Option<int>
    decreases ps.len(),
{
    if ps.len() == 0 {
        None
    } else {
        let b = best_partition(ps.drop_last(), path);
        let i = ps.len() - 1;
        if !covers(path, ps[i].1) {
            b
        } else {
            match b {
                None => Some(i),
                Some(j) => if ps[i].1.len() >= ps[j].1.len() {
                    Some(i)
                } else {
                    Some(j)
                },
            }
        }
    }
}

/// Whether a partition mounted at `mp` holds `path`.
fn covers_exec(path: &str, mp: &str) -> (b: bool)
    ensures
        b == covers(path@, mp@),
{
    if str_eq(path, mp) {
        return true;
    }
    let m = chars_of(mp);
    let mut e = m.len();
    assert(m@.take(e as int) == m@);
    while e > 0 && m[e - 1] == '/'
        invariant
            e <= m@.len(),
            crate::events::trim_slash_end(m@) == crate::events::trim_slash_end(m@.take(e as int)),
        decreases e,
    {
        assert(m@.take(e as int).drop_last() == m@.take(e - 1));
        e -= 1;
    }
    proof {
        if e > 0 {
            assert(m@.take(e as int).last() == m@[e - 1]);
        }
    }
    let ghost pre = crate::events::trim_slash_end(mp@) + seq!['/'];
    assert(pre == m@.take(e as int).push('/'));
    let p = chars_of(path);
    if p.len() <= e {
        return false;
    }
    let mut j: usize = 0;
    while j < e
        invariant
            j <= e < p@.len(),
            e <= m@.len(),
            pre == m@.take(e as int).push('/'),
            pre == crate::events::trim_slash_end(mp@) + seq!['/'],
            p@ == path@,
            m@ == mp@,
            path@ != mp@,
            forall|k: int| 0 <= k < j ==> p@[k] == m@[k],
        decreases e - j,
    {
        if p[j] != m[j] {
            assert(p@.take(pre.len() as int)[j as int] != pre[j as int]);
            return false;
        }
        j += 1;
    }
    if p[e] != '/' {
        assert(p@.take(pre.len() as int)[e as int] != pre[e as int]);
        return false;
    }
    assert(p@.take(pre.len() as int) =~= pre);
    true
}

impl FsService {
    /// The partition whose mountpoint is the longest prefix of `path`.
    pub fn partition_for_path(&self, path: &str) -> (r: Option<&Partition>)
        ensures
            match best_partition(parts_view(self.partitions@), path@) {
                Some(i) => r matches Some(p) && part_view(*p) == parts_view(self.partitions@)[i],
                None => r is None,
            },
    {
        let ghost pv = parts_view(self.partitions@);
        let mut best: Option<usize> = None;
        let mut i: usize = 0;
        while i < self.partitions.len()
            invariant
                i <= self.partitions@.len(),
                pv == parts_view(self.partitions@),
                best == match best_partition(pv.take(i as int), path@) {
                    Some(k) => Some(k as usize),
                    None => None::<usize>,
                },
                best matches Some(k) ==> k < i,
                best_partition(pv.take(i as int), path@) matches Some(k) ==> 0 <= k < i,
            decreases self.partitions.len() - i,
        {
            assert(pv.take(i + 1).drop_last() == pv.take(i as int));
            assert(pv.take(i + 1)[i as int] == pv[i as int]);
            let p = &self.partitions[i];
            if covers_exec(path, p.mountpoint.as_str()) {
                best = match best {
                    None => Some(i),
                    Some(j) => {
                        assert(pv.take(i + 1)[j as int] == pv[j as int]);
                        if p.mountpoint.as_str().unicode_len() >= self.partitions[j].mountpoint.as_str().unicode_len() {
                            Some(i)
                        } else {
                            Some(j)
                        }
                    },
                };
            }
            i += 1;
        }
        assert(pv.take(pv.len() as int) == pv);
        match best {
            Some(k) => Some(&self.partitions[k]),
            None => None,
        }
    }

    /// The machine's filesystems: every partition whose usage could be read
    /// (`usages[i]` of partition `i`), with its capacity and inodes.
    pub fn machine_filesystems(&self, usages: &Vec<Option<FsUsage>>) -> (r: Vec<FilesystemInfo>)
        requires
            usages@.len() == self.partitions@.len(),
        ensures
            fs_infos_view(r@) == fs_infos(parts_view(self.partitions@), usages@),
    {
        let mut out: Vec<FilesystemInfo> = Vec::new();
        let mut i: usize = 0;
        while i < self.partitions.len()
            invariant
                i <= self.partitions@.len() == usages@.len(),
                fs_infos_view(out@) == fs_infos(parts_view(self.partitions@).take(i as int), usages@.take(i as int)),
            decreases self.partitions.len() - i,
        {
            assert(usages@.take(i + 1).drop_last() == usages@.take(i as int));
            assert(parts_view(self.partitions@).take(i + 1).drop_last() == parts_view(self.partitions@).take(i as int));
            let ghost before = out@;
            match &usages[i] {
                Some(u) => {
                    let p = &self.partitions[i];
                    let mut vfs = String::new();
                    push_all(&mut vfs, "vfs");
                    out.push(FilesystemInfo {
                        device: p.device.clone(),
                        device_major: p.major,
                        device_minor: p.minor,
                        capacity: u.capacity,
                        fs_type: vfs,
                        inodes: u.inodes,
                        has_inodes: true,
                    });
                    assert(fs_infos_view(out@) =~= fs_infos_view(before).push((p.device@, p.major, p.minor, u.capacity, "vfs"@, u.inodes, true)));
                },
                None => {},
            }
            i += 1;
        }
        assert(usages@.take(usages@.len() as int) == usages@);
        assert(parts_view(self.partitions@).take(usages@.len() as int) == parts_view(self.partitions@));
        out
    }
}

/// A machine filesystem as values: device, major, minor, capacity, type,
/// inodes, whether inodes are known.
pub type FsInfoV = (Seq<char>, u64, u64, u64, Seq<char>, u64, bool);

pub open spec fn fs_infos_view(s: Seq<FilesystemInfo>) -> Seq<FsInfoV> {
    Seq::new(s.len(), |i: int| (s[i].device@, s[i].device_major, s[i].device_minor, s[i].capacity, s[i].fs_type@, s[i].inodes, s[i].has_inodes))
}

/// The machine's filesystems: each partition with a usage, as a `vfs`
/// filesystem with its capacity and inode count.
pub open spec fn fs_infos(ps: Seq<PartV>, us: Seq<Option<FsUsage>>) -> Seq<FsInfoV>
    decreases us.len(),
{
    if us.len() == 0 || ps.len() < us.len() {
        Seq::empty()
    } else {
        let n = us.len() - 1;
        fs_infos(ps.take(n), us.drop_last()) + match us.last() {
            Some(u) => seq![(ps[n].0, ps[n].3, ps[n].4, u.capacity, "vfs"@, u.inodes, true)],
            None => Seq::empty(),
        }
    }
}

/// The counters of disk `major:minor` (the last line for it).
pub open spec fn disk_counters(ds: Seq<DiskStatsLine>, major: u64, minor: u64) -> Option<DiskStatsLine>
    decreases ds.len(),
{
    if ds.len() == 0 {
        None
    } else if ds.last().major == major && ds.last().minor == minor {
        Some(ds.last())
    } else {
        disk_counters(ds.drop_last(), major, minor)
    }
}

pub fn find_disk(ds: &Vec<DiskStatsLine>, major: u64, minor: u64) -> (r: Option<&DiskStatsLine>)
    ensures
        match disk_counters(ds@, major, minor) {
            Some(d) => r matches Some(x) && *x == d,
            None => r is None,
        },
{
    let mut i = ds.len();
    assert(ds@.take(i as int) == ds@);
    while i > 0
        invariant
            i <= ds@.len(),
            disk_counters(ds@, major, minor) == disk_counters(ds@.take(i as int), major, minor),
        decreases i,
    {
        assert(ds@.take(i as int).drop_last() == ds@.take(i - 1));
        assert(ds@.take(i as int).last() == ds@[i - 1]);
        if ds[i - 1].major == major && ds[i - 1].minor == minor {
            return Some(&ds[i - 1]);
        }
        i -= 1;
    }
    None
}

/// Positions of the present entries, in order: the partitions whose usage
/// could be read.
pub open spec fn kept<T>(us: Seq<Option<T>>) -> Seq<int>
    decreases us.len(),
{
    if us.len() == 0 {
        Seq::empty()
    } else {
        kept(us.drop_last()) + if us.last() is Some {
            seq![us.len() - 1]
        } else {
            Seq::<int>::empty()
        }
    }
}

/// `kept` grows by one position at a present entry.
pub proof fn lemma_kept_step<T>(us: Seq<Option<T>>, i: int)
    requires
        0 <= i < us.len(),
    ensures
        kept(us.take(i + 1)) == kept(us.take(i)) + if us[i] is Some {
            seq![i]
        } else {
            Seq::<int>::empty()
        },
{
    assert(us.take(i + 1).drop_last() =~= us.take(i));
}

/// Every kept position is a present entry.
pub proof fn lemma_kept_bounds<T>(us: Seq<Option<T>>)
    ensures
        forall|j: int| 0 <= j < kept(us).len() ==> 0 <= #[trigger] kept(us)[j] < us.len() && us[kept(us)[j]] is Some,
    decreases us.len(),
{
    if us.len() > 0 {
        lemma_kept_bounds(us.drop_last());
        assert forall|j: int| 0 <= j < kept(us).len() implies 0 <= #[trigger] kept(us)[j] < us.len() && us[kept(us)[j]] is Some by {
            if j < kept(us.drop_last()).len() {
                assert(kept(us)[j] == kept(us.drop_last())[j]);
                assert(us.drop_last()[kept(us)[j]] == us[kept(us)[j]]);
            }
        }
    }
}

/// The counters found for a disk are one of the lines.
pub proof fn lemma_disk_counters_at(ds: Seq<DiskStatsLine>, major: u64, minor: u64) -> (k: int)
    requires
        disk_counters(ds, major, minor) is Some,
    ensures
        0 <= k < ds.len(),
        ds[k] == disk_counters(ds, major, minor)->0,
    decreases ds.len(),
{
    if ds.last().major == major && ds.last().minor == minor {
        ds.len() - 1
    } else {
        let k = lemma_disk_counters_at(ds.drop_last(), major, minor);
        assert(ds.drop_last()[k] == ds[k]);
        k
    }
}

} // verus!
