//! Parsers for cgroup-v2, procfs and sysfs file contents.
//!
//! Every parser takes the file's text and is total: a malformed numeric
//! field reads as 0 (a malformed kernel file degrades, it does not error).
//! Each contract states the result as a fold over `lines(content)`.

use vstd::prelude::*;

use crate::model::{InterfaceStats, TcpStat, UdpStat};
use crate::text::{ascii_lower, drop_n, find_sub, find_sub_in, i64_field, i64_field_of, lemma_radix_val_nonneg, unsigned_digits, chars_of, copy_range, find_char, find_char_in, line_ranges, lines, lower_range, parse_radix, parse_unsigned, range_eq, range_starts_with, split_once_char, split_once_in, starts_with, string_of, trim, trim_range, u64_field, u64_field_of, word_ranges, words};

verus! {

/// `cpu.stat` — microsecond values.
#[derive(Debug, Default, Clone, PartialEq)]
pub struct CpuStatFile {
    pub usage_usec: u64,
    pub user_usec: u64,
    pub system_usec: u64,
    pub nr_periods: u64,
    pub nr_throttled: u64,
    pub throttled_usec: u64,
}

pub open spec fn zero_cpu_stat() -> CpuStatFile {
    CpuStatFile {
        usage_usec: 0,
        user_usec: 0,
        system_usec: 0,
        nr_periods: 0,
        nr_throttled: 0,
        throttled_usec: 0,
    }
}

/// One `key value` line of `cpu.stat` applied to what the earlier lines gave.
pub open spec fn cpu_stat_step(acc: CpuStatFile, l: Seq<char>) -> CpuStatFile {
    match split_once_char(l, ' ') {
        None => acc,
        Some((k, v)) => {
            let x = u64_field(v);
            if k == "usage_usec"@ {
                CpuStatFile { usage_usec: x, ..acc }
            } else if k == "user_usec"@ {
                CpuStatFile { user_usec: x, ..acc }
            } else if k == "system_usec"@ {
                CpuStatFile { system_usec: x, ..acc }
            } else if k == "nr_periods"@ {
                CpuStatFile { nr_periods: x, ..acc }
            } else if k == "nr_throttled"@ {
                CpuStatFile { nr_throttled: x, ..acc }
            } else if k == "throttled_usec"@ {
                CpuStatFile { throttled_usec: x, ..acc }
            } else {
                acc
            }
        },
    }
}

pub open spec fn cpu_stat_of(ls: Seq<Seq<char>>) -> CpuStatFile
    decreases ls.len(),
{
    if ls.len() == 0 {
        zero_cpu_stat()
    } else {
        cpu_stat_step(cpu_stat_of(ls.drop_last()), ls.last())
    }
}

/// Splits `content` into its characters and the ranges of its lines.
pub fn lines_of(content: &str) -> (r: (Vec<char>, Vec<(usize, usize)>))
    ensures
        r.0@ == content@,
        r.1@.len() == lines(content@).len(),
        forall|j: int| 0 <= j < r.1@.len() ==> #[trigger] r.1@[j].0 <= r.1@[j].1 <= r.0.len(),
        forall|j: int|
            0 <= j < r.1@.len() ==> #[trigger] r.0@.subrange(r.1@[j].0 as int, r.1@[j].1 as int)
                == lines(content@)[j],
{
    let v = chars_of(content);
    let ls = line_ranges(&v);
    (v, ls)
}

#[verifier::spinoff_prover]
pub fn parse_cpu_stat(content: &str) -> (out: CpuStatFile)
    ensures
        out == cpu_stat_of(lines(content@)),
{
    let (v, ls) = lines_of(content);
    let k_usage = chars_of("usage_usec");
    let k_user = chars_of("user_usec");
    let k_system = chars_of("system_usec");
    let k_periods = chars_of("nr_periods");
    let k_throttled = chars_of("nr_throttled");
    let k_throttled_usec = chars_of("throttled_usec");
    let mut out = CpuStatFile {
        usage_usec: 0,
        user_usec: 0,
        system_usec: 0,
        nr_periods: 0,
        nr_throttled: 0,
        throttled_usec: 0,
    };
    let ghost all = lines(content@);
    let mut j: usize = 0;
    while j < ls.len()
        invariant
            j <= ls@.len() == all.len(),
            v@ == content@,
            all == lines(content@),
            forall|i: int| 0 <= i < ls@.len() ==> #[trigger] ls@[i].0 <= ls@[i].1 <= v.len(),
            forall|i: int|
                0 <= i < ls@.len() ==> #[trigger] v@.subrange(ls@[i].0 as int, ls@[i].1 as int)
                    == all[i],
            out == cpu_stat_of(all.take(j as int)),
            k_usage@ == "usage_usec"@,
            k_user@ == "user_usec"@,
            k_system@ == "system_usec"@,
            k_periods@ == "nr_periods"@,
            k_throttled@ == "nr_throttled"@,
            k_throttled_usec@ == "throttled_usec"@,
        decreases ls.len() - j,
    {
        let (lo, hi) = ls[j];
        assert(all.take(j + 1).drop_last() =~= all.take(j as int));
        assert(all.take(j + 1).last() == all[j as int]);
        assert(v@.subrange(lo as int, hi as int) == all[j as int]);
        if let Some(i) = split_once_in(&v, lo, hi, ' ') {
            let x = u64_field_of(&v, i + 1, hi);
            if range_eq(&v, lo, i, &k_usage) {
                out.usage_usec = x;
            } else if range_eq(&v, lo, i, &k_user) {
                out.user_usec = x;
            } else if range_eq(&v, lo, i, &k_system) {
                out.system_usec = x;
            } else if range_eq(&v, lo, i, &k_periods) {
                out.nr_periods = x;
            } else if range_eq(&v, lo, i, &k_throttled) {
                out.nr_throttled = x;
            } else if range_eq(&v, lo, i, &k_throttled_usec) {
                out.throttled_usec = x;
            }
        }
        j += 1;
    }
    assert(all.take(ls.len() as int) =~= all);
    out
}

} // verus!

verus! {

/// The `memory.stat` keys consumed on cgroup v2.
#[derive(Debug, Default, Clone, PartialEq)]
pub struct MemoryStatFile {
    pub anon: u64,
    pub file: u64,
    pub file_mapped: u64,
    pub inactive_file: u64,
    pub pgfault: u64,
    pub pgmajfault: u64,
}

pub open spec fn memory_stat_step(acc: MemoryStatFile, l: Seq<char>) -> MemoryStatFile {
    match split_once_char(l, ' ') {
        None => acc,
        Some((k, v)) => {
            let x = u64_field(v);
            if k == "anon"@ {
                MemoryStatFile { anon: x, ..acc }
            } else if k == "file"@ {
                MemoryStatFile { file: x, ..acc }
            } else if k == "file_mapped"@ {
                MemoryStatFile { file_mapped: x, ..acc }
            } else if k == "inactive_file"@ {
                MemoryStatFile { inactive_file: x, ..acc }
            } else if k == "pgfault"@ {
                MemoryStatFile { pgfault: x, ..acc }
            } else if k == "pgmajfault"@ {
                MemoryStatFile { pgmajfault: x, ..acc }
            } else {
                acc
            }
        },
    }
}

pub open spec fn memory_stat_of(ls: Seq<Seq<char>>) -> MemoryStatFile
    decreases ls.len(),
{
    if ls.len() == 0 {
        MemoryStatFile {
            anon: 0,
            file: 0,
            file_mapped: 0,
            inactive_file: 0,
            pgfault: 0,
            pgmajfault: 0,
        }
    } else {
        memory_stat_step(memory_stat_of(ls.drop_last()), ls.last())
    }
}

/// The `memory.stat` keys that are read.
pub open spec fn memory_stat_key(k: Seq<char>) -> bool {
    k == "anon"@ || k == "file"@ || k == "file_mapped"@ || k == "inactive_file"@ || k == "pgfault"@
        || k == "pgmajfault"@
}

/// The counter of `m` that the key `k` names.
pub open spec fn memory_stat_field(m: MemoryStatFile, k: Seq<char>) -> u64 {
    if k == "anon"@ {
        m.anon
    } else if k == "file"@ {
        m.file
    } else if k == "file_mapped"@ {
        m.file_mapped
    } else if k == "inactive_file"@ {
        m.inactive_file
    } else if k == "pgfault"@ {
        m.pgfault
    } else {
        m.pgmajfault
    }
}

/// The key of a `memory.stat` line, the text before its first space.
pub open spec fn line_key(l: Seq<char>) -> Option<Seq<char>> {
    match split_once_char(l, ' ') {
        Some((k, _)) => Some(k),
        None => None,
    }
}

/// Each counter read from `memory.stat` is the value on the last line with
/// its key: where line `i` is `<k> <v>` and no later line has key `k`, the
/// counter `k` is `v` read as a number.
pub proof fn lemma_memory_stat_last_line(ls: Seq<Seq<char>>, i: int, k: Seq<char>, v: Seq<char>)
    requires
        memory_stat_key(k),
        0 <= i < ls.len(),
        split_once_char(ls[i], ' ') == Some((k, v)),
        forall|j: int| i < j < ls.len() ==> line_key(#[trigger] ls[j]) != Some(k),
    ensures
        memory_stat_field(memory_stat_of(ls), k) == u64_field(v),
    decreases ls.len(),
{
    reveal_strlit("anon");
    reveal_strlit("file");
    reveal_strlit("file_mapped");
    reveal_strlit("inactive_file");
    reveal_strlit("pgfault");
    reveal_strlit("pgmajfault");
    let last = ls.last();
    if i < ls.len() - 1 {
        let d = ls.drop_last();
        assert forall|j: int| i < j < d.len() implies line_key(#[trigger] d[j]) != Some(k) by {
            assert(d[j] == ls[j]);
        }
        assert(d[i] == ls[i]);
        lemma_memory_stat_last_line(d, i, k, v);
        assert(line_key(ls[ls.len() - 1]) != Some(k));
    }
}

#[verifier::loop_isolation(false)]
pub fn parse_memory_stat(content: &str) -> (out: MemoryStatFile)
    ensures
        out == memory_stat_of(lines(content@)),
{
    let (v, ls) = lines_of(content);
    let k_anon = chars_of("anon");
    let k_file = chars_of("file");
    let k_file_mapped = chars_of("file_mapped");
    let k_inactive_file = chars_of("inactive_file");
    let k_pgfault = chars_of("pgfault");
    let k_pgmajfault = chars_of("pgmajfault");
    let mut out = MemoryStatFile {
        anon: 0,
        file: 0,
        file_mapped: 0,
        inactive_file: 0,
        pgfault: 0,
        pgmajfault: 0,
    };
    let ghost all = lines(content@);
    let mut j: usize = 0;
    while j < ls.len()
        invariant
            j <= ls@.len(),
            out == memory_stat_of(all.take(j as int)),
        decreases ls.len() - j,
    {
        let (lo, hi) = ls[j];
        assert(all.take(j + 1).drop_last() =~= all.take(j as int));
        assert(all.take(j + 1).last() == all[j as int]);
        assert(v@.subrange(lo as int, hi as int) == all[j as int]);
        if let Some(i) = split_once_in(&v, lo, hi, ' ') {
            let x = u64_field_of(&v, i + 1, hi);
            if range_eq(&v, lo, i, &k_anon) {
                out.anon = x;
            } else if range_eq(&v, lo, i, &k_file) {
                out.file = x;
            } else if range_eq(&v, lo, i, &k_file_mapped) {
                out.file_mapped = x;
            } else if range_eq(&v, lo, i, &k_inactive_file) {
                out.inactive_file = x;
            } else if range_eq(&v, lo, i, &k_pgfault) {
                out.pgfault = x;
            } else if range_eq(&v, lo, i, &k_pgmajfault) {
                out.pgmajfault = x;
            }
        }
        j += 1;
    }
    assert(all.take(ls.len() as int) =~= all);
    out
}

/// Single-value cgroup file; `max` means unlimited (`u64::MAX`).
pub open spec fn u64_or_max(s: Seq<char>) -> u64 {
    let t = trim(s);
    if t == "max"@ {
        u64::MAX
    } else {
        u64_field(t)
    }
}

pub fn parse_u64_or_max(content: &str) -> (x: u64)
    ensures
        x == u64_or_max(content@),
{
    let v = chars_of(content);
    let (a, b) = trim_range(&v, 0, v.len());
    assert(v@.subrange(0, v.len() as int) =~= v@);
    let k_max = chars_of("max");
    if range_eq(&v, a, b, &k_max) {
        u64::MAX
    } else {
        u64_field_of(&v, a, b)
    }
}

/// `cpu.max`: `"$MAX $PERIOD"`; MAX is a number or `max` (no quota); the
/// period defaults to 100000.
pub open spec fn cpu_max_of(s: Seq<char>) -> (Option<u64>, u64) {
    let w = words(s);
    let quota = if w.len() == 0 || w[0] == "max"@ {
        None
    } else {
        match parse_unsigned(w[0], 10, u64::MAX as int) {
            Some(x) => Some(x as u64),
            None => None,
        }
    };
    let period = if w.len() >= 2 {
        u64_field(w[1])
    } else {
        100_000
    };
    (quota, period)
}

pub fn parse_cpu_max(content: &str) -> (r: (Option<u64>, u64))
    ensures
        r == cpu_max_of(content@),
{
    let v = chars_of(content);
    let w = word_ranges(&v, 0, v.len());
    assert(v@.subrange(0, v.len() as int) =~= v@);
    let k_max = chars_of("max");
    let quota = if w.len() == 0 || range_eq(&v, w[0].0, w[0].1, &k_max) {
        None
    } else {
        parse_radix(&v, w[0].0, w[0].1, 10, u64::MAX)
    };
    let period = if w.len() >= 2 {
        u64_field_of(&v, w[1].0, w[1].1)
    } else {
        100_000
    };
    (quota, period)
}

/// runc's cgroup-v2 conversion, inverted: v1-style cpu shares from
/// `cpu.weight`.
pub open spec fn weight_to_shares(weight: u64) -> u64 {
    if weight == 0 {
        0
    } else {
        (2 + ((weight - 1) * 262142) / 9999) as u64
    }
}

pub open spec fn weight_in_range(weight: u64) -> bool {
    weight == 0 || (weight - 1) * 262142 <= u64::MAX
}

pub fn cpu_weight_to_shares(weight: u64) -> (shares: u64)
    requires
        weight_in_range(weight),
    ensures
        shares == weight_to_shares(weight),
{
    if weight == 0 {
        0
    } else {
        assert(((weight - 1) * 262142) / 9999 <= u64::MAX - 2) by (nonlinear_arith)
            requires
                (weight - 1) * 262142 <= u64::MAX,
        ;
        2 + ((weight - 1) * 262142) / 9999
    }
}

} // verus!

verus! {

/// One device row of `io.stat`.
#[derive(Debug, Default, Clone, PartialEq)]
pub struct IoDevStat {
    pub major: u64,
    pub minor: u64,
    pub rbytes: u64,
    pub wbytes: u64,
    pub rios: u64,
    pub wios: u64,
}

pub open spec fn io_kv_step(row: IoDevStat, kv: Seq<char>) -> IoDevStat {
    match split_once_char(kv, '=') {
        None => row,
        Some((k, v)) => {
            let x = u64_field(v);
            if k == "rbytes"@ {
                IoDevStat { rbytes: x, ..row }
            } else if k == "wbytes"@ {
                IoDevStat { wbytes: x, ..row }
            } else if k == "rios"@ {
                IoDevStat { rios: x, ..row }
            } else if k == "wios"@ {
                IoDevStat { wios: x, ..row }
            } else {
                row
            }
        },
    }
}

pub open spec fn io_kv_fold(row: IoDevStat, kvs: Seq<Seq<char>>) -> IoDevStat
    decreases kvs.len(),
{
    if kvs.len() == 0 {
        row
    } else {
        io_kv_step(io_kv_fold(row, kvs.drop_last()), kvs.last())
    }
}

/// An `io.stat` line: `MAJ:MIN key=value...`; lines without a `MAJ:MIN`
/// first word give no row.
pub open spec fn io_line(l: Seq<char>) -> Option<IoDevStat> {
    let f = words(l);
    if f.len() == 0 {
        None
    } else {
        match split_once_char(f[0], ':') {
            None => None,
            Some((ma, mi)) => Some(
                io_kv_fold(
                    IoDevStat {
                        major: u64_field(ma),
                        minor: u64_field(mi),
                        rbytes: 0,
                        wbytes: 0,
                        rios: 0,
                        wios: 0,
                    },
                    f.skip(1),
                ),
            ),
        }
    }
}

pub open spec fn io_stat_of(ls: Seq<Seq<char>>) -> Seq<IoDevStat>
    decreases ls.len(),
{
    if ls.len() == 0 {
        seq![]
    } else {
        let r = io_stat_of(ls.drop_last());
        match io_line(ls.last()) {
            Some(row) => r.push(row),
            None => r,
        }
    }
}

#[verifier::loop_isolation(false)]
fn io_line_exec(
    v: &Vec<char>,
    lo: usize,
    hi: usize,
    k_rbytes: &Vec<char>,
    k_wbytes: &Vec<char>,
    k_rios: &Vec<char>,
    k_wios: &Vec<char>,
) -> (r: Option<IoDevStat>)
    requires
        lo <= hi <= v.len(),
        k_rbytes@ == "rbytes"@,
        k_wbytes@ == "wbytes"@,
        k_rios@ == "rios"@,
        k_wios@ == "wios"@,
    ensures
        r == io_line(v@.subrange(lo as int, hi as int)),
{
    let f = word_ranges(v, lo, hi);
    let ghost fw = words(v@.subrange(lo as int, hi as int));
    if f.len() == 0 {
        return None;
    }
    let (d0, d1) = f[0];
    assert(v@.subrange(d0 as int, d1 as int) == fw[0]);
    let Some(c) = split_once_in(v, d0, d1, ':') else { return None };
    let mut row = IoDevStat {
        major: u64_field_of(v, d0, c),
        minor: u64_field_of(v, c + 1, d1),
        rbytes: 0,
        wbytes: 0,
        rios: 0,
        wios: 0,
    };
    let ghost base = row;
    let ghost kvs = fw.skip(1);
    let mut k: usize = 1;
    assert(kvs.take(0) =~= Seq::<Seq<char>>::empty());
    while k < f.len()
        invariant
            1 <= k <= f@.len() == fw.len(),
            kvs == fw.skip(1),
            row == io_kv_fold(base, kvs.take(k - 1)),
        decreases f.len() - k,
    {
        let (a, b) = f[k];
        assert(kvs.take(k as int).drop_last() =~= kvs.take(k - 1));
        assert(kvs.take(k as int).last() == fw[k as int]);
        assert(v@.subrange(a as int, b as int) == fw[k as int]);
        if let Some(e) = split_once_in(v, a, b, '=') {
            let x = u64_field_of(v, e + 1, b);
            if range_eq(v, a, e, k_rbytes) {
                row.rbytes = x;
            } else if range_eq(v, a, e, k_wbytes) {
                row.wbytes = x;
            } else if range_eq(v, a, e, k_rios) {
                row.rios = x;
            } else if range_eq(v, a, e, k_wios) {
                row.wios = x;
            }
        }
        k += 1;
    }
    assert(kvs.take(f.len() - 1) =~= kvs);
    Some(row)
}

#[verifier::loop_isolation(false)]
pub fn parse_io_stat(content: &str) -> (out: Vec<IoDevStat>)
    ensures
        out@ == io_stat_of(lines(content@)),
{
    let (v, ls) = lines_of(content);
    let k_rbytes = chars_of("rbytes");
    let k_wbytes = chars_of("wbytes");
    let k_rios = chars_of("rios");
    let k_wios = chars_of("wios");
    let mut out: Vec<IoDevStat> = Vec::new();
    let ghost all = lines(content@);
    let mut j: usize = 0;
    while j < ls.len()
        invariant
            j <= ls@.len(),
            out@ == io_stat_of(all.take(j as int)),
        decreases ls.len() - j,
    {
        let (lo, hi) = ls[j];
        assert(all.take(j + 1).drop_last() =~= all.take(j as int));
        assert(all.take(j + 1).last() == all[j as int]);
        assert(v@.subrange(lo as int, hi as int) == all[j as int]);
        if let Some(row) = io_line_exec(&v, lo, hi, &k_rbytes, &k_wbytes, &k_rios, &k_wios) {
            out.push(row);
        }
        j += 1;
    }
    assert(all.take(ls.len() as int) =~= all);
    out
}

} // verus!

verus! {

/// Interfaces that are never reported (ASCII-case-insensitive prefixes).
pub open spec fn ignored_interface_spec(name: Seq<char>) -> bool {
    let n = name.map_values(|c: char| ascii_lower(c));
    ||| starts_with(n, "lo"@)
    ||| starts_with(n, "veth"@)
    ||| starts_with(n, "docker"@)
    ||| starts_with(n, "nerdctl"@)
}

fn ignored_interface(v: &Vec<char>, lo: usize, hi: usize) -> (b: bool)
    requires
        lo <= hi <= v.len(),
    ensures
        b == ignored_interface_spec(v@.subrange(lo as int, hi as int)),
{
    let n = lower_range(v, lo, hi);
    let p_lo = chars_of("lo");
    let p_veth = chars_of("veth");
    let p_docker = chars_of("docker");
    let p_nerdctl = chars_of("nerdctl");
    assert(n@.subrange(0, n.len() as int) =~= n@);
    range_starts_with(&n, 0, n.len(), &p_lo) || range_starts_with(&n, 0, n.len(), &p_veth)
        || range_starts_with(&n, 0, n.len(), &p_docker) || range_starts_with(
        &n,
        0,
        n.len(),
        &p_nerdctl,
    )
}

/// The first `:` of a line becomes a space.
pub open spec fn colon_to_space(l: Seq<char>) -> Seq<char> {
    let i = find_char(l, ':');
    if i < 0 {
        l
    } else {
        l.update(i, ' ')
    }
}

/// The fields of a `/proc/<pid>/net/dev` interface line, when it is reported:
/// exactly 17 fields and not an ignored interface.
pub open spec fn net_dev_line(l: Seq<char>) -> Option<Seq<Seq<char>>> {
    let f = words(colon_to_space(l));
    if f.len() == 17 && !ignored_interface_spec(f[0]) {
        Some(f)
    } else {
        None
    }
}

pub open spec fn net_dev_rows(ls: Seq<Seq<char>>) -> Seq<Seq<Seq<char>>>
    decreases ls.len(),
{
    if ls.len() == 0 {
        seq![]
    } else {
        let r = net_dev_rows(ls.drop_last());
        match net_dev_line(ls.last()) {
            Some(f) => r.push(f),
            None => r,
        }
    }
}

/// rx fields 1-4, tx fields 9-12.
pub open spec fn iface_from_fields(s: InterfaceStats, f: Seq<Seq<char>>) -> bool {
    &&& s.name@ == f[0]
    &&& s.rx_bytes == u64_field(f[1])
    &&& s.rx_packets == u64_field(f[2])
    &&& s.rx_errors == u64_field(f[3])
    &&& s.rx_dropped == u64_field(f[4])
    &&& s.tx_bytes == u64_field(f[9])
    &&& s.tx_packets == u64_field(f[10])
    &&& s.tx_errors == u64_field(f[11])
    &&& s.tx_dropped == u64_field(f[12])
}

/// `/proc/<pid>/net/dev`: two header lines, then
/// `iface: rx(bytes packets errs drop ...) tx(bytes packets errs drop ...)`.
#[verifier::loop_isolation(false)]
#[verifier::rlimit(40)]
pub fn parse_proc_net_dev(content: &str) -> (out: Vec<InterfaceStats>)
    ensures
        out@.len() == net_dev_rows(drop_n(lines(content@), 2)).len(),
        forall|j: int|
            0 <= j < out@.len() ==> iface_from_fields(
                #[trigger] out@[j],
                net_dev_rows(drop_n(lines(content@), 2))[j],
            ),
{
    let (v, ls) = lines_of(content);
    let ghost all = lines(content@);
    let ghost body = drop_n(all, 2);
    let mut out: Vec<InterfaceStats> = Vec::new();
    let mut j: usize = 2;
    assert(body.take(0) =~= Seq::<Seq<char>>::empty());
    while j < ls.len()
        invariant
            2 <= j,
            j <= ls@.len() || ls@.len() < 2,
            ls@.len() >= 2 ==> out@.len() == net_dev_rows(body.take(j - 2)).len(),
            ls@.len() >= 2 ==> forall|k: int|
                0 <= k < out@.len() ==> iface_from_fields(
                    #[trigger] out@[k],
                    net_dev_rows(body.take(j - 2))[k],
                ),
            ls@.len() < 2 ==> out@.len() == 0,
        decreases ls.len() - j,
    {
        let (lo, hi) = ls[j];
        let ghost prev = net_dev_rows(body.take(j - 2));
        assert(body.take(j - 1).drop_last() =~= body.take(j - 2));
        assert(body.take(j - 1).last() == all[j as int]);
        assert(v@.subrange(lo as int, hi as int) == all[j as int]);
        let mut cleaned = copy_range(&v, lo, hi);
        let c = find_char_in(&v, lo, hi, ':');
        if let Some(ci) = c {
            cleaned.set(ci - lo, ' ');
        }
        assert(cleaned@ == colon_to_space(all[j as int]));
        let f = word_ranges(&cleaned, 0, cleaned.len());
        assert(cleaned@.subrange(0, cleaned.len() as int) =~= cleaned@);
        let ghost fw = words(cleaned@);
        if f.len() == 17 {
            assert(cleaned@.subrange(f[0].0 as int, f[0].1 as int) == fw[0]);
            if !ignored_interface(&cleaned, f[0].0, f[0].1) {
                proof {
                    assert forall|k: int| 0 <= k < 17 implies cleaned@.subrange(
                        f@[k].0 as int,
                        f@[k].1 as int,
                    ) == #[trigger] fw[k] by {}
                }
                let s = InterfaceStats {
                    name: string_of(&cleaned, f[0].0, f[0].1),
                    rx_bytes: u64_field_of(&cleaned, f[1].0, f[1].1),
                    rx_packets: u64_field_of(&cleaned, f[2].0, f[2].1),
                    rx_errors: u64_field_of(&cleaned, f[3].0, f[3].1),
                    rx_dropped: u64_field_of(&cleaned, f[4].0, f[4].1),
                    tx_bytes: u64_field_of(&cleaned, f[9].0, f[9].1),
                    tx_packets: u64_field_of(&cleaned, f[10].0, f[10].1),
                    tx_errors: u64_field_of(&cleaned, f[11].0, f[11].1),
                    tx_dropped: u64_field_of(&cleaned, f[12].0, f[12].1),
                };
                out.push(s);
                assert(net_dev_rows(body.take(j - 1)) == prev.push(fw));
                assert forall|k: int| 0 <= k < out@.len() implies iface_from_fields(
                    #[trigger] out@[k],
                    net_dev_rows(body.take(j - 1))[k],
                ) by {
                    if k < out@.len() - 1 {
                        assert(net_dev_rows(body.take(j - 1))[k] == prev[k]);
                    }
                }
            }
        }
        j += 1;
    }
    if ls.len() >= 2 {
        assert(body.take(ls.len() - 2) =~= body);
    } else {
        assert(body =~= Seq::<Seq<char>>::empty());
    }
    out
}

} // verus!

verus! {

pub open spec fn tcp_total(t: TcpStat) -> int {
    t.established + t.syn_sent + t.syn_recv + t.fin_wait1 + t.fin_wait2 + t.time_wait + t.close
        + t.close_wait + t.last_ack + t.listen + t.closing
}

/// One connection row: the state is the 4th column, in hex.
pub open spec fn tcp_step(acc: TcpStat, l: Seq<char>) -> TcpStat {
    let f = words(l);
    if f.len() <= 3 {
        acc
    } else {
        let st = f[3];
        if st == "01"@ {
            TcpStat { established: (acc.established + 1) as u64, ..acc }
        } else if st == "02"@ {
            TcpStat { syn_sent: (acc.syn_sent + 1) as u64, ..acc }
        } else if st == "03"@ {
            TcpStat { syn_recv: (acc.syn_recv + 1) as u64, ..acc }
        } else if st == "04"@ {
            TcpStat { fin_wait1: (acc.fin_wait1 + 1) as u64, ..acc }
        } else if st == "05"@ {
            TcpStat { fin_wait2: (acc.fin_wait2 + 1) as u64, ..acc }
        } else if st == "06"@ {
            TcpStat { time_wait: (acc.time_wait + 1) as u64, ..acc }
        } else if st == "07"@ {
            TcpStat { close: (acc.close + 1) as u64, ..acc }
        } else if st == "08"@ {
            TcpStat { close_wait: (acc.close_wait + 1) as u64, ..acc }
        } else if st == "09"@ {
            TcpStat { last_ack: (acc.last_ack + 1) as u64, ..acc }
        } else if st == "0A"@ {
            TcpStat { listen: (acc.listen + 1) as u64, ..acc }
        } else if st == "0B"@ {
            TcpStat { closing: (acc.closing + 1) as u64, ..acc }
        } else {
            acc
        }
    }
}

pub open spec fn tcp_of(ls: Seq<Seq<char>>) -> TcpStat
    decreases ls.len(),
{
    if ls.len() == 0 {
        TcpStat {
            established: 0,
            syn_sent: 0,
            syn_recv: 0,
            fin_wait1: 0,
            fin_wait2: 0,
            time_wait: 0,
            close: 0,
            close_wait: 0,
            last_ack: 0,
            listen: 0,
            closing: 0,
        }
    } else {
        tcp_step(tcp_of(ls.drop_last()), ls.last())
    }
}

/// `/proc/<pid>/net/tcp[6]`: connections counted by state (header skipped).
#[verifier::loop_isolation(false)]
pub fn parse_tcp_states(content: &str) -> (out: TcpStat)
    ensures
        out == tcp_of(drop_n(lines(content@), 1)),
{
    let (v, ls) = lines_of(content);
    let ghost all = lines(content@);
    let ghost body = drop_n(all, 1);
    let k01 = chars_of("01");
    let k02 = chars_of("02");
    let k03 = chars_of("03");
    let k04 = chars_of("04");
    let k05 = chars_of("05");
    let k06 = chars_of("06");
    let k07 = chars_of("07");
    let k08 = chars_of("08");
    let k09 = chars_of("09");
    let k0a = chars_of("0A");
    let k0b = chars_of("0B");
    let mut out = TcpStat {
        established: 0,
        syn_sent: 0,
        syn_recv: 0,
        fin_wait1: 0,
        fin_wait2: 0,
        time_wait: 0,
        close: 0,
        close_wait: 0,
        last_ack: 0,
        listen: 0,
        closing: 0,
    };
    let mut j: usize = 1;
    assert(body.take(0) =~= Seq::<Seq<char>>::empty());
    while j < ls.len()
        invariant
            1 <= j,
            j <= ls@.len() || ls@.len() < 1,
            ls@.len() >= 1 ==> out == tcp_of(body.take(j - 1)),
            ls@.len() < 1 ==> out == tcp_of(Seq::empty()),
            tcp_total(out) <= j - 1,
        decreases ls.len() - j,
    {
        let (lo, hi) = ls[j];
        assert(body.take(j as int).drop_last() =~= body.take(j - 1));
        assert(body.take(j as int).last() == all[j as int]);
        assert(v@.subrange(lo as int, hi as int) == all[j as int]);
        let f = word_ranges(&v, lo, hi);
        let ghost fw = words(all[j as int]);
        if f.len() > 3 {
            let (a, b) = f[3];
            assert(v@.subrange(a as int, b as int) == fw[3]);
            if range_eq(&v, a, b, &k01) {
                out.established = out.established + 1;
            } else if range_eq(&v, a, b, &k02) {
                out.syn_sent = out.syn_sent + 1;
            } else if range_eq(&v, a, b, &k03) {
                out.syn_recv = out.syn_recv + 1;
            } else if range_eq(&v, a, b, &k04) {
                out.fin_wait1 = out.fin_wait1 + 1;
            } else if range_eq(&v, a, b, &k05) {
                out.fin_wait2 = out.fin_wait2 + 1;
            } else if range_eq(&v, a, b, &k06) {
                out.time_wait = out.time_wait + 1;
            } else if range_eq(&v, a, b, &k07) {
                out.close = out.close + 1;
            } else if range_eq(&v, a, b, &k08) {
                out.close_wait = out.close_wait + 1;
            } else if range_eq(&v, a, b, &k09) {
                out.last_ack = out.last_ack + 1;
            } else if range_eq(&v, a, b, &k0a) {
                out.listen = out.listen + 1;
            } else if range_eq(&v, a, b, &k0b) {
                out.closing = out.closing + 1;
            }
        }
        j += 1;
    }
    if ls.len() >= 1 {
        assert(body.take(ls.len() - 1) =~= body);
    } else {
        assert(body =~= Seq::<Seq<char>>::empty());
    }
    out
}

} // verus!

verus! {

/// `u64::from_str_radix(s, 16).unwrap_or(0)`.
pub open spec fn hex_field(s: Seq<char>) -> int {
    match parse_unsigned(s, 16, u64::MAX as int) {
        Some(x) => x,
        None => 0,
    }
}

/// (tx queued, rx queued, drops) of a socket row with at least 13 fields.
pub open spec fn udp_line(l: Seq<char>) -> Option<(int, int, int)> {
    let f = words(l);
    if f.len() < 13 {
        None
    } else {
        let q = match split_once_char(f[4], ':') {
            Some((tx, rx)) => (hex_field(tx), hex_field(rx)),
            None => (0, 0),
        };
        Some((q.0, q.1, u64_field(f[12]) as int))
    }
}

/// Sums over the rows: (rows, tx queued, rx queued, drops).
pub open spec fn udp_totals(ls: Seq<Seq<char>>) -> (int, int, int, int)
    decreases ls.len(),
{
    if ls.len() == 0 {
        (0, 0, 0, 0)
    } else {
        let t = udp_totals(ls.drop_last());
        match udp_line(ls.last()) {
            Some((tx, rx, d)) => (t.0 + 1, t.1 + tx, t.2 + rx, t.3 + d),
            None => t,
        }
    }
}

/// The sums fit in `u64` (the counters would overflow otherwise).
pub open spec fn udp_sums_fit(content: Seq<char>) -> bool {
    let t = udp_totals(drop_n(lines(content), 1));
    t.1 <= u64::MAX && t.2 <= u64::MAX && t.3 <= u64::MAX
}

proof fn lemma_udp_totals_mono(ls: Seq<Seq<char>>, k: int)
    requires
        0 <= k <= ls.len(),
    ensures
        ({
            let a = udp_totals(ls.take(k));
            let b = udp_totals(ls);
            0 <= a.0 <= b.0 && 0 <= a.1 <= b.1 && 0 <= a.2 <= b.2 && 0 <= a.3 <= b.3
                && a.0 <= k
        }),
    decreases ls.len(),
{
    if k == ls.len() {
        assert(ls.take(k) =~= ls);
        lemma_udp_totals_bounds(ls);
    } else {
        lemma_udp_totals_mono(ls.drop_last(), k);
        assert(ls.drop_last().take(k) =~= ls.take(k));
        lemma_udp_totals_bounds(ls.drop_last());
        lemma_udp_line_nonneg(ls.last());
    }
}

proof fn lemma_udp_line_nonneg(l: Seq<char>)
    ensures
        udp_line(l) matches Some((tx, rx, d)) ==> tx >= 0 && rx >= 0 && d >= 0,
{
    let f = words(l);
    if f.len() >= 13 {
        match split_once_char(f[4], ':') {
            Some((a, b)) => {
                if parse_unsigned(a, 16, u64::MAX as int) is Some {
                    lemma_parse_unsigned_nonneg(a, 16, u64::MAX as int);
                }
                if parse_unsigned(b, 16, u64::MAX as int) is Some {
                    lemma_parse_unsigned_nonneg(b, 16, u64::MAX as int);
                }
            },
            None => {},
        }
    }
}

proof fn lemma_udp_totals_bounds(ls: Seq<Seq<char>>)
    ensures
        ({
            let t = udp_totals(ls);
            0 <= t.0 <= ls.len() && 0 <= t.1 && 0 <= t.2 && 0 <= t.3
        }),
    decreases ls.len(),
{
    if ls.len() > 0 {
        lemma_udp_totals_bounds(ls.drop_last());
        lemma_udp_line_nonneg(ls.last());
    }
}

proof fn lemma_parse_unsigned_nonneg(s: Seq<char>, radix: int, max: int)
    requires
        radix >= 1,
        parse_unsigned(s, radix, max) is Some,
    ensures
        parse_unsigned(s, radix, max)->0 >= 0,
{
    lemma_radix_val_nonneg(unsigned_digits(s), radix);
}

#[derive(Debug, Default, Clone, PartialEq)]
pub struct MemInfo {
    pub total_bytes: u64,
    pub swap_bytes: u64,
}

/// `/proc/<pid>/net/udp[6]`: Listen = row count, queued from the hex
/// `tx:rx` column, Dropped from the trailing drops column.
#[verifier::loop_isolation(false)]
pub fn parse_udp_stats(content: &str) -> (out: UdpStat)
    requires
        udp_sums_fit(content@),
    ensures
        ({
            let t = udp_totals(drop_n(lines(content@), 1));
            out.listen == t.0 && out.tx_queued == t.1 && out.rx_queued == t.2 && out.dropped
                == t.3
        }),
{
    let (v, ls) = lines_of(content);
    let ghost all = lines(content@);
    let ghost body = drop_n(all, 1);
    let mut out = UdpStat { listen: 0, dropped: 0, rx_queued: 0, tx_queued: 0 };
    let mut j: usize = 1;
    assert(body.take(0) =~= Seq::<Seq<char>>::empty());
    while j < ls.len()
        invariant
            1 <= j,
            j <= ls@.len() || ls@.len() < 1,
            ls@.len() >= 1 ==> ({
                let t = udp_totals(body.take(j - 1));
                out.listen == t.0 && out.tx_queued == t.1 && out.rx_queued == t.2
                    && out.dropped == t.3
            }),
            ls@.len() < 1 ==> out.listen == 0 && out.tx_queued == 0 && out.rx_queued == 0
                && out.dropped == 0,
        decreases ls.len() - j,
    {
        let (lo, hi) = ls[j];
        assert(body.take(j as int).drop_last() =~= body.take(j - 1));
        assert(body.take(j as int).last() == all[j as int]);
        assert(v@.subrange(lo as int, hi as int) == all[j as int]);
        proof {
            lemma_udp_totals_mono(body, j as int);
            lemma_udp_totals_mono(body, j - 1);
        }
        let f = word_ranges(&v, lo, hi);
        let ghost fw = words(all[j as int]);
        if f.len() >= 13 {
            let ghost t1 = udp_totals(body.take(j as int));
            out.listen = out.listen + 1;
            let (a, b) = f[4];
            assert(v@.subrange(a as int, b as int) == fw[4]);
            if let Some(c) = split_once_in(&v, a, b, ':') {
                let tx = match parse_radix(&v, a, c, 16, u64::MAX) {
                    Some(x) => x,
                    None => 0,
                };
                let rx = match parse_radix(&v, c + 1, b, 16, u64::MAX) {
                    Some(x) => x,
                    None => 0,
                };
                out.tx_queued = out.tx_queued + tx;
                out.rx_queued = out.rx_queued + rx;
            }
            let (d0, d1) = f[12];
            assert(v@.subrange(d0 as int, d1 as int) == fw[12]);
            out.dropped = out.dropped + u64_field_of(&v, d0, d1);
        }
        j += 1;
    }
    if ls.len() >= 1 {
        assert(body.take(ls.len() - 1) =~= body);
    } else {
        assert(body =~= Seq::<Seq<char>>::empty());
    }
    out
}

} // verus!

verus! {

/// The kB value of a `/proc/meminfo` line (0 when absent or malformed).
pub open spec fn meminfo_kb(l: Seq<char>) -> int {
    let f = words(l);
    if f.len() > 1 {
        u64_field(f[1]) as int
    } else {
        0
    }
}

pub open spec fn meminfo_key(l: Seq<char>) -> Seq<char> {
    let f = words(l);
    if f.len() > 0 {
        f[0]
    } else {
        Seq::empty()
    }
}

pub open spec fn meminfo_step(acc: MemInfo, l: Seq<char>) -> MemInfo {
    if meminfo_key(l) == "MemTotal:"@ {
        MemInfo { total_bytes: (meminfo_kb(l) * 1024) as u64, ..acc }
    } else if meminfo_key(l) == "SwapTotal:"@ {
        MemInfo { swap_bytes: (meminfo_kb(l) * 1024) as u64, ..acc }
    } else {
        acc
    }
}

pub open spec fn meminfo_of(ls: Seq<Seq<char>>) -> MemInfo
    decreases ls.len(),
{
    if ls.len() == 0 {
        MemInfo { total_bytes: 0, swap_bytes: 0 }
    } else {
        meminfo_step(meminfo_of(ls.drop_last()), ls.last())
    }
}

/// Every `MemTotal:`/`SwapTotal:` value, in bytes, fits in `u64`.
pub open spec fn meminfo_fits(content: Seq<char>) -> bool {
    forall|i: int|
        0 <= i < lines(content).len() && (meminfo_key(#[trigger] lines(content)[i])
            == "MemTotal:"@ || meminfo_key(lines(content)[i]) == "SwapTotal:"@) ==> meminfo_kb(
            lines(content)[i],
        ) * 1024 <= u64::MAX
}

/// `/proc/meminfo` totals, in bytes (the last line of each key wins).
#[verifier::loop_isolation(false)]
pub fn parse_meminfo(content: &str) -> (out: MemInfo)
    requires
        meminfo_fits(content@),
    ensures
        out == meminfo_of(lines(content@)),
{
    let (v, ls) = lines_of(content);
    let ghost all = lines(content@);
    let k_total = chars_of("MemTotal:");
    let k_swap = chars_of("SwapTotal:");
    let mut out = MemInfo { total_bytes: 0, swap_bytes: 0 };
    let mut j: usize = 0;
    while j < ls.len()
        invariant
            j <= ls@.len(),
            out == meminfo_of(all.take(j as int)),
        decreases ls.len() - j,
    {
        let (lo, hi) = ls[j];
        assert(all.take(j + 1).drop_last() =~= all.take(j as int));
        assert(all.take(j + 1).last() == all[j as int]);
        assert(v@.subrange(lo as int, hi as int) == all[j as int]);
        let f = word_ranges(&v, lo, hi);
        let ghost fw = words(all[j as int]);
        proof {
            reveal_strlit("MemTotal:");
            reveal_strlit("SwapTotal:");
        }
        if f.len() > 0 {
            assert(v@.subrange(f[0].0 as int, f[0].1 as int) == fw[0]);
            let is_total = range_eq(&v, f[0].0, f[0].1, &k_total);
            let is_swap = !is_total && range_eq(&v, f[0].0, f[0].1, &k_swap);
            if is_total || is_swap {
                let kb = if f.len() > 1 {
                    assert(v@.subrange(f[1].0 as int, f[1].1 as int) == fw[1]);
                    u64_field_of(&v, f[1].0, f[1].1)
                } else {
                    0
                };
                assert(kb * 1024 <= u64::MAX);
                assert(kb == meminfo_kb(all[j as int]));
                if is_total {
                    assert(meminfo_key(all[j as int]) == "MemTotal:"@);
                    out.total_bytes = kb * 1024;
                } else {
                    assert(meminfo_key(all[j as int]) == "SwapTotal:"@);
                    out.swap_bytes = kb * 1024;
                }
            } else {
                assert(meminfo_key(all[j as int]) != "MemTotal:"@);
                assert(meminfo_key(all[j as int]) != "SwapTotal:"@);
            }
        } else {
            assert(meminfo_key(all[j as int]) =~= Seq::<char>::empty());
        }
        assert(out == meminfo_step(meminfo_of(all.take(j as int)), all[j as int]));
        j += 1;
    }
    assert(all.take(ls.len() as int) =~= all);
    out
}

/// Whether every `MemTotal:`/`SwapTotal:` value of a `/proc/meminfo` text
/// fits in bytes, as `parse_meminfo` needs.
#[verifier::loop_isolation(false)]
pub fn meminfo_fits_text(content: &str) -> (b: bool)
    ensures
        b == meminfo_fits(content@),
{
    let (v, ls) = lines_of(content);
    let ghost all = lines(content@);
    let k_total = chars_of("MemTotal:");
    let k_swap = chars_of("SwapTotal:");
    proof {
        reveal_strlit("MemTotal:");
        reveal_strlit("SwapTotal:");
    }
    let mut j: usize = 0;
    while j < ls.len()
        invariant
            j <= ls@.len(),
            forall|i: int|
                0 <= i < j && (meminfo_key(#[trigger] all[i]) == "MemTotal:"@ || meminfo_key(all[i])
                    == "SwapTotal:"@) ==> meminfo_kb(all[i]) * 1024 <= u64::MAX,
        decreases ls.len() - j,
    {
        let (lo, hi) = ls[j];
        assert(v@.subrange(lo as int, hi as int) == all[j as int]);
        let f = word_ranges(&v, lo, hi);
        let ghost fw = words(all[j as int]);
        if f.len() > 0 {
            assert(v@.subrange(f[0].0 as int, f[0].1 as int) == fw[0]);
            let keyed = range_eq(&v, f[0].0, f[0].1, &k_total) || range_eq(&v, f[0].0, f[0].1, &k_swap);
            if keyed {
                let kb = if f.len() > 1 {
                    assert(v@.subrange(f[1].0 as int, f[1].1 as int) == fw[1]);
                    u64_field_of(&v, f[1].0, f[1].1)
                } else {
                    0
                };
                assert(kb == meminfo_kb(all[j as int]));
                if kb > 18014398509481983 {
                    assert(meminfo_key(all[j as int]) == "MemTotal:"@ || meminfo_key(all[j as int]) == "SwapTotal:"@);
                    return false;
                }
            } else {
                assert(meminfo_key(all[j as int]) != "MemTotal:"@);
                assert(meminfo_key(all[j as int]) != "SwapTotal:"@);
            }
        } else {
            assert(meminfo_key(all[j as int]) =~= Seq::<char>::empty());
        }
        j += 1;
    }
    true
}

} // verus!

verus! {

/// Summary of `/proc/cpuinfo`. The `cpu MHz` values are kept as text, in
/// file order (turning them into kHz is floating-point work).
#[derive(Debug, Default, Clone, PartialEq)]
pub struct CpuInfoSummary {
    pub vendor_id: String,
    pub physical_cores: i64,
    pub sockets: i64,
    pub cpu_mhz: Vec<String>,
}

/// (vendor id, current physical id, socket ids, (socket, core) ids, MHz texts)
pub type CpuInfoState = (Seq<char>, i64, Set<i64>, Set<(i64, i64)>, Seq<Seq<char>>);

pub open spec fn cpuinfo_step(st: CpuInfoState, l: Seq<char>) -> CpuInfoState {
    match split_once_char(l, ':') {
        None => st,
        Some((k0, v0)) => {
            let k = trim(k0);
            let v = trim(v0);
            if k == "vendor_id"@ && st.0.len() == 0 {
                (v, st.1, st.2, st.3, st.4)
            } else if k == "physical id"@ {
                let id = i64_field(v);
                (st.0, id, st.2.insert(id), st.3, st.4)
            } else if k == "core id"@ {
                (st.0, st.1, st.2, st.3.insert((st.1, i64_field(v))), st.4)
            } else if k == "cpu MHz"@ {
                (st.0, st.1, st.2, st.3, st.4.push(v))
            } else {
                st
            }
        },
    }
}

pub open spec fn cpuinfo_of(ls: Seq<Seq<char>>) -> CpuInfoState
    decreases ls.len(),
{
    if ls.len() == 0 {
        (Seq::empty(), 0, Set::empty(), Set::empty(), Seq::empty())
    } else {
        cpuinfo_step(cpuinfo_of(ls.drop_last()), ls.last())
    }
}

fn insert_id(ids: &mut Vec<i64>, x: i64)
    requires
        old(ids)@.no_duplicates(),
    ensures
        final(ids)@.no_duplicates(),
        final(ids)@.to_set() == old(ids)@.to_set().insert(x),
{
    let mut i: usize = 0;
    while i < ids.len()
        invariant
            i <= ids@.len(),
            ids@ == old(ids)@,
            ids@.no_duplicates(),
            forall|k: int| 0 <= k < i ==> ids@[k] != x,
        decreases ids.len() - i,
    {
        if ids[i] == x {
            assert(ids@.to_set().insert(x) =~= ids@.to_set());
            return;
        }
        i += 1;
    }
    let ghost before = ids@;
    ids.push(x);
    assert(ids@.to_set() =~= before.to_set().insert(x)) by {
        assert forall|y: i64| ids@.to_set().contains(y) <==> before.to_set().insert(x).contains(
            y,
        ) by {
            if ids@.contains(y) && y != x {
                let k = choose|k: int| 0 <= k < ids@.len() && ids@[k] == y;
                assert(before[k] == y);
            }
            if before.contains(y) {
                let k = choose|k: int| 0 <= k < before.len() && before[k] == y;
                assert(ids@[k] == y);
            }
            if y == x {
                assert(ids@[before.len() as int] == x);
            }
        }
    }
}

fn insert_pair(ids: &mut Vec<(i64, i64)>, x: (i64, i64))
    requires
        old(ids)@.no_duplicates(),
    ensures
        final(ids)@.no_duplicates(),
        final(ids)@.to_set() == old(ids)@.to_set().insert(x),
{
    let mut i: usize = 0;
    while i < ids.len()
        invariant
            i <= ids@.len(),
            ids@ == old(ids)@,
            ids@.no_duplicates(),
            forall|k: int| 0 <= k < i ==> ids@[k] != x,
        decreases ids.len() - i,
    {
        if ids[i].0 == x.0 && ids[i].1 == x.1 {
            assert(ids@[i as int] == x);
            assert(ids@.to_set().insert(x) =~= ids@.to_set());
            return;
        }
        i += 1;
    }
    let ghost before = ids@;
    ids.push(x);
    assert(ids@.to_set() =~= before.to_set().insert(x)) by {
        assert forall|y: (i64, i64)| ids@.to_set().contains(y) <==> before.to_set().insert(
            x,
        ).contains(y) by {
            if ids@.contains(y) && y != x {
                let k = choose|k: int| 0 <= k < ids@.len() && ids@[k] == y;
                assert(before[k] == y);
            }
            if before.contains(y) {
                let k = choose|k: int| 0 <= k < before.len() && before[k] == y;
                assert(ids@[k] == y);
            }
            if y == x {
                assert(ids@[before.len() as int] == x);
            }
        }
    }
}

pub fn parse_cpuinfo(content: &str) -> (out: CpuInfoSummary)
    ensures
        ({
            let st = cpuinfo_of(lines(content@));
            &&& out.vendor_id@ == st.0
            &&& out.sockets == st.2.len() as i64
            &&& out.physical_cores == st.3.len() as i64
            &&& out.cpu_mhz@.len() == st.4.len()
            &&& forall|i: int| 0 <= i < st.4.len() ==> (#[trigger] out.cpu_mhz@[i])@ == st.4[i]
        }),
{
    let (v, ls) = lines_of(content);
    let ghost all = lines(content@);
    let k_vendor = chars_of("vendor_id");
    let k_phys = chars_of("physical id");
    let k_core = chars_of("core id");
    let k_mhz = chars_of("cpu MHz");
    let mut vendor = String::new();
    let mut cur: i64 = 0;
    let mut sockets: Vec<i64> = Vec::new();
    let mut cores: Vec<(i64, i64)> = Vec::new();
    let mut mhz: Vec<String> = Vec::new();
    let mut j: usize = 0;
    assert(sockets@.to_set() =~= Set::<i64>::empty());
    assert(cores@.to_set() =~= Set::<(i64, i64)>::empty());
    while j < ls.len()
        invariant
            j <= ls@.len() == all.len(),
            v@ == content@,
            all == lines(content@),
            forall|i: int| 0 <= i < ls@.len() ==> #[trigger] ls@[i].0 <= ls@[i].1 <= v.len(),
            forall|i: int|
                0 <= i < ls@.len() ==> #[trigger] v@.subrange(ls@[i].0 as int, ls@[i].1 as int)
                    == all[i],
            k_vendor@ == "vendor_id"@,
            k_phys@ == "physical id"@,
            k_core@ == "core id"@,
            k_mhz@ == "cpu MHz"@,
            sockets@.no_duplicates(),
            cores@.no_duplicates(),
            ({
                let st = cpuinfo_of(all.take(j as int));
                &&& vendor@ == st.0
                &&& cur == st.1
                &&& sockets@.to_set() == st.2
                &&& cores@.to_set() == st.3
                &&& mhz@.len() == st.4.len()
                &&& forall|i: int| 0 <= i < st.4.len() ==> (#[trigger] mhz@[i])@ == st.4[i]
            }),
        decreases ls.len() - j,
    {
        let (lo, hi) = ls[j];
        let ghost st = cpuinfo_of(all.take(j as int));
        assert(all.take(j + 1).drop_last() =~= all.take(j as int));
        assert(all.take(j + 1).last() == all[j as int]);
        assert(v@.subrange(lo as int, hi as int) == all[j as int]);
        if let Some(c) = split_once_in(&v, lo, hi, ':') {
            let (ka, kb) = trim_range(&v, lo, c);
            let (va, vb) = trim_range(&v, c + 1, hi);
            if range_eq(&v, ka, kb, &k_vendor) && vendor.as_str().is_empty() {
                vendor = string_of(&v, va, vb);
            } else if range_eq(&v, ka, kb, &k_phys) {
                cur = i64_field_of(&v, va, vb);
                insert_id(&mut sockets, cur);
            } else if range_eq(&v, ka, kb, &k_core) {
                let id = i64_field_of(&v, va, vb);
                insert_pair(&mut cores, (cur, id));
            } else if range_eq(&v, ka, kb, &k_mhz) {
                let ghost old_mhz = mhz@;
                mhz.push(string_of(&v, va, vb));
                assert forall|i: int| 0 <= i < st.4.len() + 1 implies (#[trigger] mhz@[i])@
                    == st.4.push(v@.subrange(va as int, vb as int))[i] by {
                    if i < st.4.len() {
                        assert(mhz@[i] == old_mhz[i]);
                    }
                }
            }
        }
        j += 1;
    }
    assert(all.take(ls.len() as int) =~= all);
    proof {
        sockets@.unique_seq_to_set();
        cores@.unique_seq_to_set();
    }
    CpuInfoSummary {
        vendor_id: vendor,
        physical_cores: cores.len() as i64,
        sockets: sockets.len() as i64,
        cpu_mhz: mhz,
    }
}

} // verus!

verus! {

pub open spec fn is_dec_digit(c: char) -> bool {
    48 <= c as u32 <= 57
}

pub open spec fn is_lower_letter(c: char) -> bool {
    97 <= c as u32 <= 122
}

pub open spec fn all_dec(s: Seq<char>) -> bool {
    forall|i: int| 0 <= i < s.len() ==> is_dec_digit(#[trigger] s[i])
}

/// Length of the leading run of `a`-`z`.
pub open spec fn lower_run(s: Seq<char>) -> int
    decreases s.len(),
{
    if s.len() > 0 && is_lower_letter(s[0]) {
        1 + lower_run(s.drop_first())
    } else {
        0
    }
}

/// The device filter `^(s|v|xv)d[a-z]+\d*$` or `^dm-\d+$`.
pub open spec fn disk_name_matches(n: Seq<char>) -> bool {
    if starts_with(n, "dm-"@) {
        n.len() > 3 && all_dec(n.skip(3))
    } else {
        let p = if starts_with(n, "sd"@) {
            2
        } else if starts_with(n, "vd"@) {
            2
        } else if starts_with(n, "xvd"@) {
            3
        } else {
            -1
        };
        p >= 0 && ({
            let rest = n.skip(p);
            let k = lower_run(rest);
            k >= 1 && all_dec(rest.skip(k))
        })
    }
}

proof fn lemma_lower_run_at(s: Seq<char>, k: int)
    requires
        0 <= k <= s.len(),
        forall|i: int| 0 <= i < k ==> is_lower_letter(#[trigger] s[i]),
        k < s.len() ==> !is_lower_letter(s[k]),
    ensures
        lower_run(s) == k,
    decreases k,
{
    if k > 0 {
        let t = s.drop_first();
        assert forall|i: int| 0 <= i < k - 1 implies is_lower_letter(#[trigger] t[i]) by {
            assert(t[i] == s[i + 1]);
        }
        lemma_lower_run_at(t, k - 1);
    }
}

fn all_dec_range(v: &Vec<char>, lo: usize, hi: usize) -> (b: bool)
    requires
        lo <= hi <= v.len(),
    ensures
        b == all_dec(v@.subrange(lo as int, hi as int)),
{
    let mut i = lo;
    while i < hi
        invariant
            lo <= i <= hi <= v.len(),
            forall|k: int| lo <= k < i ==> is_dec_digit(#[trigger] v@[k]),
        decreases hi - i,
    {
        let u = v[i] as u32;
        if !(48 <= u && u <= 57) {
            assert(!is_dec_digit(v@.subrange(lo as int, hi as int)[i - lo]));
            return false;
        }
        i += 1;
    }
    assert forall|k: int| 0 <= k < hi - lo implies is_dec_digit(
        #[trigger] v@.subrange(lo as int, hi as int)[k],
    ) by {
        assert(v@.subrange(lo as int, hi as int)[k] == v@[lo + k]);
    }
    true
}

fn disk_name_matches_range(v: &Vec<char>, lo: usize, hi: usize) -> (b: bool)
    requires
        lo <= hi <= v.len(),
    ensures
        b == disk_name_matches(v@.subrange(lo as int, hi as int)),
{
    let ghost n = v@.subrange(lo as int, hi as int);
    let p_dm = chars_of("dm-");
    let p_sd = chars_of("sd");
    let p_vd = chars_of("vd");
    let p_xvd = chars_of("xvd");
    if range_starts_with(v, lo, hi, &p_dm) {
        proof {
            reveal_strlit("dm-");
        }
        assert(n.skip(3) =~= v@.subrange(lo + 3, hi as int));
        return hi - lo > 3 && all_dec_range(v, lo + 3, hi);
    }
    let p: usize = if range_starts_with(v, lo, hi, &p_sd) {
        proof {
            reveal_strlit("sd");
        }
        2
    } else if range_starts_with(v, lo, hi, &p_vd) {
        proof {
            reveal_strlit("vd");
        }
        2
    } else if range_starts_with(v, lo, hi, &p_xvd) {
        proof {
            reveal_strlit("xvd");
        }
        3
    } else {
        return false;
    };
    let a = lo + p;
    let ghost rest = n.skip(p as int);
    assert(rest =~= v@.subrange(a as int, hi as int));
    let mut i = a;
    while i < hi && 97 <= v[i] as u32 && v[i] as u32 <= 122
        invariant
            a <= i <= hi <= v.len(),
            forall|k: int| a <= k < i ==> is_lower_letter(#[trigger] v@[k]),
        decreases hi - i,
    {
        i += 1;
    }
    proof {
        assert forall|k: int| 0 <= k < i - a implies is_lower_letter(#[trigger] rest[k]) by {
            assert(rest[k] == v@[a + k]);
        }
        if i < hi {
            assert(rest[i - a] == v@[i as int]);
        }
        lemma_lower_run_at(rest, i - a);
        assert(rest.skip(i - a) =~= v@.subrange(i as int, hi as int));
    }
    i > a && all_dec_range(v, i, hi)
}

/// cadvisor's `/proc/diskstats` device filter.
pub fn diskstats_device_matches(name: &str) -> (b: bool)
    ensures
        b == disk_name_matches(name@),
{
    let v = chars_of(name);
    assert(v@.subrange(0, v.len() as int) =~= v@);
    disk_name_matches_range(&v, 0, v.len())
}

/// One (filtered) row of `/proc/diskstats`: major minor name + 11 counters.
#[derive(Debug, Default, Clone, PartialEq)]
pub struct DiskStatsLine {
    pub major: u64,
    pub minor: u64,
    pub name: String,
    pub reads_completed: u64,
    pub reads_merged: u64,
    pub sectors_read: u64,
    pub read_time: u64,
    pub writes_completed: u64,
    pub writes_merged: u64,
    pub sectors_written: u64,
    pub write_time: u64,
    pub io_in_progress: u64,
    pub io_time: u64,
    pub weighted_io_time: u64,
}

pub open spec fn diskstats_line(l: Seq<char>) -> Option<Seq<Seq<char>>> {
    let f = words(l);
    if f.len() >= 14 && disk_name_matches(f[2]) {
        Some(f)
    } else {
        None
    }
}

pub open spec fn diskstats_rows(ls: Seq<Seq<char>>) -> Seq<Seq<Seq<char>>>
    decreases ls.len(),
{
    if ls.len() == 0 {
        seq![]
    } else {
        let r = diskstats_rows(ls.drop_last());
        match diskstats_line(ls.last()) {
            Some(f) => r.push(f),
            None => r,
        }
    }
}

pub open spec fn diskstats_from_fields(d: DiskStatsLine, f: Seq<Seq<char>>) -> bool {
    &&& d.major == u64_field(f[0])
    &&& d.minor == u64_field(f[1])
    &&& d.name@ == f[2]
    &&& d.reads_completed == u64_field(f[3])
    &&& d.reads_merged == u64_field(f[4])
    &&& d.sectors_read == u64_field(f[5])
    &&& d.read_time == u64_field(f[6])
    &&& d.writes_completed == u64_field(f[7])
    &&& d.writes_merged == u64_field(f[8])
    &&& d.sectors_written == u64_field(f[9])
    &&& d.write_time == u64_field(f[10])
    &&& d.io_in_progress == u64_field(f[11])
    &&& d.io_time == u64_field(f[12])
    &&& d.weighted_io_time == u64_field(f[13])
}

#[verifier::loop_isolation(false)]
pub fn parse_diskstats(content: &str) -> (out: Vec<DiskStatsLine>)
    ensures
        out@.len() == diskstats_rows(lines(content@)).len(),
        forall|j: int|
            0 <= j < out@.len() ==> diskstats_from_fields(
                #[trigger] out@[j],
                diskstats_rows(lines(content@))[j],
            ),
{
    let (v, ls) = lines_of(content);
    let ghost all = lines(content@);
    let mut out: Vec<DiskStatsLine> = Vec::new();
    let mut j: usize = 0;
    while j < ls.len()
        invariant
            j <= ls@.len(),
            out@.len() == diskstats_rows(all.take(j as int)).len(),
            forall|k: int|
                0 <= k < out@.len() ==> diskstats_from_fields(
                    #[trigger] out@[k],
                    diskstats_rows(all.take(j as int))[k],
                ),
        decreases ls.len() - j,
    {
        let (lo, hi) = ls[j];
        let ghost prev = diskstats_rows(all.take(j as int));
        assert(all.take(j + 1).drop_last() =~= all.take(j as int));
        assert(all.take(j + 1).last() == all[j as int]);
        assert(v@.subrange(lo as int, hi as int) == all[j as int]);
        let f = word_ranges(&v, lo, hi);
        let ghost fw = words(all[j as int]);
        if f.len() >= 14 {
            assert(v@.subrange(f[2].0 as int, f[2].1 as int) == fw[2]);
            if disk_name_matches_range(&v, f[2].0, f[2].1) {
                proof {
                    assert forall|k: int| 0 <= k < 14 implies v@.subrange(
                        f@[k].0 as int,
                        f@[k].1 as int,
                    ) == #[trigger] fw[k] by {}
                }
                let d = DiskStatsLine {
                    major: u64_field_of(&v, f[0].0, f[0].1),
                    minor: u64_field_of(&v, f[1].0, f[1].1),
                    name: string_of(&v, f[2].0, f[2].1),
                    reads_completed: u64_field_of(&v, f[3].0, f[3].1),
                    reads_merged: u64_field_of(&v, f[4].0, f[4].1),
                    sectors_read: u64_field_of(&v, f[5].0, f[5].1),
                    read_time: u64_field_of(&v, f[6].0, f[6].1),
                    writes_completed: u64_field_of(&v, f[7].0, f[7].1),
                    writes_merged: u64_field_of(&v, f[8].0, f[8].1),
                    sectors_written: u64_field_of(&v, f[9].0, f[9].1),
                    write_time: u64_field_of(&v, f[10].0, f[10].1),
                    io_in_progress: u64_field_of(&v, f[11].0, f[11].1),
                    io_time: u64_field_of(&v, f[12].0, f[12].1),
                    weighted_io_time: u64_field_of(&v, f[13].0, f[13].1),
                };
                out.push(d);
                assert(diskstats_rows(all.take(j + 1)) == prev.push(fw));
                assert forall|k: int| 0 <= k < out@.len() implies diskstats_from_fields(
                    #[trigger] out@[k],
                    diskstats_rows(all.take(j + 1))[k],
                ) by {
                    if k < out@.len() - 1 {
                        assert(diskstats_rows(all.take(j + 1))[k] == prev[k]);
                    }
                }
            }
        }
        j += 1;
    }
    assert(all.take(ls.len() as int) =~= all);
    out
}

} // verus!

verus! {

/// `split_once(pat)` for a non-empty pattern.
pub open spec fn split_once_sub(s: Seq<char>, pat: Seq<char>) -> Option<(Seq<char>, Seq<char>)> {
    let i = find_sub(s, pat);
    if i < 0 {
        None
    } else {
        Some((s.take(i), s.skip(i + pat.len())))
    }
}

/// One row of `/proc/self/mountinfo`.
#[derive(Debug, Default, Clone, PartialEq)]
pub struct MountInfoLine {
    pub major: u64,
    pub minor: u64,
    pub mountpoint: String,
    pub fs_type: String,
    pub source: String,
}

/// `<id> <parent> <maj:min> <root> <mountpoint> <opts> [optional...] - <fstype> <source> ...`:
/// (the words before ` - `, the words after it, major text, minor text).
pub open spec fn mount_line(l: Seq<char>) -> Option<
    (Seq<Seq<char>>, Seq<Seq<char>>, Seq<char>, Seq<char>),
> {
    match split_once_sub(l, " - "@) {
        None => None,
        Some((a, b)) => {
            let pre = words(a);
            let post = words(b);
            if pre.len() < 5 || post.len() < 2 {
                None
            } else {
                match split_once_char(pre[2], ':') {
                    None => None,
                    Some((ma, mi)) => Some((pre, post, ma, mi)),
                }
            }
        },
    }
}

pub open spec fn mount_rows(ls: Seq<Seq<char>>) -> Seq<
    (Seq<Seq<char>>, Seq<Seq<char>>, Seq<char>, Seq<char>),
>
    decreases ls.len(),
{
    if ls.len() == 0 {
        seq![]
    } else {
        let r = mount_rows(ls.drop_last());
        match mount_line(ls.last()) {
            Some(m) => r.push(m),
            None => r,
        }
    }
}

pub open spec fn mount_from(
    m: MountInfoLine,
    row: (Seq<Seq<char>>, Seq<Seq<char>>, Seq<char>, Seq<char>),
) -> bool {
    &&& m.major == u64_field(row.2)
    &&& m.minor == u64_field(row.3)
    &&& m.mountpoint@ == row.0[4]
    &&& m.fs_type@ == row.1[0]
    &&& m.source@ == row.1[1]
}

#[verifier::loop_isolation(false)]
pub fn parse_mountinfo(content: &str) -> (out: Vec<MountInfoLine>)
    ensures
        out@.len() == mount_rows(lines(content@)).len(),
        forall|j: int|
            0 <= j < out@.len() ==> mount_from(#[trigger] out@[j], mount_rows(lines(content@))[j]),
{
    let (v, ls) = lines_of(content);
    let ghost all = lines(content@);
    let sep = chars_of(" - ");
    proof {
        reveal_strlit(" - ");
    }
    let mut out: Vec<MountInfoLine> = Vec::new();
    let mut j: usize = 0;
    while j < ls.len()
        invariant
            j <= ls@.len(),
            out@.len() == mount_rows(all.take(j as int)).len(),
            forall|k: int|
                0 <= k < out@.len() ==> mount_from(
                    #[trigger] out@[k],
                    mount_rows(all.take(j as int))[k],
                ),
        decreases ls.len() - j,
    {
        let (lo, hi) = ls[j];
        let ghost prev = mount_rows(all.take(j as int));
        let ghost l = all[j as int];
        assert(all.take(j + 1).drop_last() =~= all.take(j as int));
        assert(all.take(j + 1).last() == l);
        assert(v@.subrange(lo as int, hi as int) == l);
        if let Some(d) = find_sub_in(&v, lo, hi, &sep) {
            assert(l.take(d - lo) =~= v@.subrange(lo as int, d as int));
            assert(l.skip(d - lo + 3) =~= v@.subrange(d + 3, hi as int));
            let pre = word_ranges(&v, lo, d);
            let post = word_ranges(&v, d + 3, hi);
            let ghost pw = words(v@.subrange(lo as int, d as int));
            let ghost qw = words(v@.subrange(d + 3, hi as int));
            if pre.len() >= 5 && post.len() >= 2 {
                assert(v@.subrange(pre[2].0 as int, pre[2].1 as int) == pw[2]);
                if let Some(c) = split_once_in(&v, pre[2].0, pre[2].1, ':') {
                    assert(v@.subrange(pre[4].0 as int, pre[4].1 as int) == pw[4]);
                    assert(v@.subrange(post[0].0 as int, post[0].1 as int) == qw[0]);
                    assert(v@.subrange(post[1].0 as int, post[1].1 as int) == qw[1]);
                    let m = MountInfoLine {
                        major: u64_field_of(&v, pre[2].0, c),
                        minor: u64_field_of(&v, c + 1, pre[2].1),
                        mountpoint: string_of(&v, pre[4].0, pre[4].1),
                        fs_type: string_of(&v, post[0].0, post[0].1),
                        source: string_of(&v, post[1].0, post[1].1),
                    };
                    out.push(m);
                    assert forall|k: int| 0 <= k < out@.len() implies mount_from(
                        #[trigger] out@[k],
                        mount_rows(all.take(j + 1))[k],
                    ) by {
                        if k < out@.len() - 1 {
                            assert(mount_rows(all.take(j + 1))[k] == prev[k]);
                        }
                    }
                }
            }
        }
        j += 1;
    }
    assert(all.take(ls.len() as int) =~= all);
    out
}

} // verus!
