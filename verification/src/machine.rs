//! Machine description from sysfs/procfs text: CPU lists, cache sizes, NUMA
//! node topology, huge pages, block devices and network devices.

use vstd::prelude::*;

use crate::model::{Cache, Core, DiskInfo, FilesystemInfo, GoTime, HugePagesInfo, MachineInfo, NVMInfo, NetInfo, Node, VersionInfo};
use crate::parse::{CpuInfoSummary, MemInfo};
use crate::v2::first_with_prefix;
use crate::order::{chars_lt, ins_by, lemma_ins_by_at, sort_by, str_lt};
use crate::text::{chars_of, find_char, split_once_char, find_char_in, i64_field, i64_field_of, lines, parse_i64, parse_i64_spec, split_on, split_ranges, starts_with, string_of, trim, trim_range, u64_field, u64_field_of, word_ranges, words};

verus! {

// ---------------------------------------------------------------------------
// CPU lists
// ---------------------------------------------------------------------------

/// The ids `a..=b` (none when `a > b`).
pub open spec fn id_range(a: int, b: int) -> Seq<i64> {
    if a <= b {
        Seq::new((b - a + 1) as nat, |i: int| (a + i) as i64)
    } else {
        Seq::empty()
    }
}

/// The ids one comma-separated piece of a CPU list names: `a-b`, `n`, or
/// nothing (empty or malformed).
pub open spec fn cpulist_piece(p: Seq<char>) -> Seq<i64> {
    let t = trim(p);
    if t.len() == 0 {
        Seq::empty()
    } else {
        let d = find_char(t, '-');
        if d >= 0 {
            match (parse_i64_spec(t.take(d)), parse_i64_spec(t.skip(d + 1))) {
                (Some(a), Some(b)) => id_range(a, b),
                _ => Seq::empty(),
            }
        } else {
            match parse_i64_spec(t) {
                Some(v) => seq![v as i64],
                None => Seq::empty(),
            }
        }
    }
}

/// The ids of the pieces `ps`, in order.
pub open spec fn cpulist_ids(ps: Seq<Seq<char>>) -> Seq<i64>
    decreases ps.len(),
{
    if ps.len() == 0 {
        Seq::empty()
    } else {
        cpulist_ids(ps.drop_last()) + cpulist_piece(ps.last())
    }
}

/// The ids a CPU list like `0-3,8,10-11` names, in order.
pub open spec fn cpulist(s: Seq<char>) -> Seq<i64> {
    cpulist_ids(split_on(s, ','))
}

/// Expands a CPU list like `0-3,8,10-11` into ids.
pub fn parse_cpulist(list: &str) -> (r: Vec<i64>)
    ensures
        r@ == cpulist(list@),
{
    let v = chars_of(list);
    let pieces = split_ranges(&v, 0, v.len(), ',');
    assert(v@.subrange(0, v@.len() as int) == v@);
    let ghost ps = split_on(v@, ',');
    let mut out: Vec<i64> = Vec::new();
    let mut i: usize = 0;
    while i < pieces.len()
        invariant
            i <= pieces@.len() == ps.len(),
            ps == split_on(v@, ','),
            v@ == list@,
            forall|j: int| 0 <= j < pieces@.len() ==> 0 <= #[trigger] pieces@[j].0 <= pieces@[j].1 <= v@.len(),
            forall|j: int| 0 <= j < pieces@.len() ==> #[trigger] v@.subrange(pieces@[j].0 as int, pieces@[j].1 as int) == ps[j],
            out@ == cpulist_ids(ps.take(i as int)),
        decreases pieces.len() - i,
    {
        assert(ps.take(i + 1).drop_last() == ps.take(i as int));
        let (plo, phi) = pieces[i];
        let (lo, hi) = trim_range(&v, plo, phi);
        let ghost t = v@.subrange(lo as int, hi as int);
        assert(t == trim(ps[i as int]));
        let ghost before = out@;
        if lo < hi {
            match find_char_in(&v, lo, hi, '-') {
                Some(d) => {
                    assert(t.take(d - lo) == v@.subrange(lo as int, d as int));
                    assert(t.skip(d - lo + 1) == v@.subrange(d + 1, hi as int));
                    match (parse_i64(&v, lo, d), parse_i64(&v, d + 1, hi)) {
                        (Some(a), Some(b)) => {
                            if a <= b {
                                let mut x: i128 = a as i128;
                                while x <= b as i128
                                    invariant
                                        a <= x <= b as int + 1,
                                        a <= b,
                                        out@ == before + id_range(a as int, b as int).take(x - a),
                                    decreases b as int + 1 - x,
                                {
                                    out.push(x as i64);
                                    assert(id_range(a as int, b as int).take(x - a + 1) =~= id_range(a as int, b as int).take(x - a).push(x as i64));
                                    x = x + 1;
                                }
                                assert(id_range(a as int, b as int).take(b - a + 1) == id_range(a as int, b as int));
                            } else {
                                assert(id_range(a as int, b as int) =~= Seq::<i64>::empty());
                            }
                        },
                        _ => {},
                    }
                },
                None => {
                    match parse_i64(&v, lo, hi) {
                        Some(x) => {
                            out.push(x);
                        },
                        None => {},
                    }
                },
            }
        }
        assert(out@ =~= cpulist_ids(ps.take(i + 1)));
        i += 1;
    }
    assert(ps.take(ps.len() as int) == ps);
    out
}

// ---------------------------------------------------------------------------
// NUMA node topology
// ---------------------------------------------------------------------------

/// A cache as values: id, size, type, level.
pub type CacheV = (i64, u64, Seq<char>, i64);

pub open spec fn cache_view(c: Cache) -> CacheV {
    (c.id, c.size, c.cache_type@, c.level)
}

pub open spec fn caches_view(s: Seq<Cache>) -> Seq<CacheV> {
    Seq::new(s.len(), |i: int| cache_view(s[i]))
}

/// A core as values: id, threads, caches, socket.
pub type CoreV = (i64, Seq<i64>, Seq<CacheV>, i64);

pub open spec fn core_view(c: Core) -> CoreV {
    (c.id, c.threads@, caches_view(c.caches@), c.socket_id)
}

pub open spec fn cores_view(s: Seq<Core>) -> Seq<CoreV> {
    Seq::new(s.len(), |i: int| core_view(s[i]))
}

/// A cache of one CPU, with the CPUs that share it.
pub struct CpuCache {
    pub cache: Cache,
    pub shared: Vec<i64>,
}

/// Where one CPU sits: its core, socket and caches.
pub struct CpuTopology {
    pub core_id: i64,
    pub socket_id: i64,
    pub caches: Vec<CpuCache>,
}

/// A CPU's caches as values, each with how many CPUs share it.
pub open spec fn cpu_caches_view(s: Seq<CpuCache>) -> Seq<(CacheV, int)> {
    Seq::new(s.len(), |i: int| (cache_view(s[i].cache), s[i].shared@.len() as int))
}

/// Some cache has the level and type of `c`.
pub open spec fn has_level_type(cs: Seq<CacheV>, c: CacheV) -> bool {
    exists|i: int| 0 <= i < cs.len() && #[trigger] cs[i].3 == c.3 && cs[i].2 == c.2
}

/// Some cache has the id and level of `c`.
pub open spec fn has_id_level(cs: Seq<CacheV>, c: CacheV) -> bool {
    exists|i: int| 0 <= i < cs.len() && #[trigger] cs[i].0 == c.0 && cs[i].3 == c.3
}

/// Where one cache of a CPU goes: levels 1-2 to the core (once per level
/// and type); level 3 and up to the node, once per level and type when
/// every CPU of the node shares it, once per id and level otherwise.
pub open spec fn add_cache(cc: Seq<CacheV>, nc: Seq<CacheV>, c: CacheV, shared: int, ncpus: int) -> (Seq<CacheV>, Seq<CacheV>) {
    if c.3 < 3 {
        (if has_level_type(cc, c) {
            cc
        } else {
            cc.push(c)
        }, nc)
    } else if shared >= ncpus {
        (cc, if has_level_type(nc, c) {
            nc
        } else {
            nc.push(c)
        })
    } else {
        (cc, if has_id_level(nc, c) {
            nc
        } else {
            nc.push(c)
        })
    }
}

pub open spec fn add_caches(cc: Seq<CacheV>, nc: Seq<CacheV>, cs: Seq<(CacheV, int)>, ncpus: int) -> (Seq<CacheV>, Seq<CacheV>)
    decreases cs.len(),
{
    if cs.len() == 0 {
        (cc, nc)
    } else {
        let (a, b) = add_caches(cc, nc, cs.drop_last(), ncpus);
        add_cache(a, b, cs.last().0, cs.last().1, ncpus)
    }
}

/// The first core with id `id`, or the number of cores.
pub open spec fn core_index(cores: Seq<CoreV>, id: i64) -> int
    decreases cores.len(),
{
    if cores.len() == 0 {
        0
    } else if cores[0].0 == id {
        0
    } else {
        1 + core_index(cores.drop_first(), id)
    }
}

/// Orders ids ascending.
pub open spec fn id_order() -> spec_fn(i64, i64) -> bool {
    |a: i64, b: i64| a < b
}

/// One CPU joins its core (created on first sight) as a thread, in id
/// order, and its caches are placed.
pub open spec fn cpu_step(cores: Seq<CoreV>, nc: Seq<CacheV>, cpu: i64, t: Option<(i64, i64, Seq<(CacheV, int)>)>, ncpus: int) -> (Seq<CoreV>, Seq<CacheV>) {
    match t {
        None => (cores, nc),
        Some((core_id, socket_id, caches)) => {
            let idx = core_index(cores, core_id);
            let cores1 = if idx == cores.len() {
                cores.push((core_id, Seq::<i64>::empty(), Seq::<CacheV>::empty(), socket_id))
            } else {
                cores
            };
            let c = cores1[idx];
            let (cc, nc2) = add_caches(c.2, nc, caches, ncpus);
            (cores1.update(idx, (c.0, ins_by(c.1, cpu, id_order()), cc, c.3)), nc2)
        },
    }
}

pub open spec fn topo_view(t: Option<CpuTopology>) -> Option<(i64, i64, Seq<(CacheV, int)>)> {
    match t {
        Some(x) => Some((x.core_id, x.socket_id, cpu_caches_view(x.caches@))),
        None => None,
    }
}

/// The cores and node caches after the first `n` CPUs.
pub open spec fn cpus_fold(cpus: Seq<i64>, topo: Seq<Option<CpuTopology>>, n: int) -> (Seq<CoreV>, Seq<CacheV>)
    decreases n,
{
    if n <= 0 {
        (Seq::empty(), Seq::empty())
    } else {
        let (cores, nc) = cpus_fold(cpus, topo, n - 1);
        cpu_step(cores, nc, cpus[n - 1], topo_view(topo[n - 1]), cpus.len() as int)
    }
}

/// Orders cores by id.
pub open spec fn core_order() -> spec_fn(CoreV, CoreV) -> bool {
    |a: CoreV, b: CoreV| a.0 < b.0
}

/// Orders caches by level, then type.
pub open spec fn cache_order() -> spec_fn(CacheV, CacheV) -> bool {
    |a: CacheV, b: CacheV| a.3 < b.3 || (a.3 == b.3 && chars_lt(a.2, b.2))
}

/// The cores of a node: by id, each with its caches by level and type.
pub open spec fn node_cores(cpus: Seq<i64>, topo: Seq<Option<CpuTopology>>) -> Seq<CoreV> {
    let cores = sort_by(cpus_fold(cpus, topo, cpus.len() as int).0, core_order());
    Seq::new(cores.len(), |i: int| (cores[i].0, cores[i].1, sort_by(cores[i].2, cache_order()), cores[i].3))
}

fn copy_cache(c: &Cache) -> (r: Cache)
    ensures
        cache_view(r) == cache_view(*c),
{
    Cache { id: c.id, size: c.size, cache_type: c.cache_type.clone(), level: c.level }
}

fn copy_ids(v: &Vec<i64>) -> (r: Vec<i64>)
    ensures
        r@ == v@,
{
    let mut r: Vec<i64> = Vec::new();
    let mut i: usize = 0;
    while i < v.len()
        invariant
            i <= v@.len(),
            r@ == v@.take(i as int),
        decreases v.len() - i,
    {
        r.push(v[i]);
        assert(v@.take(i + 1) == v@.take(i as int).push(v@[i as int]));
        i += 1;
    }
    assert(v@.take(v@.len() as int) == v@);
    r
}

fn copy_caches(v: &Vec<Cache>) -> (r: Vec<Cache>)
    ensures
        caches_view(r@) == caches_view(v@),
{
    let mut r: Vec<Cache> = Vec::new();
    let mut i: usize = 0;
    while i < v.len()
        invariant
            i <= v@.len(),
            r@.len() == i,
            forall|k: int| 0 <= k < i ==> #[trigger] cache_view(r@[k]) == cache_view(v@[k]),
        decreases v.len() - i,
    {
        r.push(copy_cache(&v[i]));
        i += 1;
    }
    assert(caches_view(r@) =~= caches_view(v@));
    r
}

/// Whether some cache has the level and type of `c`.
fn find_level_type(cs: &Vec<Cache>, c: &Cache) -> (b: bool)
    ensures
        b == has_level_type(caches_view(cs@), cache_view(*c)),
{
    let ghost cv = caches_view(cs@);
    let mut i: usize = 0;
    while i < cs.len()
        invariant
            i <= cs@.len(),
            cv == caches_view(cs@),
            forall|k: int| 0 <= k < i ==> !(#[trigger] cv[k].3 == c.level && cv[k].2 == c.cache_type@),
        decreases cs.len() - i,
    {
        if cs[i].level == c.level && crate::order::str_eq(cs[i].cache_type.as_str(), c.cache_type.as_str()) {
            assert(cv[i as int].3 == c.level && cv[i as int].2 == c.cache_type@);
            return true;
        }
        i += 1;
    }
    false
}

/// Whether some cache has the id and level of `c`.
fn find_id_level(cs: &Vec<Cache>, c: &Cache) -> (b: bool)
    ensures
        b == has_id_level(caches_view(cs@), cache_view(*c)),
{
    let ghost cv = caches_view(cs@);
    let mut i: usize = 0;
    while i < cs.len()
        invariant
            i <= cs@.len(),
            cv == caches_view(cs@),
            forall|k: int| 0 <= k < i ==> !(#[trigger] cv[k].0 == c.id && cv[k].3 == c.level),
        decreases cs.len() - i,
    {
        if cs[i].id == c.id && cs[i].level == c.level {
            assert(cv[i as int].0 == c.id && cv[i as int].3 == c.level);
            return true;
        }
        i += 1;
    }
    false
}

fn push_cache(cs: &mut Vec<Cache>, c: Cache)
    ensures
        caches_view(final(cs)@) == caches_view(old(cs)@).push(cache_view(c)),
{
    let ghost before = cs@;
    cs.push(c);
    assert(caches_view(cs@) =~= caches_view(before).push(cache_view(c))) by {
        assert(cs@[before.len() as int] == c);
    }
}

proof fn lemma_core_index(cores: Seq<CoreV>, id: i64, k: int)
    requires
        0 <= k <= cores.len(),
        forall|m: int| 0 <= m < k ==> (#[trigger] cores[m]).0 != id,
        k == cores.len() || cores[k].0 == id,
    ensures
        core_index(cores, id) == k,
    decreases cores.len(),
{
    if cores.len() > 0 && k > 0 {
        let t = cores.drop_first();
        assert forall|m: int| 0 <= m < k - 1 implies (#[trigger] t[m]).0 != id by {
            assert(t[m] == cores[m + 1]);
        }
        if k < cores.len() {
            assert(t[k - 1] == cores[k]);
        }
        lemma_core_index(t, id, k - 1);
    }
}

fn copy_core(c: &Core) -> (r: Core)
    ensures
        core_view(r) == core_view(*c),
{
    Core { id: c.id, threads: copy_ids(&c.threads), caches: copy_caches(&c.caches), socket_id: c.socket_id }
}

/// Sorts caches by level, then type (stably).
fn sort_caches(v: &Vec<Cache>) -> (r: Vec<Cache>)
    ensures
        caches_view(r@) == sort_by(caches_view(v@), cache_order()),
{
    let ghost cv = caches_view(v@);
    let mut out: Vec<Cache> = Vec::new();
    let mut i: usize = 0;
    while i < v.len()
        invariant
            i <= v@.len(),
            cv == caches_view(v@),
            caches_view(out@) == sort_by(cv.take(i as int), cache_order()),
        decreases v.len() - i,
    {
        let x = copy_cache(&v[i]);
        let ghost xv = cache_view(x);
        let mut j: usize = 0;
        while j < out.len() && !(x.level < out[j].level || (x.level == out[j].level && str_lt(x.cache_type.as_str(), out[j].cache_type.as_str())))
            invariant
                j <= out@.len(),
                xv == cache_view(x),
                forall|m: int| 0 <= m < j ==> !(cache_order())(xv, #[trigger] caches_view(out@)[m]),
            decreases out.len() - j,
        {
            j += 1;
        }
        proof {
            assert(cv.take(i + 1).drop_last() == cv.take(i as int));
            assert(cv.take(i + 1).last() == xv);
            lemma_ins_by_at(caches_view(out@), xv, cache_order(), j as int);
        }
        let ghost before = out@;
        out.insert(j, x);
        assert(caches_view(out@) =~= caches_view(before).insert(j as int, xv));
        i += 1;
    }
    assert(cv.take(v@.len() as int) == cv);
    out
}

/// Sorts cores by id (stably).
fn sort_cores(v: &Vec<Core>) -> (r: Vec<Core>)
    ensures
        cores_view(r@) == sort_by(cores_view(v@), core_order()),
{
    let ghost cv = cores_view(v@);
    let mut out: Vec<Core> = Vec::new();
    let mut i: usize = 0;
    while i < v.len()
        invariant
            i <= v@.len(),
            cv == cores_view(v@),
            cores_view(out@) == sort_by(cv.take(i as int), core_order()),
        decreases v.len() - i,
    {
        let x = copy_core(&v[i]);
        let ghost xv = core_view(x);
        let mut j: usize = 0;
        while j < out.len() && !(x.id < out[j].id)
            invariant
                j <= out@.len(),
                xv == core_view(x),
                forall|m: int| 0 <= m < j ==> !(core_order())(xv, #[trigger] cores_view(out@)[m]),
            decreases out.len() - j,
        {
            j += 1;
        }
        proof {
            assert(cv.take(i + 1).drop_last() == cv.take(i as int));
            assert(cv.take(i + 1).last() == xv);
            lemma_ins_by_at(cores_view(out@), xv, core_order(), j as int);
        }
        let ghost before = out@;
        out.insert(j, x);
        assert(cores_view(out@) =~= cores_view(before).insert(j as int, xv));
        i += 1;
    }
    assert(cv.take(v@.len() as int) == cv);
    out
}

/// Places the caches of one CPU.
fn place_caches(cc: &mut Vec<Cache>, nc: &mut Vec<Cache>, caches: &Vec<CpuCache>, ncpus: usize)
    ensures
        (caches_view(final(cc)@), caches_view(final(nc)@)) == add_caches(caches_view(old(cc)@), caches_view(old(nc)@), cpu_caches_view(caches@), ncpus as int),
{
    let ghost cs = cpu_caches_view(caches@);
    let ghost c0 = caches_view(cc@);
    let ghost n0 = caches_view(nc@);
    let mut k: usize = 0;
    while k < caches.len()
        invariant
            k <= caches@.len(),
            cs == cpu_caches_view(caches@),
            (caches_view(cc@), caches_view(nc@)) == add_caches(c0, n0, cs.take(k as int), ncpus as int),
        decreases caches.len() - k,
    {
        assert(cs.take(k + 1).drop_last() == cs.take(k as int));
        assert(cs.take(k + 1).last() == cs[k as int]);
        let c = &caches[k].cache;
        let shared = caches[k].shared.len();
        if c.level < 3 {
            if !find_level_type(cc, c) {
                push_cache(cc, copy_cache(c));
            }
        } else if shared >= ncpus {
            if !find_level_type(nc, c) {
                push_cache(nc, copy_cache(c));
            }
        } else {
            if !find_id_level(nc, c) {
                push_cache(nc, copy_cache(c));
            }
        }
        k += 1;
    }
    assert(cs.take(caches@.len() as int) == cs);
}

/// Builds a NUMA node: its CPUs become threads of their cores (cores by
/// id, threads ascending), per-core caches go to the cores and shared
/// caches to the node; `topo[i]` is where `cpus[i]` sits (absent: the CPU
/// is left out).
pub fn assemble_node(
    id: i64,
    memory: u64,
    hugepages: Vec<HugePagesInfo>,
    distances: Vec<u64>,
    cpus: &Vec<i64>,
    topo: &Vec<Option<CpuTopology>>,
) -> (n: Node)
    requires
        topo@.len() == cpus@.len(),
    ensures
        n.id == id,
        n.memory == memory,
        n.hugepages@ == hugepages@,
        n.distances@ == distances@,
        cores_view(n.cores@) == node_cores(cpus@, topo@),
        caches_view(n.caches@) == cpus_fold(cpus@, topo@, cpus@.len() as int).1,
{
    let ncpus = cpus.len();
    let mut cores: Vec<Core> = Vec::new();
    let mut nc: Vec<Cache> = Vec::new();
    let mut i: usize = 0;
    assert(cores_view(cores@) =~= Seq::<CoreV>::empty());
    assert(caches_view(nc@) =~= Seq::<CacheV>::empty());
    while i < ncpus
        invariant
            i <= ncpus == cpus@.len() == topo@.len(),
            (cores_view(cores@), caches_view(nc@)) == cpus_fold(cpus@, topo@, i as int),
        decreases ncpus - i,
    {
        match &topo[i] {
            None => {},
            Some(t) => {
                let ghost cv0 = cores_view(cores@);
                let mut idx: usize = 0;
                while idx < cores.len() && cores[idx].id != t.core_id
                    invariant
                        idx <= cores@.len(),
                        cv0 == cores_view(cores@),
                        forall|m: int| 0 <= m < idx ==> (#[trigger] cv0[m]).0 != t.core_id,
                    decreases cores.len() - idx,
                {
                    idx += 1;
                }
                proof {
                    lemma_core_index(cv0, t.core_id, idx as int);
                }
                if idx == cores.len() {
                    let ghost before = cores@;
                    cores.push(Core { id: t.core_id, threads: Vec::new(), caches: Vec::new(), socket_id: t.socket_id });
                    assert(cores_view(cores@) =~= cv0.push((t.core_id, Seq::<i64>::empty(), Seq::<CacheV>::empty(), t.socket_id))) by {
                        assert(caches_view(cores@[idx as int].caches@) =~= Seq::<CacheV>::empty());
                    }
                }
                let ghost cv1 = cores_view(cores@);
                let cpu = cpus[i];
                let mut threads = copy_ids(&cores[idx].threads);
                let mut p: usize = 0;
                while p < threads.len() && !(cpu < threads[p])
                    invariant
                        p <= threads@.len(),
                        forall|m: int| 0 <= m < p ==> !(id_order())(cpu, #[trigger] threads@[m]),
                    decreases threads.len() - p,
                {
                    p += 1;
                }
                proof {
                    lemma_ins_by_at(threads@, cpu, id_order(), p as int);
                }
                threads.insert(p, cpu);
                let mut cc = copy_caches(&cores[idx].caches);
                place_caches(&mut cc, &mut nc, &t.caches, ncpus);
                let core = Core { id: cores[idx].id, threads, caches: cc, socket_id: cores[idx].socket_id };
                let ghost before = cores@;
                cores.set(idx, core);
                assert(cores_view(cores@) =~= cores_view(before).update(idx as int, core_view(core)));
            },
        }
        i += 1;
    }
    let sorted = sort_cores(&cores);
    let mut out: Vec<Core> = Vec::new();
    let ghost sv = cores_view(sorted@);
    let mut j: usize = 0;
    while j < sorted.len()
        invariant
            j <= sorted@.len(),
            sv == cores_view(sorted@),
            out@.len() == j,
            forall|m: int| 0 <= m < j ==> #[trigger] core_view(out@[m]) == (sv[m].0, sv[m].1, sort_by(sv[m].2, cache_order()), sv[m].3),
        decreases sorted.len() - j,
    {
        let c = &sorted[j];
        let caches = sort_caches(&c.caches);
        out.push(Core { id: c.id, threads: copy_ids(&c.threads), caches, socket_id: c.socket_id });
        j += 1;
    }
    assert(cores_view(out@) =~= node_cores(cpus@, topo@));
    Node { id, memory, hugepages, cores: out, caches: nc, distances }
}

// ---------------------------------------------------------------------------
// Small sysfs values
// ---------------------------------------------------------------------------

/// A cache size like `32K`, `1280K` or `24M` in bytes (a malformed number
/// reads as 0).
pub open spec fn cache_size(s: Seq<char>) -> int {
    let t = trim(s);
    if t.len() > 0 && t.last() == 'K' {
        u64_field(t.drop_last()) * 1024
    } else if t.len() > 0 && t.last() == 'M' {
        u64_field(t.drop_last()) * 1048576
    } else if t.len() > 0 && t.last() == 'G' {
        u64_field(t.drop_last()) * 1073741824
    } else {
        u64_field(t) as int
    }
}

/// Parses a cache size like `32K` into bytes.
pub fn parse_cache_size(s: &str) -> (r: u64)
    requires
        cache_size(s@) <= u64::MAX,
    ensures
        r == cache_size(s@),
{
    let v = chars_of(s);
    let (lo, hi) = trim_range(&v, 0, v.len());
    assert(v@.subrange(0, v@.len() as int) == v@);
    let ghost t = v@.subrange(lo as int, hi as int);
    if lo < hi {
        assert(t.last() == v@[hi - 1]);
        assert(t.drop_last() == v@.subrange(lo as int, hi - 1));
        let last = v[hi - 1];
        if last == 'K' {
            return u64_field_of(&v, lo, hi - 1) * 1024;
        } else if last == 'M' {
            return u64_field_of(&v, lo, hi - 1) * 1048576;
        } else if last == 'G' {
            return u64_field_of(&v, lo, hi - 1) * 1073741824;
        }
    }
    u64_field_of(&v, lo, hi)
}

/// Whether a cache size text's byte count fits in `u64`, as
/// `parse_cache_size` needs.
pub fn cache_size_fits(s: &str) -> (b: bool)
    ensures
        b == (cache_size(s@) <= u64::MAX),
{
    let v = chars_of(s);
    let (lo, hi) = trim_range(&v, 0, v.len());
    assert(v@.subrange(0, v@.len() as int) == v@);
    let ghost t = v@.subrange(lo as int, hi as int);
    if lo < hi {
        assert(t.last() == v@[hi - 1]);
        assert(t.drop_last() == v@.subrange(lo as int, hi - 1));
        let last = v[hi - 1];
        if last == 'K' {
            return u64_field_of(&v, lo, hi - 1) <= 18014398509481983;
        } else if last == 'M' {
            return u64_field_of(&v, lo, hi - 1) <= 17592186044415;
        } else if last == 'G' {
            return u64_field_of(&v, lo, hi - 1) <= 17179869183;
        }
    }
    true
}

/// Whether `s` contains `pat`.
pub open spec fn contains_text(s: Seq<char>, pat: Seq<char>) -> bool {
    crate::text::find_sub(s, pat) >= 0
}

/// The memory a node's `meminfo` reports (`Node N MemTotal: K kB`), in
/// bytes: from the last `MemTotal:` line, its next-to-last word in KiB.
pub open spec fn node_memory_of(ls: Seq<Seq<char>>) -> int
    decreases ls.len(),
{
    if ls.len() == 0 {
        0
    } else if contains_text(ls.last(), "MemTotal:"@) {
        let w = words(ls.last());
        (if w.len() >= 2 {
            u64_field(w[w.len() - 2]) as int
        } else {
            0
        }) * 1024
    } else {
        node_memory_of(ls.drop_last())
    }
}

/// Every `MemTotal:` line's KiB count fits in bytes.
pub open spec fn node_memory_fits(ls: Seq<Seq<char>>) -> bool {
    forall|i: int|
        0 <= i < ls.len() && contains_text(#[trigger] ls[i], "MemTotal:"@) && words(ls[i]).len() >= 2
            ==> u64_field(words(ls[i])[words(ls[i]).len() - 2]) * 1024 <= u64::MAX
}

/// Whether a node's `meminfo` text passes `node_memory_fits`, as
/// `node_memory` needs.
#[verifier::loop_isolation(false)]
pub fn node_memory_fits_text(content: &str) -> (b: bool)
    ensures
        b == node_memory_fits(lines(trim(content@))),
{
    let v = chars_of(content);
    let (a, b) = trim_range(&v, 0, v.len());
    assert(v@.subrange(0, v@.len() as int) == v@);
    let t = string_of(&v, a, b);
    let lr = crate::parse::lines_of(t.as_str());
    assert forall|j: int| 0 <= j < lr.1@.len() implies #[trigger] lr.1@[j].0 <= lr.1@[j].1 <= lr.0@.len() by {
        assert(lr.1@[j].0 <= lr.1@[j].1 <= lr.0.len());
    }
    let w = lr.0;
    let ls = lr.1;
    let ghost l = lines(t@);
    let pat = chars_of("MemTotal:");
    proof {
        reveal_strlit("MemTotal:");
    }
    let mut i: usize = 0;
    while i < ls.len()
        invariant
            i <= ls@.len() == l.len(),
            pat@ == "MemTotal:"@,
            pat@.len() > 0,
            forall|k: int|
                0 <= k < i && contains_text(#[trigger] l[k], "MemTotal:"@) && words(l[k]).len() >= 2
                    ==> u64_field(words(l[k])[words(l[k]).len() - 2]) * 1024 <= u64::MAX,
        decreases ls.len() - i,
    {
        let (lo, hi) = ls[i];
        assert(w@.subrange(lo as int, hi as int) == l[i as int]);
        if crate::text::find_sub_in(&w, lo, hi, &pat).is_some() {
            let words_r = word_ranges(&w, lo, hi);
            let n = words_r.len();
            if n >= 2 {
                let kb = u64_field_of(&w, words_r[n - 2].0, words_r[n - 2].1);
                let ghost wl = words(l[i as int]);
                assert(w@.subrange(words_r@[n - 2].0 as int, words_r@[n - 2].1 as int) == wl[n - 2]);
                if kb > 18014398509481983 {
                    assert(contains_text(l[i as int], "MemTotal:"@));
                    return false;
                }
            }
        } else {
            assert(!contains_text(l[i as int], "MemTotal:"@));
        }
        i += 1;
    }
    true
}

/// The memory of a NUMA node from its `meminfo` text.
#[verifier::loop_isolation(false)]
pub fn node_memory(content: &str) -> (r: u64)
    requires
        node_memory_fits(lines(trim(content@))),
    ensures
        r == node_memory_of(lines(trim(content@))),
{
    let v = chars_of(content);
    let (a, b) = trim_range(&v, 0, v.len());
    assert(v@.subrange(0, v@.len() as int) == v@);
    let t = string_of(&v, a, b);
    let lr = crate::parse::lines_of(t.as_str());
    assert forall|j: int| 0 <= j < lr.1@.len() implies #[trigger] lr.1@[j].0 <= lr.1@[j].1 <= lr.0@.len() by {
        assert(lr.1@[j].0 <= lr.1@[j].1 <= lr.0.len());
    }
    let w = lr.0;
    let ls = lr.1;
    let ghost l = lines(t@);
    let pat = chars_of("MemTotal:");
    proof {
        reveal_strlit("MemTotal:");
    }
    assert(pat@.len() > 0);
    assert(t@ == trim(content@));
    let mut i = ls.len();
    assert(l.take(i as int) == l);
    while i > 0
        invariant
            i <= ls@.len() == l.len(),
            l == lines(t@),
            w@ == t@,
            t@ == trim(content@),
            pat@ == "MemTotal:"@,
            pat@.len() > 0,
            node_memory_fits(l),
            node_memory_of(l) == node_memory_of(l.take(i as int)),
            node_memory_of(l) == node_memory_of(l.take(i as int)),
        decreases i,
    {
        let (lo, hi) = ls[i - 1];
        assert(l.take(i as int).last() == l[i - 1]);
        assert(l.take(i as int).drop_last() == l.take(i - 1));
        if crate::text::find_sub_in(&w, lo, hi, &pat).is_some() {
            let words_r = word_ranges(&w, lo, hi);
            let n = words_r.len();
            let kb: u64 = if n >= 2 {
                u64_field_of(&w, words_r[n - 2].0, words_r[n - 2].1)
            } else {
                0
            };
            proof {
                let wl = words(l[i - 1]);
                assert(w@.subrange(lo as int, hi as int) == l[i - 1]);
                assert(contains_text(l[i - 1], "MemTotal:"@));
                assert(wl.len() == n);
                if n >= 2 {
                    assert(w@.subrange(words_r@[n - 2].0 as int, words_r@[n - 2].1 as int) == wl[n - 2]);
                    assert(kb == u64_field(wl[n - 2]));
                    assert(u64_field(wl[wl.len() - 2]) * 1024 <= u64::MAX);
                }
                assert(node_memory_of(l.take(i as int)) == kb * 1024);
            }
            return kb * 1024;
        }
        i -= 1;
    }
    0
}

pub open spec fn ends_with(s: Seq<char>, p: Seq<char>) -> bool {
    p.len() <= s.len() && s.skip(s.len() - p.len()) == p
}

/// Whether `v` starts with the text `p`.
pub fn text_starts_with(v: &Vec<char>, p: &str) -> (b: bool)
    ensures
        b == starts_with(v@, p@),
{
    let q = chars_of(p);
    if q.len() > v.len() {
        return false;
    }
    let mut i: usize = 0;
    while i < q.len()
        invariant
            i <= q.len() <= v.len(),
            q@ == p@,
            forall|k: int| 0 <= k < i ==> v@[k] == q@[k],
        decreases q.len() - i,
    {
        if v[i] != q[i] {
            assert(v@.take(q@.len() as int)[i as int] != p@[i as int]);
            return false;
        }
        i += 1;
    }
    assert(v@.take(q@.len() as int) =~= p@);
    true
}

/// Whether `v` ends with the text `p`.
pub fn text_ends_with(v: &Vec<char>, p: &str) -> (b: bool)
    ensures
        b == ends_with(v@, p@),
{
    let q = chars_of(p);
    if q.len() > v.len() {
        return false;
    }
    let off = v.len() - q.len();
    let mut i: usize = 0;
    while i < q.len()
        invariant
            i <= q.len() <= v.len(),
            off == v.len() - q.len(),
            q@ == p@,
            forall|k: int| 0 <= k < i ==> v@[off + k] == q@[k],
        decreases q.len() - i,
    {
        if v[off + i] != q[i] {
            assert(v@.skip(off as int)[i as int] != p@[i as int]);
            return false;
        }
        i += 1;
    }
    assert(v@.skip(off as int) =~= p@);
    true
}

// ---------------------------------------------------------------------------
// Huge pages
// ---------------------------------------------------------------------------

/// A `hugepages-<size>kB` directory name with its page count.
pub open spec fn huge_entry(name: Seq<char>, nr: u64) -> Option<(Seq<char>, HugePagesInfo)> {
    let pre = "hugepages-"@;
    if starts_with(name, pre) && ends_with(name.skip(pre.len() as int), "kB"@) {
        let mid = name.skip(pre.len() as int);
        Some((name, HugePagesInfo { page_size: u64_field(mid.take(mid.len() - 2)), num_pages: nr }))
    } else {
        None
    }
}

pub open spec fn huge_entries(es: Seq<(String, u64)>) -> Seq<(Seq<char>, HugePagesInfo)>
    decreases es.len(),
{
    if es.len() == 0 {
        Seq::empty()
    } else {
        huge_entries(es.drop_last()) + match huge_entry(es.last().0@, es.last().1) {
            Some(e) => seq![e],
            None => Seq::empty(),
        }
    }
}

/// Orders huge page pools by directory name.
pub open spec fn huge_order() -> spec_fn((Seq<char>, HugePagesInfo), (Seq<char>, HugePagesInfo)) -> bool {
    |a: (Seq<char>, HugePagesInfo), b: (Seq<char>, HugePagesInfo)| chars_lt(a.0, b.0)
}

/// The huge page pools of a `hugepages` directory, in name order.
pub open spec fn hugepages_spec(es: Seq<(String, u64)>) -> Seq<HugePagesInfo> {
    let s = sort_by(huge_entries(es), huge_order());
    Seq::new(s.len(), |i: int| s[i].1)
}

/// The huge page pools from a directory's entries (name, page count).
pub fn hugepages_from(entries: &Vec<(String, u64)>) -> (r: Vec<HugePagesInfo>)
    ensures
        r@ == hugepages_spec(entries@),
{
    let ghost he = huge_entries(entries@);
    let mut named: Vec<(String, HugePagesInfo)> = Vec::new();
    let mut i: usize = 0;
    while i < entries.len()
        invariant
            i <= entries@.len(),
            named@.len() == sort_by(huge_entries(entries@.take(i as int)), huge_order()).len(),
            forall|k: int| 0 <= k < named@.len() ==> (#[trigger] named@[k].0@, named@[k].1) == sort_by(huge_entries(entries@.take(i as int)), huge_order())[k],
        decreases entries.len() - i,
    {
        assert(entries@.take(i + 1).drop_last() == entries@.take(i as int));
        let ghost sorted0 = sort_by(huge_entries(entries@.take(i as int)), huge_order());
        let name = &entries[i].0;
        let v = chars_of(name.as_str());
        proof {
            reveal_strlit("hugepages-");
            reveal_strlit("kB");
        }
        if text_starts_with(&v, "hugepages-") {
            let rest = string_of(&v, 10, v.len());
            let rv = chars_of(rest.as_str());
            assert(rv@ == v@.skip(10));
            if text_ends_with(&rv, "kB") {
                let page_size = u64_field_of(&rv, 0, rv.len() - 2);
                assert(rv@.subrange(0, rv@.len() - 2) == rv@.take(rv@.len() - 2));
                let info = HugePagesInfo { page_size, num_pages: entries[i].1 };
                let ghost e = (name@, info);
                let mut j: usize = 0;
                while j < named.len() && !str_lt(name.as_str(), named[j].0.as_str())
                    invariant
                        j <= named@.len(),
                        e == (name@, info),
                        named@.len() == sorted0.len(),
                        forall|k: int| 0 <= k < named@.len() ==> (#[trigger] named@[k].0@, named@[k].1) == sorted0[k],
                        forall|m: int| 0 <= m < j ==> !(huge_order())(e, #[trigger] sorted0[m]),
                    decreases named.len() - j,
                {
                    assert(sorted0[j as int] == (named@[j as int].0@, named@[j as int].1));
                    assert(!chars_lt(e.0, sorted0[j as int].0));
                    j += 1;
                }
                proof {
                    if j < named@.len() {
                        assert(sorted0[j as int] == (named@[j as int].0@, named@[j as int].1));
                    }
                    lemma_ins_by_at(sorted0, e, huge_order(), j as int);
                }
                let ghost before = named@;
                named.insert(j, (name.clone(), info));
                proof {
                    let target = sort_by(huge_entries(entries@.take(i + 1)), huge_order());
                    assert(huge_entries(entries@.take(i + 1)) == huge_entries(entries@.take(i as int)).push(e));
                    let prev = huge_entries(entries@.take(i as int));
                    assert(prev.push(e).drop_last() == prev);
                    assert(target == crate::order::ins_by(sorted0, e, huge_order()));
                    assert(target == sorted0.insert(j as int, e));
                    assert forall|k: int| 0 <= k < named@.len() implies (#[trigger] named@[k].0@, named@[k].1) == target[k] by {
                        if k < j {
                            assert(named@[k] == before[k]);
                        } else if k > j {
                            assert(named@[k] == before[k - 1]);
                        }
                    }
                }
            } else {
                assert(huge_entries(entries@.take(i + 1)) =~= huge_entries(entries@.take(i as int)));
            }
        } else {
            assert(huge_entries(entries@.take(i + 1)) =~= huge_entries(entries@.take(i as int)));
        }
        i += 1;
    }
    assert(entries@.take(entries@.len() as int) == entries@);
    let mut out: Vec<HugePagesInfo> = Vec::new();
    let mut k: usize = 0;
    while k < named.len()
        invariant
            k <= named@.len(),
            named@.len() == sort_by(huge_entries(entries@), huge_order()).len(),
            forall|m: int| 0 <= m < named@.len() ==> (#[trigger] named@[m].0@, named@[m].1) == sort_by(huge_entries(entries@), huge_order())[m],
            out@.len() == k,
            forall|m: int| 0 <= m < k ==> #[trigger] out@[m] == named@[m].1,
        decreases named.len() - k,
    {
        out.push(named[k].1);
        k += 1;
    }
    let ghost sv = sort_by(huge_entries(entries@), huge_order());
    assert forall|m: int| 0 <= m < out@.len() implies #[trigger] out@[m] == sv[m].1 by {
        assert((named@[m].0@, named@[m].1) == sv[m]);
    }
    assert(out@ =~= hugepages_spec(entries@));
    out
}

// ---------------------------------------------------------------------------
// Caches, block devices and network devices of sysfs
// ---------------------------------------------------------------------------

/// The cache types reported: `Data`, `Instruction` and `Unified`.
pub open spec fn known_cache_type(t: Seq<char>) -> bool {
    t == "Data"@ || t == "Instruction"@ || t == "Unified"@
}

pub open spec fn opt_text(t: Option<&str>) -> Option<Seq<char>> {
    match t {
        Some(x) => Some(x@),
        None => None,
    }
}

/// A CPU cache directory entry: an `index*` entry of a known type, with
/// its level, size, id and sharing CPUs; anything else is skipped.
pub open spec fn cache_entry_of(
    c: CpuCache,
    level: u64,
    t: Seq<char>,
    size_text: Seq<char>,
    id: u64,
    shared_text: Seq<char>,
) -> bool {
    &&& c.cache.level == level as i64
    &&& c.cache.cache_type@ == t
    &&& c.cache.size == cache_size(size_text)
    &&& c.cache.id == id as i64
    &&& c.shared@ == cpulist(shared_text)
}

/// The cache a cache directory entry describes: entry name, level, type,
/// size, id and shared CPU list, each as read (0 or empty where missing).
pub fn cache_entry(name: &str, level: u64, cache_type: Option<&str>, size_text: &str, id: u64, shared_text: &str) -> (r: Option<CpuCache>)
    requires
        cache_size(size_text@) <= u64::MAX,
    ensures
        r is Some <==> (starts_with(name@, "index"@) && (opt_text(cache_type) matches Some(t) && known_cache_type(t))),
        r matches Some(c) ==> cache_entry_of(c, level, opt_text(cache_type)->0, size_text@, id, shared_text@),
{
    let v = chars_of(name);
    proof {
        reveal_strlit("index");
    }
    if !text_starts_with(&v, "index") {
        return None;
    }
    let t = match cache_type {
        Some(t) => t,
        None => {
            return None;
        },
    };
    if !(crate::order::str_eq(t, "Data") || crate::order::str_eq(t, "Instruction") || crate::order::str_eq(t, "Unified")) {
        return None;
    }
    let mut ty = String::new();
    crate::text::push_all(&mut ty, t);
    Some(
        CpuCache {
            cache: Cache { id: id as i64, size: parse_cache_size(size_text), cache_type: ty, level: level as i64 },
            shared: parse_cpulist(shared_text),
        },
    )
}

/// Block devices that are not reported: loop, ram, optical and floppy.
pub open spec fn skipped_disk(name: Seq<char>) -> bool {
    starts_with(name, "loop"@) || starts_with(name, "ram"@) || starts_with(name, "sr"@) || starts_with(name, "fd"@)
}

/// The active I/O scheduler of a `queue/scheduler` text: the bracketed
/// word without its brackets, `none` where there is none.
pub open spec fn scheduler_of(t: Option<Seq<char>>) -> Seq<char> {
    match t {
        Some(x) => match first_bracketed(words(x)) {
            Some(w) => trim_brackets(w),
            None => "none"@,
        },
        None => "none"@,
    }
}

pub open spec fn first_bracketed(ws: Seq<Seq<char>>) -> Option<Seq<char>>
    decreases ws.len(),
{
    if ws.len() == 0 {
        None
    } else if ws[0].len() > 0 && ws[0][0] == '[' {
        Some(ws[0])
    } else {
        first_bracketed(ws.drop_first())
    }
}

pub open spec fn is_bracket(c: char) -> bool {
    c == '[' || c == ']'
}

/// The text without leading and trailing `[` and `]`.
pub open spec fn trim_brackets(s: Seq<char>) -> Seq<char>
    decreases s.len(),
{
    if s.len() > 0 && is_bracket(s[0]) {
        trim_brackets(s.drop_first())
    } else if s.len() > 0 && is_bracket(s.last()) {
        trim_brackets(s.drop_last())
    } else {
        s
    }
}

proof fn lemma_trim_brackets(s: Seq<char>, a: int, b: int)
    requires
        0 <= a <= b <= s.len(),
        forall|k: int| 0 <= k < a ==> is_bracket(#[trigger] s[k]),
        a < b ==> !is_bracket(s[a]),
        forall|k: int| b <= k < s.len() ==> is_bracket(#[trigger] s[k]),
        b > a ==> !is_bracket(s[b - 1]),
    ensures
        trim_brackets(s) == s.subrange(a, b),
    decreases s.len(),
{
    if s.len() > 0 && is_bracket(s[0]) {
        let t = s.drop_first();
        let (a2, b2) = if a > 0 {
            (a - 1, b - 1)
        } else {
            (0, 0)
        };
        assert forall|k: int| 0 <= k < a2 implies is_bracket(#[trigger] t[k]) by {
            assert(t[k] == s[k + 1]);
        }
        assert forall|k: int| b2 <= k < t.len() implies is_bracket(#[trigger] t[k]) by {
            assert(t[k] == s[k + 1]);
        }
        if a2 < b2 {
            assert(t[a2] == s[a2 + 1]);
            assert(t[b2 - 1] == s[b2]);
        }
        lemma_trim_brackets(t, a2, b2);
        assert(t.subrange(a2, b2) =~= s.subrange(a, b));
    } else if s.len() > 0 && is_bracket(s.last()) {
        let t = s.drop_last();
        assert forall|k: int| 0 <= k < a implies is_bracket(#[trigger] t[k]) by {
            assert(t[k] == s[k]);
        }
        assert forall|k: int| b <= k < t.len() implies is_bracket(#[trigger] t[k]) by {
            assert(t[k] == s[k]);
        }
        if a < b {
            assert(t[a] == s[a]);
            assert(t[b - 1] == s[b - 1]);
        }
        lemma_trim_brackets(t, a, b);
        assert(t.subrange(a, b) =~= s.subrange(a, b));
    } else {
        assert(s.subrange(a, b) =~= s);
    }
}

fn scheduler_text(t: Option<&str>) -> (r: String)
    ensures
        r@ == scheduler_of(opt_text(t)),
{
    let mut none = String::new();
    crate::text::push_all(&mut none, "none");
    let x = match t {
        Some(x) => x,
        None => {
            return none;
        },
    };
    let v = chars_of(x);
    assert(v@.subrange(0, v@.len() as int) =~= v@);
    let ws = word_ranges(&v, 0, v.len());
    let ghost all = words(x@);
    let mut i: usize = 0;
    assert(all.skip(0) =~= all);
    while i < ws.len()
        invariant
            i <= ws@.len() == all.len(),
            all == words(v@),
            opt_text(t) == Some(v@),
            forall|j: int| 0 <= j < ws@.len() ==> 0 <= #[trigger] ws@[j].0 <= ws@[j].1 <= v@.len(),
            forall|j: int| 0 <= j < ws@.len() ==> #[trigger] v@.subrange(ws@[j].0 as int, ws@[j].1 as int) == all[j],
            first_bracketed(all) == first_bracketed(all.skip(i as int)),
        decreases ws.len() - i,
    {
        let (lo, hi) = ws[i];
        let ghost w = all[i as int];
        assert(v@.subrange(lo as int, hi as int) == w);
        assert(all.skip(i as int)[0] == w);
        assert(all.skip(i as int).drop_first() =~= all.skip(i + 1));
        if lo < hi && v[lo] == '[' {
            assert(w[0] == v@[lo as int]);
            let mut a = lo;
            while a < hi && (v[a] == '[' || v[a] == ']')
                invariant
                    lo <= a <= hi <= v@.len(),
                    forall|k: int| lo <= k < a ==> is_bracket(#[trigger] v@[k]),
                decreases hi - a,
            {
                a += 1;
            }
            let mut b = hi;
            while b > a && (v[b - 1] == '[' || v[b - 1] == ']')
                invariant
                    lo <= a <= b <= hi <= v@.len(),
                    forall|k: int| b <= k < hi ==> is_bracket(#[trigger] v@[k]),
                decreases b - a,
            {
                b -= 1;
            }
            proof {
                assert(all.skip(i as int)[0] == w && w.len() > 0 && w[0] == '[');
                assert(first_bracketed(all.skip(i as int)) == Some(w));
                assert forall|k: int| 0 <= k < a - lo implies is_bracket(#[trigger] w[k]) by {
                    assert(w[k] == v@[lo + k]);
                }
                assert forall|k: int| b - lo <= k < w.len() implies is_bracket(#[trigger] w[k]) by {
                    assert(w[k] == v@[lo + k]);
                }
                if a < b {
                    assert(w[a - lo] == v@[a as int]);
                    assert(w[b - lo - 1] == v@[b - 1]);
                }
                lemma_trim_brackets(w, a - lo, b - lo);
                assert(w.subrange(a - lo, b - lo) =~= v@.subrange(a as int, b as int));
            }
            return string_of(&v, a, b);
        }
        proof {
            if w.len() > 0 {
                assert(w[0] == v@[lo as int]);
            }
        }
        i += 1;
    }
    assert(all.skip(i as int) =~= Seq::<Seq<char>>::empty());
    none
}

/// A `/sys/block` entry as a disk, keyed by its `major:minor`: its name,
/// the numbers of its `dev` text, its size in bytes and its scheduler;
/// skipped for unreported devices and without a `dev` text with a colon.
pub open spec fn disk_entry_of(e: (String, DiskInfo), name: Seq<char>, dev: Seq<char>, sectors: u64, sched: Option<Seq<char>>) -> bool {
    let (major, minor) = split_once_char(dev, ':')->0;
    &&& e.0@ == dev
    &&& e.1.name@ == name
    &&& e.1.major == u64_field(major)
    &&& e.1.minor == u64_field(minor)
    &&& e.1.size == sectors * 512
    &&& e.1.scheduler@ == scheduler_of(sched)
}

/// The disk of a block device entry: name, `dev` text, size in sectors
/// and scheduler text, each as read.
pub fn disk_entry(name: &str, dev: Option<&str>, sectors: u64, scheduler: Option<&str>) -> (r: Option<(String, DiskInfo)>)
    requires
        sectors * 512 <= u64::MAX,
    ensures
        r is Some <==> (!skipped_disk(name@) && (opt_text(dev) matches Some(d) && split_once_char(d, ':') is Some)),
        r matches Some(e) ==> disk_entry_of(e, name@, opt_text(dev)->0, sectors, opt_text(scheduler)),
{
    let v = chars_of(name);
    proof {
        reveal_strlit("loop");
        reveal_strlit("ram");
        reveal_strlit("sr");
        reveal_strlit("fd");
    }
    if text_starts_with(&v, "loop") || text_starts_with(&v, "ram") || text_starts_with(&v, "sr") || text_starts_with(&v, "fd") {
        return None;
    }
    let d = match dev {
        Some(d) => d,
        None => {
            return None;
        },
    };
    let dv = chars_of(d);
    assert(dv@.subrange(0, dv@.len() as int) =~= dv@);
    let c = match find_char_in(&dv, 0, dv.len(), ':') {
        Some(c) => c,
        None => {
            return None;
        },
    };
    assert(dv@.take(c as int) =~= dv@.subrange(0, c as int));
    assert(dv@.skip(c + 1) =~= dv@.subrange(c + 1, dv@.len() as int));
    let major = u64_field_of(&dv, 0, c);
    let minor = u64_field_of(&dv, c + 1, dv.len());
    let mut key = String::new();
    crate::text::push_all(&mut key, d);
    let mut nm = String::new();
    crate::text::push_all(&mut nm, name);
    Some((key, DiskInfo { name: nm, major, minor, size: sectors * 512, scheduler: scheduler_text(scheduler) }))
}

/// Orders disks by key.
pub open spec fn key_lt() -> spec_fn((Seq<char>, DiskInfo), (Seq<char>, DiskInfo)) -> bool {
    |a: (Seq<char>, DiskInfo), b: (Seq<char>, DiskInfo)| chars_lt(a.0, b.0)
}

/// Where `k` is a key of `m`, or -1.
pub open spec fn key_index(m: Seq<(Seq<char>, DiskInfo)>, k: Seq<char>) -> int
    decreases m.len(),
{
    if m.len() == 0 {
        -1
    } else if m.last().0 == k {
        m.len() - 1
    } else {
        key_index(m.drop_last(), k)
    }
}

/// A key-ordered map with one more entry: it replaces the entry with its
/// key, or goes in key order.
pub open spec fn map_put(m: Seq<(Seq<char>, DiskInfo)>, e: (Seq<char>, DiskInfo)) -> Seq<(Seq<char>, DiskInfo)> {
    let j = key_index(m, e.0);
    if j >= 0 {
        m.update(j, e)
    } else {
        ins_by(m, e, key_lt())
    }
}

/// The disks keyed by `major:minor`, in key order, a later entry with a
/// key replacing an earlier one.
pub open spec fn disk_map_of(es: Seq<(Seq<char>, DiskInfo)>) -> Seq<(Seq<char>, DiskInfo)>
    decreases es.len(),
{
    if es.len() == 0 {
        Seq::empty()
    } else {
        map_put(disk_map_of(es.drop_last()), es.last())
    }
}

pub open spec fn keyed_view(v: Seq<(String, DiskInfo)>) -> Seq<(Seq<char>, DiskInfo)> {
    Seq::new(v.len(), |i: int| (v[i].0@, v[i].1))
}

proof fn lemma_key_index(m: Seq<(Seq<char>, DiskInfo)>, k: Seq<char>)
    ensures
        key_index(m, k) >= 0 ==> key_index(m, k) < m.len() && m[key_index(m, k)].0 == k,
        key_index(m, k) < 0 ==> forall|j: int| 0 <= j < m.len() ==> #[trigger] m[j].0 != k,
    decreases m.len(),
{
    if m.len() > 0 && m.last().0 != k {
        lemma_key_index(m.drop_last(), k);
        assert forall|j: int| 0 <= j < m.len() - 1 implies #[trigger] m[j] == m.drop_last()[j] by {}
    }
}

/// Where the entry with key `k` sits, as `key_index` finds it.
fn key_pos(out: &Vec<(String, DiskInfo)>, k: &str) -> (r: Option<usize>)
    ensures
        match r {
            Some(j) => key_index(keyed_view(out@), k@) == j,
            None => key_index(keyed_view(out@), k@) == -1,
        },
{
    let ghost m = keyed_view(out@);
    let mut j = out.len();
    assert(m.take(j as int) =~= m);
    while j > 0
        invariant
            j <= out@.len() == m.len(),
            m == keyed_view(out@),
            key_index(m, k@) == key_index(m.take(j as int), k@),
        decreases j,
    {
        assert(m.take(j as int).last() == m[j - 1]);
        assert(m.take(j as int).drop_last() =~= m.take(j - 1));
        if crate::order::str_eq(out[j - 1].0.as_str(), k) {
            return Some(j - 1);
        }
        j -= 1;
    }
    assert(m.take(0) =~= Seq::<(Seq<char>, DiskInfo)>::empty());
    None
}

/// The block devices keyed by `major:minor` in key order; where two
/// entries share a key the later one stands.
pub fn disk_map_from(entries: Vec<(String, DiskInfo)>) -> (r: Vec<(String, DiskInfo)>)
    ensures
        keyed_view(r@) == disk_map_of(keyed_view(entries@)),
{
    let ghost ev = keyed_view(entries@);
    let ghost e0 = entries@;
    let mut entries = entries;
    let mut out: Vec<(String, DiskInfo)> = Vec::new();
    let n = entries.len();
    let mut i: usize = 0;
    assert(keyed_view(out@) =~= Seq::<(Seq<char>, DiskInfo)>::empty());
    while i < n
        invariant
            i <= n == e0.len() == ev.len(),
            ev == keyed_view(e0),
            entries@ == e0.skip(i as int),
            keyed_view(out@) == disk_map_of(ev.take(i as int)),
        decreases n - i,
    {
        let e = entries.remove(0);
        assert(e0.skip(i as int).remove(0) =~= e0.skip(i + 1));
        assert(e == e0[i as int]);
        assert(ev.take(i + 1).drop_last() =~= ev.take(i as int));
        assert(ev.take(i + 1).last() == (e.0@, e.1));
        let ghost m = keyed_view(out@);
        let ghost ee = (e.0@, e.1);
        proof {
            lemma_key_index(m, ee.0);
        }
        match key_pos(&out, e.0.as_str()) {
            Some(j) => {
                out.set(j, e);
                assert(keyed_view(out@) =~= m.update(j as int, ee));
            },
            None => {
                let mut j: usize = 0;
                while j < out.len() && !str_lt(e.0.as_str(), out[j].0.as_str())
                    invariant
                        j <= out@.len() == m.len(),
                        m == keyed_view(out@),
                        ee == (e.0@, e.1),
                        forall|q: int| 0 <= q < j ==> !(key_lt())(ee, #[trigger] m[q]),
                    decreases out.len() - j,
                {
                    assert(m[j as int] == (out@[j as int].0@, out@[j as int].1));
                    j += 1;
                }
                proof {
                    if j < m.len() {
                        assert(m[j as int] == (out@[j as int].0@, out@[j as int].1));
                    }
                    lemma_ins_by_at(m, ee, key_lt(), j as int);
                }
                out.insert(j, e);
                assert(keyed_view(out@) =~= m.insert(j as int, ee));
            },
        }
        i += 1;
    }
    assert(ev.take(n as int) =~= ev);
    out
}

/// A `/sys/class/net` entry as a network device, skipping loopback,
/// veth and docker interfaces: its address (empty where unread), and its
/// speed and MTU as numbers (0 where unread or not a number).
pub open spec fn skipped_net(name: Seq<char>) -> bool {
    starts_with(name, "lo"@) || starts_with(name, "veth"@) || starts_with(name, "docker"@)
}

pub open spec fn opt_i64(t: Option<Seq<char>>) -> i64 {
    match t {
        Some(x) => i64_field(x),
        None => 0,
    }
}

pub fn net_device(name: &str, address: Option<&str>, speed: Option<&str>, mtu: Option<&str>) -> (r: Option<NetInfo>)
    ensures
        r is Some <==> !skipped_net(name@),
        r matches Some(n) ==> {
            &&& n.name@ == name@
            &&& n.mac_address@ == match opt_text(address) {
                Some(a) => a,
                None => Seq::<char>::empty(),
            }
            &&& n.speed == opt_i64(opt_text(speed))
            &&& n.mtu == opt_i64(opt_text(mtu))
        },
{
    let v = chars_of(name);
    proof {
        reveal_strlit("lo");
        reveal_strlit("veth");
        reveal_strlit("docker");
    }
    if text_starts_with(&v, "lo") || text_starts_with(&v, "veth") || text_starts_with(&v, "docker") {
        return None;
    }
    let mut nm = String::new();
    crate::text::push_all(&mut nm, name);
    let mut mac = String::new();
    match address {
        Some(a) => crate::text::push_all(&mut mac, a),
        None => {},
    }
    Some(NetInfo { name: nm, mac_address: mac, speed: opt_number(speed), mtu: opt_number(mtu) })
}

fn opt_number(t: Option<&str>) -> (x: i64)
    ensures
        x == opt_i64(opt_text(t)),
{
    match t {
        Some(s) => {
            let v = chars_of(s);
            assert(v@.subrange(0, v@.len() as int) =~= v@);
            i64_field_of(&v, 0, v.len())
        },
        None => 0,
    }
}

/// Orders network devices by name.
pub open spec fn net_lt() -> spec_fn(NetInfo, NetInfo) -> bool {
    |a: NetInfo, b: NetInfo| chars_lt(a.name@, b.name@)
}

/// The network devices sorted by name (stably).
pub fn sort_net_devices(devs: Vec<NetInfo>) -> (r: Vec<NetInfo>)
    ensures
        r@ == sort_by(devs@, net_lt()),
{
    let ghost d0 = devs@;
    let mut devs = devs;
    let mut out: Vec<NetInfo> = Vec::new();
    let n = devs.len();
    let mut i: usize = 0;
    while i < n
        invariant
            i <= n == d0.len(),
            devs@ == d0.skip(i as int),
            out@ == sort_by(d0.take(i as int), net_lt()),
        decreases n - i,
    {
        let d = devs.remove(0);
        assert(d0.skip(i as int).remove(0) =~= d0.skip(i + 1));
        assert(d == d0[i as int]);
        assert(d0.take(i + 1).drop_last() =~= d0.take(i as int));
        let mut j: usize = 0;
        while j < out.len() && !str_lt(d.name.as_str(), out[j].name.as_str())
            invariant
                j <= out@.len(),
                forall|q: int| 0 <= q < j ==> !(net_lt())(d, #[trigger] out@[q]),
            decreases out.len() - j,
        {
            j += 1;
        }
        proof {
            lemma_ins_by_at(out@, d, net_lt(), j as int);
        }
        out.insert(j, d);
        i += 1;
    }
    assert(d0.take(n as int) =~= d0);
    out
}

// ---------------------------------------------------------------------------
// Machine and version descriptions
// ---------------------------------------------------------------------------

/// The machine description: CPU facts (frequency from cpufreq's maximum,
/// else the `cpu MHz` fallback), memory and swap, the topology with its
/// logical core count, huge pages, identities, filesystems, disks and
/// network devices; no memory-by-type or NVM facts, an unknown cloud.
pub fn machine_info_from(
    timestamp: GoTime,
    cpu: CpuInfoSummary,
    khz_fallback: u64,
    max_freq: Option<u64>,
    mem: &MemInfo,
    topology: Vec<Node>,
    num_cores: i64,
    huge_pages: Vec<HugePagesInfo>,
    ids: (String, String, String),
    filesystems: Vec<FilesystemInfo>,
    disk_map: Vec<(String, DiskInfo)>,
    network_devices: Vec<NetInfo>,
) -> (m: MachineInfo)
    ensures
        m.timestamp == timestamp,
        m.cpu_vendor_id == cpu.vendor_id,
        m.num_cores == num_cores,
        m.num_physical_cores == cpu.physical_cores,
        m.num_sockets == cpu.sockets,
        m.cpu_frequency == match max_freq {
            Some(f) => f,
            None => khz_fallback,
        },
        m.memory_capacity == mem.total_bytes,
        m.swap_capacity == mem.swap_bytes,
        m.memory_by_type@.len() == 0,
        m.nvm_info == (NVMInfo { memory_mode_capacity: 0, app_direct_mode_capacity: 0, avg_power_budget: 0 }),
        m.huge_pages == huge_pages,
        m.machine_id == ids.0,
        m.system_uuid == ids.1,
        m.boot_id == ids.2,
        m.filesystems == filesystems,
        m.disk_map == disk_map,
        m.network_devices == network_devices,
        m.topology == topology,
        m.cloud_provider@ == "Unknown"@,
        m.instance_type@ == "Unknown"@,
        m.instance_id@ == "None"@,
{
    let mut provider = String::new();
    crate::text::push_all(&mut provider, "Unknown");
    let mut instance = String::new();
    crate::text::push_all(&mut instance, "Unknown");
    let mut id = String::new();
    crate::text::push_all(&mut id, "None");
    MachineInfo {
        timestamp,
        cpu_vendor_id: cpu.vendor_id,
        num_cores,
        num_physical_cores: cpu.physical_cores,
        num_sockets: cpu.sockets,
        cpu_frequency: match max_freq {
            Some(f) => f,
            None => khz_fallback,
        },
        memory_capacity: mem.total_bytes,
        swap_capacity: mem.swap_bytes,
        memory_by_type: Vec::new(),
        nvm_info: NVMInfo { memory_mode_capacity: 0, app_direct_mode_capacity: 0, avg_power_budget: 0 },
        huge_pages,
        machine_id: ids.0,
        system_uuid: ids.1,
        boot_id: ids.2,
        filesystems,
        disk_map,
        network_devices,
        topology,
        cloud_provider: provider,
        instance_type: instance,
        instance_id: id,
    }
}

/// The text without leading and trailing `"`.
pub open spec fn trim_quotes(s: Seq<char>) -> Seq<char>
    decreases s.len(),
{
    if s.len() > 0 && s[0] == '"' {
        trim_quotes(s.drop_first())
    } else if s.len() > 0 && s.last() == '"' {
        trim_quotes(s.drop_last())
    } else {
        s
    }
}

/// The `PRETTY_NAME` of an os-release text, unquoted; empty without one.
pub open spec fn pretty_name_of(content: Seq<char>) -> Seq<char> {
    match first_with_prefix(lines(content), "PRETTY_NAME="@) {
        Some(l) => trim_quotes(l.skip(12)),
        None => Seq::empty(),
    }
}

proof fn lemma_trim_quotes(s: Seq<char>, a: int, b: int)
    requires
        0 <= a <= b <= s.len(),
        forall|k: int| 0 <= k < a ==> #[trigger] s[k] == '"',
        a < b ==> s[a] != '"',
        forall|k: int| b <= k < s.len() ==> #[trigger] s[k] == '"',
        b > a ==> s[b - 1] != '"',
    ensures
        trim_quotes(s) == s.subrange(a, b),
    decreases s.len(),
{
    if s.len() > 0 && s[0] == '"' {
        let t = s.drop_first();
        let (a2, b2) = if a > 0 {
            (a - 1, b - 1)
        } else {
            (0, 0)
        };
        assert forall|k: int| 0 <= k < a2 implies #[trigger] t[k] == '"' by {
            assert(t[k] == s[k + 1]);
        }
        assert forall|k: int| b2 <= k < t.len() implies #[trigger] t[k] == '"' by {
            assert(t[k] == s[k + 1]);
        }
        if a2 < b2 {
            assert(t[a2] == s[a2 + 1]);
            assert(t[b2 - 1] == s[b2]);
        }
        lemma_trim_quotes(t, a2, b2);
        assert(t.subrange(a2, b2) =~= s.subrange(a, b));
    } else if s.len() > 0 && s.last() == '"' {
        let t = s.drop_last();
        assert forall|k: int| 0 <= k < a implies #[trigger] t[k] == '"' by {
            assert(t[k] == s[k]);
        }
        assert forall|k: int| b <= k < t.len() implies #[trigger] t[k] == '"' by {
            assert(t[k] == s[k]);
        }
        if a < b {
            assert(t[a] == s[a]);
            assert(t[b - 1] == s[b - 1]);
        }
        lemma_trim_quotes(t, a, b);
        assert(t.subrange(a, b) =~= s.subrange(a, b));
    } else {
        assert(s.subrange(a, b) =~= s);
    }
}

/// The operating system's pretty name from an os-release text.
pub fn pretty_name(content: &str) -> (r: String)
    ensures
        r@ == pretty_name_of(content@),
{
    let (v, ls) = crate::parse::lines_of(content);
    let p = chars_of("PRETTY_NAME=");
    proof {
        reveal_strlit("PRETTY_NAME=");
        assert(Seq::new(ls@.len() as nat, |k: int| v@.subrange(ls@[k].0 as int, ls@[k].1 as int)) =~= lines(content@));
    }
    let ghost all = lines(content@);
    let mut i: usize = 0;
    assert(all.skip(0) =~= all);
    while i < ls.len()
        invariant
            i <= ls@.len() == all.len(),
            all == lines(content@),
            p@ == "PRETTY_NAME="@,
            p@.len() == 12,
            forall|j: int| 0 <= j < ls@.len() ==> #[trigger] ls@[j].0 <= ls@[j].1 <= v@.len(),
            forall|j: int| 0 <= j < ls@.len() ==> #[trigger] v@.subrange(ls@[j].0 as int, ls@[j].1 as int) == all[j],
            first_with_prefix(all, p@) == first_with_prefix(all.skip(i as int), p@),
        decreases ls.len() - i,
    {
        let (lo, hi) = ls[i];
        let ghost l = all[i as int];
        assert(v@.subrange(lo as int, hi as int) == l);
        assert(all.skip(i as int)[0] == l);
        assert(all.skip(i as int).drop_first() =~= all.skip(i + 1));
        if crate::text::range_starts_with(&v, lo, hi, &p) {
            let mut a = lo + 12;
            while a < hi && v[a] == '"'
                invariant
                    lo + 12 <= a <= hi <= v@.len(),
                    forall|k: int| lo + 12 <= k < a ==> #[trigger] v@[k] == '"',
                decreases hi - a,
            {
                a += 1;
            }
            let mut b = hi;
            while b > a && v[b - 1] == '"'
                invariant
                    lo + 12 <= a <= b <= hi <= v@.len(),
                    forall|k: int| b <= k < hi ==> #[trigger] v@[k] == '"',
                decreases b - a,
            {
                b -= 1;
            }
            proof {
                let w = l.skip(12);
                assert(w =~= v@.subrange(lo + 12, hi as int));
                assert forall|k: int| 0 <= k < a - lo - 12 implies #[trigger] w[k] == '"' by {
                    assert(w[k] == v@[lo + 12 + k]);
                }
                assert forall|k: int| b - lo - 12 <= k < w.len() implies #[trigger] w[k] == '"' by {
                    assert(w[k] == v@[lo + 12 + k]);
                }
                if a < b {
                    assert(w[a - lo - 12] == v@[a as int]);
                    assert(w[b - lo - 13] == v@[b - 1]);
                }
                lemma_trim_quotes(w, a - lo - 12, b - lo - 12);
                assert(w.subrange(a - lo - 12, b - lo - 12) =~= v@.subrange(a as int, b as int));
            }
            return string_of(&v, a, b);
        }
        i += 1;
    }
    assert(all.skip(i as int) =~= Seq::<Seq<char>>::empty());
    String::new()
}

/// The software versions: the kernel release (trimmed; empty where
/// unread), the OS pretty name (empty where unread), and this program's
/// version; no Docker versions or revision.
pub fn version_info_from(osrelease: Option<&str>, os_release: Option<&str>, cadvisor_version: &str) -> (v: VersionInfo)
    ensures
        v.kernel_version@ == match opt_text(osrelease) {
            Some(k) => trim(k),
            None => Seq::<char>::empty(),
        },
        v.container_os_version@ == match opt_text(os_release) {
            Some(t) => pretty_name_of(t),
            None => Seq::<char>::empty(),
        },
        v.docker_version@.len() == 0,
        v.docker_api_version@.len() == 0,
        v.cadvisor_version@ == cadvisor_version@,
        v.cadvisor_revision@.len() == 0,
{
    let kernel = match osrelease {
        Some(k) => {
            let kv = chars_of(k);
            let (a, b) = trim_range(&kv, 0, kv.len());
            assert(kv@.subrange(0, kv@.len() as int) =~= kv@);
            string_of(&kv, a, b)
        },
        None => String::new(),
    };
    let os = match os_release {
        Some(t) => pretty_name(t),
        None => String::new(),
    };
    let mut version = String::new();
    crate::text::push_all(&mut version, cadvisor_version);
    VersionInfo {
        kernel_version: kernel,
        container_os_version: os,
        docker_version: String::new(),
        docker_api_version: String::new(),
        cadvisor_version: version,
        cadvisor_revision: String::new(),
    }
}

/// The node number of a `node<N>` directory name.
pub open spec fn node_id_of(name: Seq<char>) -> Option<i64> {
    if starts_with(name, "node"@) {
        match parse_i64_spec(name.skip(4)) {
            Some(x) => Some(x as i64),
            None => None,
        }
    } else {
        None
    }
}

/// Orders numbers ascending.
pub open spec fn i64_lt() -> spec_fn(i64, i64) -> bool {
    |a: i64, b: i64| a < b
}

/// The node numbers of a directory's entry names, ascending.
pub open spec fn node_ids_of(names: Seq<String>) -> Seq<i64>
    decreases names.len(),
{
    if names.len() == 0 {
        Seq::empty()
    } else {
        node_ids_of(names.drop_last()) + match node_id_of(names.last()@) {
            Some(x) => seq![x],
            None => Seq::<i64>::empty(),
        }
    }
}

/// The NUMA node numbers among `/sys/devices/system/node`'s entries, in
/// ascending order.
pub fn node_ids(names: &Vec<String>) -> (r: Vec<i64>)
    ensures
        r@ == sort_by(node_ids_of(names@), i64_lt()),
{
    let mut out: Vec<i64> = Vec::new();
    let mut i: usize = 0;
    proof {
        reveal_strlit("node");
    }
    while i < names.len()
        invariant
            i <= names@.len(),
            out@ == sort_by(node_ids_of(names@.take(i as int)), i64_lt()),
            "node"@.len() == 4,
        decreases names.len() - i,
    {
        assert(names@.take(i + 1).drop_last() =~= names@.take(i as int));
        assert(names@.take(i + 1).last() == names@[i as int]);
        let ghost prev = node_ids_of(names@.take(i as int));
        let v = chars_of(names[i].as_str());
        if text_starts_with(&v, "node") {
            assert(v@.skip(4) =~= v@.subrange(4, v@.len() as int));
            match parse_i64(&v, 4, v.len()) {
                Some(x) => {
                    let mut j: usize = 0;
                    while j < out.len() && !(x < out[j])
                        invariant
                            j <= out@.len(),
                            forall|q: int| 0 <= q < j ==> !(i64_lt())(x, #[trigger] out@[q]),
                        decreases out.len() - j,
                    {
                        j += 1;
                    }
                    proof {
                        lemma_ins_by_at(out@, x, i64_lt(), j as int);
                        assert(node_id_of(names@[i as int]@) == Some(x));
                        assert(node_ids_of(names@.take(i + 1)) == prev.push(x));
                        assert(prev.push(x).drop_last() =~= prev);
                    }
                    out.insert(j, x);
                },
                None => {
                    assert(node_id_of(names@[i as int]@) is None);
                    assert(node_ids_of(names@.take(i + 1)) =~= prev);
                },
            }
        } else {
            assert(node_ids_of(names@.take(i + 1)) =~= prev);
        }
        i += 1;
    }
    assert(names@.take(names@.len() as int) =~= names@);
    out
}

/// A node's distances: its `distance` text read as a CPU list, as unsigned
/// numbers.
pub fn node_distances(text: &str) -> (r: Vec<u64>)
    ensures
        r@ == Seq::new(cpulist(text@).len(), |i: int| cpulist(text@)[i] as u64),
{
    let ids = parse_cpulist(text);
    let mut out: Vec<u64> = Vec::new();
    let mut i: usize = 0;
    while i < ids.len()
        invariant
            i <= ids@.len(),
            out@ == Seq::new(i as nat, |k: int| ids@[k] as u64),
        decreases ids.len() - i,
    {
        out.push(ids[i] as u64);
        assert(out@ =~= Seq::new((i + 1) as nat, |k: int| ids@[k] as u64));
        i += 1;
    }
    out
}

} // verus!
