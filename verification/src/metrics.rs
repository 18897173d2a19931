//! The `/metrics` collector: which series each container and the machine
//! contribute, with which labels, values and timestamps, grouped into the
//! exposed families in exposition order with each family's series ordered by
//! label values.
//!
//! Sample values are kept exact (`Value`): the float a Prometheus sample
//! carries is computed from them, and formatted, by the program around the
//! library.

use std::sync::Arc;

use vstd::prelude::*;

use crate::encode::{sample_text, sample_line};
use crate::families::{exposed_family, family_at, Family, Kind, EXPOSED_FAMILIES};
use crate::model::{ContainerReference, ContainerSpec, ContainerStats, FsStats, GoTime, InterfaceStats, MachineInfo, PerDiskStats, VersionInfo, DiskInfo};
use crate::order::{chars_lt, ins_by, lemma_ins_by_at, sort_by, str_eq, str_lt};
use crate::text::{chars_of, decimal, push_all, push_char, push_decimal, starts_with};

verus! {

/// Labels as text pairs.
pub type LabelsV = Seq<(Seq<char>, Seq<char>)>;

pub open spec fn labels_view(l: Seq<(String, String)>) -> LabelsV {
    Seq::new(l.len(), |i: int| (l[i].0@, l[i].1@))
}

/// The value of a sample, exactly: the float Prometheus gets is the one
/// named on each variant.
#[derive(Debug, Clone, Copy, PartialEq, Eq, Structural)]
pub enum Value {
    /// `v as f64`.
    Int(u64),
    /// `v as f64` of a signed count.
    Signed(i64),
    /// `v as f64 / 1e9`: nanoseconds as seconds.
    Nanos(u64),
    /// `v as f64 / 1000.0`: milliseconds as seconds.
    Millis(u64),
    /// `v as f64 / 1000.0` of a signed millisecond count.
    SignedMillis(i64),
    /// `v as f64 / 1000.0` of a load average in thousandths.
    LoadMilli(i32),
    /// `secs as f64 + nanos as f64 / 1e9`.
    StartTime(i64, u32),
}

/// One labelled sample of a family.
pub struct Series {
    pub labels: Vec<(String, String)>,
    pub value: Value,
    pub timestamp_ms: Option<i64>,
}

pub type SeriesV = (LabelsV, Value, Option<i64>);

pub open spec fn series_view(s: Series) -> SeriesV {
    (labels_view(s.labels@), s.value, s.timestamp_ms)
}

/// A sample tagged with its family, as the collector emits it.
pub type EmittedV = (Family, LabelsV, Value, Option<i64>);

pub open spec fn emitted_view(v: Seq<(Family, Series)>) -> Seq<EmittedV> {
    Seq::new(v.len(), |i: int| (v[i].0, labels_view(v[i].1.labels@), v[i].1.value, v[i].1.timestamp_ms))
}

/// Options mirroring the upstream label and metric flags.
pub struct MetricsOpts {
    pub store_container_labels: bool,
    pub whitelisted_container_labels: Vec<String>,
    /// Metric group tokens that are disabled.
    pub disabled_groups: Vec<String>,
}

impl MetricsOpts {
    /// Container labels stored, nothing whitelisted, nothing disabled.
    pub fn default_opts() -> (o: MetricsOpts)
        ensures
            o.store_container_labels,
            o.whitelisted_container_labels@.len() == 0,
            o.disabled_groups@.len() == 0,
    {
        MetricsOpts {
            store_container_labels: true,
            whitelisted_container_labels: Vec::new(),
            disabled_groups: Vec::new(),
        }
    }
}

/// Whether some string of `v` is `s`.
pub open spec fn contains_text(v: Seq<String>, s: Seq<char>) -> bool {
    exists|i: int| 0 <= i < v.len() && #[trigger] v[i]@ == s
}

pub fn contains_str(v: &Vec<String>, s: &str) -> (b: bool)
    ensures
        b == contains_text(v@, s@),
{
    let mut i: usize = 0;
    while i < v.len()
        invariant
            i <= v@.len(),
            forall|k: int| 0 <= k < i ==> #[trigger] v@[k]@ != s@,
        decreases v.len() - i,
    {
        if str_eq(v[i].as_str(), s) {
            return true;
        }
        i += 1;
    }
    false
}

/// The metric group is not disabled.
pub open spec fn group_enabled(opts: &MetricsOpts, group: Seq<char>) -> bool {
    !contains_text(opts.disabled_groups@, group)
}

/// The `-disable_metrics` group token a container family belongs to.
pub open spec fn family_group_spec(name: Seq<char>) -> Option<Seq<char>> {
    if starts_with(name, "container_cpu_load"@) || name == "container_tasks_state"@ {
        Some("cpuLoad"@)
    } else if starts_with(name, "container_cpu"@) {
        Some("cpu"@)
    } else if starts_with(name, "container_memory"@) {
        Some("memory"@)
    } else if name == "container_fs_inodes_free"@ || name == "container_fs_inodes_total"@
        || name == "container_fs_limit_bytes"@ || name == "container_fs_usage_bytes"@ {
        Some("disk"@)
    } else if starts_with(name, "container_fs"@) || starts_with(name, "container_blkio"@) {
        Some("diskIO"@)
    } else if starts_with(name, "container_network"@) {
        Some("network"@)
    } else if name == "container_oom_events_total"@ {
        Some("oom_event"@)
    } else {
        None
    }
}

/// Whether `s` starts with `p`.
fn has_prefix(s: &Vec<char>, p: &str) -> (b: bool)
    ensures
        b == starts_with(s@, p@),
{
    let q = chars_of(p);
    if q.len() > s.len() {
        return false;
    }
    let mut i: usize = 0;
    while i < q.len()
        invariant
            i <= q.len() <= s.len(),
            q@ == p@,
            forall|k: int| 0 <= k < i ==> s@[k] == q@[k],
        decreases q.len() - i,
    {
        if s[i] != q[i] {
            assert(s@.take(q@.len() as int)[i as int] != p@[i as int]);
            return false;
        }
        i += 1;
    }
    assert(s@.take(q@.len() as int) =~= p@);
    true
}

/// The metric group token of a container family.
pub fn family_group(name: &str) -> (r: Option<&'static str>)
    ensures
        r matches Some(g) ==> family_group_spec(name@) == Some(g@),
        r is None ==> family_group_spec(name@) is None,
{
    let s = chars_of(name);
    if has_prefix(&s, "container_cpu_load") || str_eq(name, "container_tasks_state") {
        return Some("cpuLoad");
    }
    if has_prefix(&s, "container_cpu") {
        return Some("cpu");
    }
    if has_prefix(&s, "container_memory") {
        return Some("memory");
    }
    if str_eq(name, "container_fs_inodes_free") || str_eq(name, "container_fs_inodes_total")
        || str_eq(name, "container_fs_limit_bytes") || str_eq(name, "container_fs_usage_bytes") {
        return Some("disk");
    }
    if has_prefix(&s, "container_fs") || has_prefix(&s, "container_blkio") {
        return Some("diskIO");
    }
    if has_prefix(&s, "container_network") {
        return Some("network");
    }
    if str_eq(name, "container_oom_events_total") {
        return Some("oom_event");
    }
    None
}

/// A label-name character: ASCII letters and digits and `_` stay, anything
/// else becomes `_`.
pub open spec fn label_char(c: char) -> char {
    let u = c as u32;
    if (48 <= u <= 57) || (65 <= u <= 90) || (97 <= u <= 122) || c == '_' {
        c
    } else {
        '_'
    }
}

pub open spec fn sanitize(s: Seq<char>) -> Seq<char> {
    Seq::new(s.len(), |i: int| label_char(s[i]))
}

/// A valid Prometheus label name made from `name`.
pub fn sanitize_label_name(name: &str) -> (r: String)
    ensures
        r@ == sanitize(name@),
{
    let v = chars_of(name);
    let mut out = String::new();
    let mut i: usize = 0;
    while i < v.len()
        invariant
            i <= v@.len(),
            v@ == name@,
            out@ == sanitize(v@.take(i as int)),
        decreases v.len() - i,
    {
        let c = v[i];
        let u = c as u32;
        let d = if (48 <= u && u <= 57) || (65 <= u && u <= 90) || (97 <= u && u <= 122) || c == '_' {
            c
        } else {
            '_'
        };
        push_char(&mut out, d);
        assert(sanitize(v@.take(i + 1)) =~= sanitize(v@.take(i as int)).push(d));
        i += 1;
    }
    assert(v@.take(v@.len() as int) == v@);
    out
}

/// Orders label pairs by name alone.
pub open spec fn key_order() -> spec_fn((Seq<char>, Seq<char>), (Seq<char>, Seq<char>)) -> bool {
    |a: (Seq<char>, Seq<char>), b: (Seq<char>, Seq<char>)| chars_lt(a.0, b.0)
}

/// A copy of the labels.
fn copy_labels(v: &Vec<(String, String)>) -> (r: Vec<(String, String)>)
    ensures
        labels_view(r@) == labels_view(v@),
{
    let mut r: Vec<(String, String)> = Vec::new();
    let mut i: usize = 0;
    while i < v.len()
        invariant
            i <= v@.len(),
            r@.len() == i,
            labels_view(r@) == labels_view(v@).take(i as int),
        decreases v.len() - i,
    {
        let k = v[i].0.clone();
        let x = v[i].1.clone();
        let ghost before = r@;
        r.push((k, x));
        assert(labels_view(r@) =~= labels_view(v@).take(i + 1)) by {
            assert forall|m: int| 0 <= m < i implies labels_view(r@)[m] == labels_view(before)[m] by {}
            assert(r@[i as int] == (k, x));
        }
        i += 1;
    }
    assert(labels_view(v@).take(v@.len() as int) =~= labels_view(v@));
    r
}

/// Sorts labels by name, stably.
pub fn sort_labels(v: &Vec<(String, String)>) -> (r: Vec<(String, String)>)
    ensures
        labels_view(r@) == sort_by(labels_view(v@), key_order()),
{
    let ghost lv = labels_view(v@);
    let mut out: Vec<(String, String)> = Vec::new();
    let mut i: usize = 0;
    while i < v.len()
        invariant
            i <= v@.len(),
            lv == labels_view(v@),
            labels_view(out@) == sort_by(lv.take(i as int), key_order()),
        decreases v.len() - i,
    {
        let k = v[i].0.clone();
        let x = v[i].1.clone();
        let ghost p = (k@, x@);
        let mut j: usize = 0;
        while j < out.len() && !str_lt(k.as_str(), out[j].0.as_str())
            invariant
                j <= out@.len(),
                p == (k@, x@),
                forall|m: int| 0 <= m < j ==> !(key_order())(p, #[trigger] labels_view(out@)[m]),
            decreases out.len() - j,
        {
            j += 1;
        }
        proof {
            let s = labels_view(out@);
            assert(lv.take(i + 1).drop_last() == lv.take(i as int));
            assert(lv.take(i + 1).last() == p);
            lemma_ins_by_at(s, p, key_order(), j as int);
        }
        let ghost before = out@;
        out.insert(j, (k, x));
        assert(labels_view(out@) =~= labels_view(before).insert(j as int, p));
        i += 1;
    }
    assert(lv.take(v@.len() as int) =~= lv);
    out
}

/// Whether a container label may become a series label.
pub open spec fn label_allowed(opts: &MetricsOpts, k: Seq<char>) -> bool {
    opts.store_container_labels || contains_text(opts.whitelisted_container_labels@, k)
}

/// The `container_label_*` pairs of a container's labels, in order.
pub open spec fn label_pairs(l: Seq<(String, String)>, opts: &MetricsOpts) -> LabelsV
    decreases l.len(),
{
    if l.len() == 0 {
        Seq::empty()
    } else {
        label_pairs(l.drop_last(), opts) + (if label_allowed(opts, l.last().0@) {
            seq![("container_label_"@ + sanitize(l.last().0@), l.last().1@)]
        } else {
            Seq::empty()
        })
    }
}

/// The `container_env_*` pairs of a container's environment, in order.
pub open spec fn env_pairs(l: Seq<(String, String)>) -> LabelsV
    decreases l.len(),
{
    if l.len() == 0 {
        Seq::empty()
    } else {
        env_pairs(l.drop_last()) + seq![("container_env_"@ + sanitize(l.last().0@), l.last().1@)]
    }
}

/// A container's own labels, in the order they are set; a later pair with
/// the same name replaces an earlier one.
pub open spec fn own_pairs(name: Seq<char>, reference: ContainerReference, spec: ContainerSpec, opts: &MetricsOpts) -> LabelsV {
    seq![("id"@, name)] + (if reference.aliases@.len() > 0 {
        seq![("name"@, reference.aliases@[0]@)]
    } else {
        Seq::empty()
    }) + (if spec.image@.len() > 0 {
        seq![("image"@, spec.image@)]
    } else {
        Seq::empty()
    }) + label_pairs(spec.labels@, opts) + env_pairs(spec.envs@)
}

/// The value the last pair named `k` sets.
pub open spec fn own_value(pairs: LabelsV, k: Seq<char>) -> Option<Seq<char>>
    decreases pairs.len(),
{
    if pairs.len() == 0 {
        None
    } else if pairs.last().0 == k {
        Some(pairs.last().1)
    } else {
        own_value(pairs.drop_last(), k)
    }
}

/// Orders text by code point.
pub open spec fn text_order() -> spec_fn(Seq<char>, Seq<char>) -> bool {
    |a: Seq<char>, b: Seq<char>| chars_lt(a, b)
}

/// Adds the names of `pairs` to the ordered name set `keys`.
pub open spec fn add_keys(keys: Seq<Seq<char>>, pairs: LabelsV) -> Seq<Seq<char>>
    decreases pairs.len(),
{
    if pairs.len() == 0 {
        keys
    } else {
        let ks = add_keys(keys, pairs.drop_last());
        let k = pairs.last().0;
        if ks.contains(k) {
            ks
        } else {
            ins_by(ks, k, text_order())
        }
    }
}

/// The ordered set of label names over all containers' own labels.
pub open spec fn union_keys(all: Seq<LabelsV>) -> Seq<Seq<char>>
    decreases all.len(),
{
    if all.len() == 0 {
        Seq::empty()
    } else {
        add_keys(union_keys(all.drop_last()), all.last())
    }
}

/// A container's labels over the union of names: its own value for each
/// name, or empty text.
pub open spec fn unioned_labels(own: LabelsV, keys: Seq<Seq<char>>) -> LabelsV {
    Seq::new(
        keys.len(),
        |i: int|
            (keys[i], match own_value(own, keys[i]) {
                Some(v) => v,
                None => Seq::empty(),
            }),
    )
}

pub struct ContainerLabels {
    pub base: Vec<(String, String)>,
}

/// Appends `(k, v)` with `k` given as text.
fn push_pair(out: &mut Vec<(String, String)>, k: String, v: String)
    ensures
        labels_view(final(out)@) == labels_view(old(out)@).push((k@, v@)),
{
    let ghost before = out@;
    out.push((k, v));
    assert(labels_view(out@) =~= labels_view(before).push((k@, v@))) by {
        assert(out@[before.len() as int] == (k, v));
    }
}

fn text(s: &str) -> (r: String)
    ensures
        r@ == s@,
{
    let mut r = String::new();
    push_all(&mut r, s);
    r
}

fn concat(a: &str, b: &String) -> (r: String)
    ensures
        r@ == a@ + b@,
{
    let mut r = String::new();
    push_all(&mut r, a);
    push_all(&mut r, b.as_str());
    r
}

/// Index of the last pair named `k`.
fn last_named(own: &Vec<(String, String)>, k: &str) -> (r: Option<usize>)
    ensures
        match r {
            Some(m) => m < own@.len() && own_value(labels_view(own@), k@) == Some(labels_view(own@)[m as int].1),
            None => own_value(labels_view(own@), k@) is None,
        },
{
    let ghost ov = labels_view(own@);
    let mut j = own.len();
    assert(ov.take(j as int) == ov);
    while j > 0
        invariant
            j <= own@.len(),
            ov == labels_view(own@),
            own_value(ov, k@) == own_value(ov.take(j as int), k@),
        decreases j,
    {
        assert(ov.take(j as int).drop_last() == ov.take(j - 1));
        if str_eq(own[j - 1].0.as_str(), k) {
            return Some(j - 1);
        }
        j -= 1;
    }
    None
}

/// Whether some string of `keys` is `k`.
fn has_text(keys: &Vec<String>, k: &str) -> (b: bool)
    ensures
        b == keys@.map_values(|s: String| s@).contains(k@),
{
    let ghost kv = keys@.map_values(|s: String| s@);
    let mut j: usize = 0;
    while j < keys.len()
        invariant
            j <= keys@.len(),
            kv == keys@.map_values(|s: String| s@),
            forall|m: int| 0 <= m < j ==> kv[m] != k@,
        decreases keys.len() - j,
    {
        if str_eq(keys[j].as_str(), k) {
            assert(kv[j as int] == k@);
            return true;
        }
        j += 1;
    }
    false
}

impl ContainerLabels {
    /// This container's own labels, in the order they are set.
    pub fn own(name: &str, reference: &ContainerReference, spec: &ContainerSpec, opts: &MetricsOpts) -> (r: Vec<(String, String)>)
        ensures
            labels_view(r@) == own_pairs(name@, *reference, *spec, opts),
    {
        let mut own: Vec<(String, String)> = Vec::new();
        push_pair(&mut own, text("id"), text(name));
        if reference.aliases.len() > 0 {
            push_pair(&mut own, text("name"), reference.aliases[0].clone());
        }
        if !spec.image.as_str().is_empty() {
            push_pair(&mut own, text("image"), spec.image.clone());
        }
        let ghost head = labels_view(own@);
        let mut i: usize = 0;
        while i < spec.labels.len()
            invariant
                i <= spec.labels@.len(),
                labels_view(own@) == head + label_pairs(spec.labels@.take(i as int), opts),
            decreases spec.labels.len() - i,
        {
            let k = &spec.labels[i].0;
            let allowed = opts.store_container_labels || contains_str(&opts.whitelisted_container_labels, k.as_str());
            assert(spec.labels@.take(i + 1).drop_last() == spec.labels@.take(i as int));
            if allowed {
                let key = concat("container_label_", &sanitize_label_name(k.as_str()));
                push_pair(&mut own, key, spec.labels[i].1.clone());
            }
            i += 1;
        }
        assert(spec.labels@.take(spec.labels@.len() as int) == spec.labels@);
        let ghost mid = labels_view(own@);
        let mut j: usize = 0;
        while j < spec.envs.len()
            invariant
                j <= spec.envs@.len(),
                labels_view(own@) == mid + env_pairs(spec.envs@.take(j as int)),
            decreases spec.envs.len() - j,
        {
            let key = concat("container_env_", &sanitize_label_name(spec.envs[j].0.as_str()));
            assert(spec.envs@.take(j + 1).drop_last() == spec.envs@.take(j as int));
            push_pair(&mut own, key, spec.envs[j].1.clone());
            j += 1;
        }
        assert(spec.envs@.take(spec.envs@.len() as int) == spec.envs@);
        own
    }

    /// The labels of a container over the union of label names `union`
    /// (in order), with empty values for names it does not have.
    pub fn unioned(own: &Vec<(String, String)>, union: &Vec<String>) -> (r: ContainerLabels)
        ensures
            labels_view(r.base@) == unioned_labels(labels_view(own@), union@.map_values(|s: String| s@)),
    {
        let ghost ov = labels_view(own@);
        let ghost keys = union@.map_values(|s: String| s@);
        let mut base: Vec<(String, String)> = Vec::new();
        let mut i: usize = 0;
        while i < union.len()
            invariant
                i <= union@.len(),
                ov == labels_view(own@),
                keys == union@.map_values(|s: String| s@),
                labels_view(base@) == unioned_labels(ov, keys).take(i as int),
            decreases union.len() - i,
        {
            let k = &union[i];
            let v = match last_named(own, k.as_str()) {
                Some(m) => own[m].1.clone(),
                None => String::new(),
            };
            push_pair(&mut base, k.clone(), v);
            assert(labels_view(base@) =~= unioned_labels(ov, keys).take(i + 1));
            i += 1;
        }
        assert(unioned_labels(ov, keys).take(union@.len() as int) =~= unioned_labels(ov, keys));
        ContainerLabels { base }
    }

    /// The container's labels plus `extra`, ordered by name (stably).
    pub fn with(&self, extra: &Vec<(String, String)>) -> (r: Vec<(String, String)>)
        ensures
            labels_view(r@) == sort_by(labels_view(self.base@) + labels_view(extra@), key_order()),
    {
        let mut all = copy_labels(&self.base);
        let mut i: usize = 0;
        while i < extra.len()
            invariant
                i <= extra@.len(),
                labels_view(all@) == labels_view(self.base@) + labels_view(extra@).take(i as int),
            decreases extra.len() - i,
        {
            push_pair(&mut all, extra[i].0.clone(), extra[i].1.clone());
            assert(labels_view(extra@).take(i + 1) =~= labels_view(extra@).take(i as int).push((extra@[i as int].0@, extra@[i as int].1@)));
            i += 1;
        }
        assert(labels_view(extra@).take(extra@.len() as int) =~= labels_view(extra@));
        sort_labels(&all)
    }
}

/// Adds the names of `own` to the ordered name set `keys`.
pub fn add_label_names(keys: &mut Vec<String>, own: &Vec<(String, String)>)
    ensures
        final(keys)@.map_values(|s: String| s@) == add_keys(old(keys)@.map_values(|s: String| s@), labels_view(own@)),
{
    let ghost k0 = keys@.map_values(|s: String| s@);
    let ghost ov = labels_view(own@);
    let mut i: usize = 0;
    while i < own.len()
        invariant
            i <= own@.len(),
            ov == labels_view(own@),
            keys@.map_values(|s: String| s@) == add_keys(k0, ov.take(i as int)),
        decreases own.len() - i,
    {
        let k = &own[i].0;
        let ghost kv = keys@.map_values(|s: String| s@);
        assert(ov.take(i + 1).drop_last() == ov.take(i as int));
        assert(ov.take(i + 1).last().0 == k@);
        let present = has_text(keys, k.as_str());
        if !present {
            let mut p: usize = 0;
            while p < keys.len() && !str_lt(k.as_str(), keys[p].as_str())
                invariant
                    p <= keys@.len(),
                    kv == keys@.map_values(|s: String| s@),
                    forall|m: int| 0 <= m < p ==> !(text_order())(k@, #[trigger] kv[m]),
                decreases keys.len() - p,
            {
                p += 1;
            }
            proof {
                lemma_ins_by_at(kv, k@, text_order(), p as int);
            }
            keys.insert(p, k.clone());
            assert(keys@.map_values(|s: String| s@) =~= kv.insert(p as int, k@));
        }
        i += 1;
    }
    assert(ov.take(own@.len() as int) =~= ov);
}

/// `a < b` comparing label pairs by name, then value.
pub open spec fn pair_lt(a: (Seq<char>, Seq<char>), b: (Seq<char>, Seq<char>)) -> bool {
    chars_lt(a.0, b.0) || (a.0 == b.0 && chars_lt(a.1, b.1))
}

/// `a < b` comparing label lists pair by pair (a proper prefix first).
pub open spec fn labels_lt(a: LabelsV, b: LabelsV) -> bool
    decreases a.len(),
{
    if a.len() == 0 {
        b.len() > 0
    } else if b.len() == 0 {
        false
    } else if a[0] != b[0] {
        pair_lt(a[0], b[0])
    } else {
        labels_lt(a.drop_first(), b.drop_first())
    }
}

/// Orders series by their labels.
pub open spec fn series_order() -> spec_fn(SeriesV, SeriesV) -> bool {
    |a: SeriesV, b: SeriesV| labels_lt(a.0, b.0)
}

/// `a < b` for two label lists.
pub fn labels_less(a: &Vec<(String, String)>, b: &Vec<(String, String)>) -> (r: bool)
    ensures
        r == labels_lt(labels_view(a@), labels_view(b@)),
{
    let ghost x = labels_view(a@);
    let ghost y = labels_view(b@);
    let mut i: usize = 0;
    assert(x.skip(0) == x && y.skip(0) == y);
    while i < a.len() && i < b.len()
        invariant
            i <= a@.len(),
            i <= b@.len(),
            x == labels_view(a@),
            y == labels_view(b@),
            labels_lt(x, y) == labels_lt(x.skip(i as int), y.skip(i as int)),
        decreases a.len() - i,
    {
        let ke = str_eq(a[i].0.as_str(), b[i].0.as_str());
        let ve = str_eq(a[i].1.as_str(), b[i].1.as_str());
        assert(x.skip(i as int)[0] == x[i as int]);
        assert(y.skip(i as int)[0] == y[i as int]);
        if !(ke && ve) {
            return str_lt(a[i].0.as_str(), b[i].0.as_str()) || (ke && str_lt(a[i].1.as_str(), b[i].1.as_str()));
        }
        assert(x.skip(i as int).drop_first() == x.skip(i + 1));
        assert(y.skip(i as int).drop_first() == y.skip(i + 1));
        i += 1;
    }
    i == a.len() && i < b.len()
}

/// One emitted sample.
pub open spec fn one(f: Family, l: LabelsV, v: Value, ts: Option<i64>) -> Seq<EmittedV> {
    seq![(f, l, v, ts)]
}

/// The container's labels plus `extra`, ordered by name.
pub open spec fn with_extra(base: LabelsV, extra: LabelsV) -> LabelsV {
    sort_by(base + extra, key_order())
}

/// Values above 2^62 mean "unlimited" and are reported as 0.
pub open spec fn clamp_unlimited(v: u64) -> u64 {
    if v > 0x4000_0000_0000_0000 {
        0
    } else {
        v
    }
}

/// Milliseconds since the epoch, as `timestamp_millis` gives them.
pub open spec fn millis(t: GoTime) -> int {
    t.secs * 1000 + t.nanos / 1_000_000
}

/// An instant whose milliseconds fit an `i64`.
pub open spec fn millis_fit(t: GoTime) -> bool {
    -9_000_000_000_000_000 <= t.secs <= 9_000_000_000_000_000 && t.nanos < 1_000_000_000
}

pub fn timestamp_millis(t: GoTime) -> (r: i64)
    requires
        millis_fit(t),
    ensures
        r == millis(t),
{
    (t.secs as i128 * 1000 + (t.nanos / 1_000_000) as i128) as i64
}

/// Appends one sample.
fn emit(out: &mut Vec<(Family, Series)>, f: Family, labels: Vec<(String, String)>, value: Value, ts: Option<i64>)
    ensures
        emitted_view(final(out)@) == emitted_view(old(out)@) + one(f, labels_view(labels@), value, ts),
{
    let ghost before = out@;
    let ghost lv = labels_view(labels@);
    out.push((f, Series { labels, value, timestamp_ms: ts }));
    assert(emitted_view(out@) =~= emitted_view(before) + one(f, lv, value, ts));
}

fn pair1(k: &str, v: String) -> (r: Vec<(String, String)>)
    ensures
        labels_view(r@) == seq![(k@, v@)],
{
    let mut r: Vec<(String, String)> = Vec::new();
    push_pair(&mut r, text(k), v);
    assert(labels_view(r@) =~= seq![(k@, v@)]);
    r
}

fn pair2(k1: &str, v1: String, k2: &str, v2: String) -> (r: Vec<(String, String)>)
    ensures
        labels_view(r@) == seq![(k1@, v1@), (k2@, v2@)],
{
    let mut r: Vec<(String, String)> = Vec::new();
    push_pair(&mut r, text(k1), v1);
    push_pair(&mut r, text(k2), v2);
    assert(labels_view(r@) =~= seq![(k1@, v1@), (k2@, v2@)]);
    r
}

/// The spec-derived series of a container: limits, start time, last seen.
pub open spec fn spec_series(base: LabelsV, spec: ContainerSpec, opts: &MetricsOpts, now_ms: i64) -> Seq<EmittedV> {
    let l = with_extra(base, Seq::empty());
    (if group_enabled(opts, "cpu"@) && spec.has_cpu {
        one(Family::ContainerSpecCpuPeriod, l, Value::Int(spec.cpu.period), None)
            + one(Family::ContainerSpecCpuShares, l, Value::Int(spec.cpu.limit), None)
            + (if spec.cpu.quota != 0 {
            one(Family::ContainerSpecCpuQuota, l, Value::Int(spec.cpu.quota), None)
        } else {
            Seq::empty()
        })
    } else {
        Seq::empty()
    }) + (if group_enabled(opts, "memory"@) && spec.has_memory {
        one(Family::ContainerSpecMemoryLimitBytes, l, Value::Int(clamp_unlimited(spec.memory.limit)), None)
            + one(Family::ContainerSpecMemorySwapLimitBytes, l, Value::Int(clamp_unlimited(spec.memory.swap_limit)), None)
            + one(Family::ContainerSpecMemoryReservationLimitBytes, l, Value::Int(clamp_unlimited(spec.memory.reservation)), None)
    } else {
        Seq::empty()
    }) + one(Family::ContainerStartTimeSeconds, l, Value::StartTime(spec.creation_time.secs, spec.creation_time.nanos), None)
        + one(Family::ContainerLastSeen, l, Value::SignedMillis(now_ms), Some(now_ms))
}

fn clamp(v: u64) -> (r: u64)
    ensures
        r == clamp_unlimited(v),
{
    if v > 0x4000_0000_0000_0000 {
        0
    } else {
        v
    }
}

fn emit_spec_series(out: &mut Vec<(Family, Series)>, labels: &ContainerLabels, spec: &ContainerSpec, opts: &MetricsOpts, now_ms: i64)
    ensures
        emitted_view(final(out)@) == emitted_view(old(out)@) + spec_series(labels_view(labels.base@), *spec, opts, now_ms),
{
    let ghost base = labels_view(labels.base@);
    let ghost o = emitted_view(out@);
    let none: Vec<(String, String)> = Vec::new();
    assert(labels_view(none@) =~= Seq::<(Seq<char>, Seq<char>)>::empty());
    let l = labels.with(&none);
    let ghost lv = with_extra(base, Seq::empty());
    assert(labels_view(l@) == lv);
    let cpu_on = !contains_str(&opts.disabled_groups, "cpu") && spec.has_cpu;
    let ghost a = if cpu_on {
        one(Family::ContainerSpecCpuPeriod, lv, Value::Int(spec.cpu.period), None)
            + one(Family::ContainerSpecCpuShares, lv, Value::Int(spec.cpu.limit), None)
            + (if spec.cpu.quota != 0 {
            one(Family::ContainerSpecCpuQuota, lv, Value::Int(spec.cpu.quota), None)
        } else {
            Seq::empty()
        })
    } else {
        Seq::empty()
    };
    if cpu_on {
        emit(out, Family::ContainerSpecCpuPeriod, copy_labels(&l), Value::Int(spec.cpu.period), None);
        emit(out, Family::ContainerSpecCpuShares, copy_labels(&l), Value::Int(spec.cpu.limit), None);
        if spec.cpu.quota != 0 {
            emit(out, Family::ContainerSpecCpuQuota, copy_labels(&l), Value::Int(spec.cpu.quota), None);
        }
    }
    assert(emitted_view(out@) =~= o + a);
    let ghost o2 = emitted_view(out@);
    let mem_on = !contains_str(&opts.disabled_groups, "memory") && spec.has_memory;
    let ghost b = if mem_on {
        one(Family::ContainerSpecMemoryLimitBytes, lv, Value::Int(clamp_unlimited(spec.memory.limit)), None)
            + one(Family::ContainerSpecMemorySwapLimitBytes, lv, Value::Int(clamp_unlimited(spec.memory.swap_limit)), None)
            + one(Family::ContainerSpecMemoryReservationLimitBytes, lv, Value::Int(clamp_unlimited(spec.memory.reservation)), None)
    } else {
        Seq::empty()
    };
    if mem_on {
        emit(out, Family::ContainerSpecMemoryLimitBytes, copy_labels(&l), Value::Int(clamp(spec.memory.limit)), None);
        emit(out, Family::ContainerSpecMemorySwapLimitBytes, copy_labels(&l), Value::Int(clamp(spec.memory.swap_limit)), None);
        emit(out, Family::ContainerSpecMemoryReservationLimitBytes, copy_labels(&l), Value::Int(clamp(spec.memory.reservation)), None);
    }
    assert(emitted_view(out@) =~= o2 + b);
    let ghost o3 = emitted_view(out@);
    emit(out, Family::ContainerStartTimeSeconds, copy_labels(&l), Value::StartTime(spec.creation_time.secs, spec.creation_time.nanos), None);
    emit(out, Family::ContainerLastSeen, copy_labels(&l), Value::SignedMillis(now_ms), Some(now_ms));
    assert(emitted_view(out@) =~= o + (a + b + one(Family::ContainerStartTimeSeconds, lv, Value::StartTime(spec.creation_time.secs, spec.creation_time.nanos), None)
        + one(Family::ContainerLastSeen, lv, Value::SignedMillis(now_ms), Some(now_ms))));
}

/// `cpuNN`: the label of a CPU index, at least two digits.
pub open spec fn cpu_name(i: int) -> Seq<char> {
    "cpu"@ + (if i < 10 {
        seq!['0']
    } else {
        Seq::empty()
    }) + decimal(i as nat)
}

/// Usage series of the CPUs that have any usage.
pub open spec fn per_cpu_series(p: Seq<u64>, base: LabelsV, ts: Option<i64>) -> Seq<EmittedV>
    decreases p.len(),
{
    if p.len() == 0 {
        Seq::empty()
    } else {
        per_cpu_series(p.drop_last(), base, ts) + (if p.last() > 0 {
            one(
                Family::ContainerCpuUsageSecondsTotal,
                with_extra(base, seq![("cpu"@, cpu_name(p.len() - 1))]),
                Value::Nanos(p.last()),
                ts,
            )
        } else {
            Seq::empty()
        })
    }
}

pub open spec fn cpu_series(s: ContainerStats, spec: ContainerSpec, base: LabelsV, ts: Option<i64>) -> Seq<EmittedV> {
    let l = with_extra(base, Seq::empty());
    let u = s.cpu.usage;
    one(Family::ContainerCpuUserSecondsTotal, l, Value::Nanos(u.user), ts)
        + one(Family::ContainerCpuSystemSecondsTotal, l, Value::Nanos(u.system), ts)
        + (if u.per_cpu@.len() == 0 {
        if u.total > 0 {
            one(Family::ContainerCpuUsageSecondsTotal, with_extra(base, seq![("cpu"@, "total"@)]), Value::Nanos(u.total), ts)
        } else {
            Seq::empty()
        }
    } else {
        per_cpu_series(u.per_cpu@, base, ts)
    }) + (if spec.cpu.quota != 0 {
        one(Family::ContainerCpuCfsPeriodsTotal, l, Value::Int(s.cpu.cfs.periods), ts)
            + one(Family::ContainerCpuCfsThrottledPeriodsTotal, l, Value::Int(s.cpu.cfs.throttled_periods), ts)
            + one(Family::ContainerCpuCfsThrottledSecondsTotal, l, Value::Nanos(s.cpu.cfs.throttled_time), ts)
    } else {
        Seq::empty()
    })
}

fn cpu_label(i: usize) -> (r: String)
    ensures
        r@ == cpu_name(i as int),
{
    let mut r = String::new();
    push_all(&mut r, "cpu");
    if i < 10 {
        push_char(&mut r, '0');
    }
    push_decimal(&mut r, i as u64);
    r
}

fn plain_labels(labels: &ContainerLabels) -> (l: Vec<(String, String)>)
    ensures
        labels_view(l@) == with_extra(labels_view(labels.base@), Seq::empty()),
{
    let none: Vec<(String, String)> = Vec::new();
    assert(labels_view(none@) =~= Seq::<(Seq<char>, Seq<char>)>::empty());
    labels.with(&none)
}

fn emit_cpu(out: &mut Vec<(Family, Series)>, labels: &ContainerLabels, s: &ContainerStats, spec: &ContainerSpec, ts: Option<i64>)
    ensures
        emitted_view(final(out)@) == emitted_view(old(out)@) + cpu_series(*s, *spec, labels_view(labels.base@), ts),
{
    let ghost base = labels_view(labels.base@);
    let ghost o = emitted_view(out@);
    let l = plain_labels(labels);
    let ghost lv = with_extra(base, Seq::empty());
    let u = &s.cpu.usage;
    emit(out, Family::ContainerCpuUserSecondsTotal, copy_labels(&l), Value::Nanos(u.user), ts);
    emit(out, Family::ContainerCpuSystemSecondsTotal, copy_labels(&l), Value::Nanos(u.system), ts);
    let ghost o1 = emitted_view(out@);
    assert(o1 =~= o + one(Family::ContainerCpuUserSecondsTotal, lv, Value::Nanos(u.user), ts)
        + one(Family::ContainerCpuSystemSecondsTotal, lv, Value::Nanos(u.system), ts));
    if u.per_cpu.len() == 0 {
        if u.total > 0 {
            let extra = pair1("cpu", text("total"));
            emit(out, Family::ContainerCpuUsageSecondsTotal, labels.with(&extra), Value::Nanos(u.total), ts);
        }
    } else {
        let mut i: usize = 0;
        while i < u.per_cpu.len()
            invariant
                i <= u.per_cpu@.len(),
                emitted_view(out@) == o1 + per_cpu_series(u.per_cpu@.take(i as int), base, ts),
                base == labels_view(labels.base@),
            decreases u.per_cpu.len() - i,
        {
            let ghost before = emitted_view(out@);
            assert(u.per_cpu@.take(i + 1).drop_last() == u.per_cpu@.take(i as int));
            if u.per_cpu[i] > 0 {
                let extra = pair1("cpu", cpu_label(i));
                emit(out, Family::ContainerCpuUsageSecondsTotal, labels.with(&extra), Value::Nanos(u.per_cpu[i]), ts);
            }
            assert(emitted_view(out@) =~= o1 + per_cpu_series(u.per_cpu@.take(i + 1), base, ts));
            i += 1;
        }
        assert(u.per_cpu@.take(u.per_cpu@.len() as int) == u.per_cpu@);
    }
    let ghost o2 = emitted_view(out@);
    if spec.cpu.quota != 0 {
        emit(out, Family::ContainerCpuCfsPeriodsTotal, copy_labels(&l), Value::Int(s.cpu.cfs.periods), ts);
        emit(out, Family::ContainerCpuCfsThrottledPeriodsTotal, copy_labels(&l), Value::Int(s.cpu.cfs.throttled_periods), ts);
        emit(out, Family::ContainerCpuCfsThrottledSecondsTotal, copy_labels(&l), Value::Nanos(s.cpu.cfs.throttled_time), ts);
    }
    assert(emitted_view(out@) =~= o2 + (if spec.cpu.quota != 0 {
        one(Family::ContainerCpuCfsPeriodsTotal, lv, Value::Int(s.cpu.cfs.periods), ts)
            + one(Family::ContainerCpuCfsThrottledPeriodsTotal, lv, Value::Int(s.cpu.cfs.throttled_periods), ts)
            + one(Family::ContainerCpuCfsThrottledSecondsTotal, lv, Value::Nanos(s.cpu.cfs.throttled_time), ts)
    } else {
        Seq::empty()
    }));
}

pub open spec fn state_labels(base: LabelsV, st: Seq<char>) -> LabelsV {
    with_extra(base, seq![("state"@, st)])
}

pub open spec fn load_series(s: ContainerStats, base: LabelsV, ts: Option<i64>) -> Seq<EmittedV> {
    let t = s.task_stats;
    one(Family::ContainerCpuLoadAverage10s, with_extra(base, Seq::empty()), Value::LoadMilli(s.cpu.load_average), ts)
        + one(Family::ContainerTasksState, state_labels(base, "sleeping"@), Value::Int(t.nr_sleeping), ts)
        + one(Family::ContainerTasksState, state_labels(base, "running"@), Value::Int(t.nr_running), ts)
        + one(Family::ContainerTasksState, state_labels(base, "stopped"@), Value::Int(t.nr_stopped), ts)
        + one(Family::ContainerTasksState, state_labels(base, "uninterruptible"@), Value::Int(t.nr_uninterruptible), ts)
        + one(Family::ContainerTasksState, state_labels(base, "iowaiting"@), Value::Int(t.nr_io_wait), ts)
}

fn emit_load(out: &mut Vec<(Family, Series)>, labels: &ContainerLabels, s: &ContainerStats, ts: Option<i64>)
    ensures
        emitted_view(final(out)@) == emitted_view(old(out)@) + load_series(*s, labels_view(labels.base@), ts),
{
    let ghost base = labels_view(labels.base@);
    let ghost o = emitted_view(out@);
    let t = &s.task_stats;
    emit(out, Family::ContainerCpuLoadAverage10s, plain_labels(labels), Value::LoadMilli(s.cpu.load_average), ts);
    emit(out, Family::ContainerTasksState, labels.with(&pair1("state", text("sleeping"))), Value::Int(t.nr_sleeping), ts);
    emit(out, Family::ContainerTasksState, labels.with(&pair1("state", text("running"))), Value::Int(t.nr_running), ts);
    emit(out, Family::ContainerTasksState, labels.with(&pair1("state", text("stopped"))), Value::Int(t.nr_stopped), ts);
    emit(out, Family::ContainerTasksState, labels.with(&pair1("state", text("uninterruptible"))), Value::Int(t.nr_uninterruptible), ts);
    emit(out, Family::ContainerTasksState, labels.with(&pair1("state", text("iowaiting"))), Value::Int(t.nr_io_wait), ts);
    assert(emitted_view(out@) =~= o + load_series(*s, base, ts));
}

pub open spec fn failure_labels(base: LabelsV, ft: Seq<char>, scope: Seq<char>) -> LabelsV {
    with_extra(base, seq![("failure_type"@, ft), ("scope"@, scope)])
}

pub open spec fn memory_series(s: ContainerStats, base: LabelsV, ts: Option<i64>) -> Seq<EmittedV> {
    let l = with_extra(base, Seq::empty());
    let m = s.memory;
    one(Family::ContainerMemoryCache, l, Value::Int(m.cache), ts)
        + one(Family::ContainerMemoryRss, l, Value::Int(m.rss), ts)
        + one(Family::ContainerMemoryKernelUsage, l, Value::Int(m.kernel_usage), ts)
        + one(Family::ContainerMemoryMappedFile, l, Value::Int(m.mapped_file), ts)
        + one(Family::ContainerMemorySwap, l, Value::Int(m.swap), ts)
        + one(Family::ContainerMemoryFailcnt, l, Value::Int(m.failcnt), ts)
        + one(Family::ContainerMemoryUsageBytes, l, Value::Int(m.usage), ts)
        + one(Family::ContainerMemoryMaxUsageBytes, l, Value::Int(m.max_usage), ts)
        + one(Family::ContainerMemoryWorkingSetBytes, l, Value::Int(m.working_set), ts)
        + one(Family::ContainerMemoryFailuresTotal, failure_labels(base, "pgfault"@, "container"@), Value::Int(m.container_data.pgfault), ts)
        + one(Family::ContainerMemoryFailuresTotal, failure_labels(base, "pgmajfault"@, "container"@), Value::Int(m.container_data.pgmajfault), ts)
        + one(Family::ContainerMemoryFailuresTotal, failure_labels(base, "pgfault"@, "hierarchy"@), Value::Int(m.hierarchical_data.pgfault), ts)
        + one(Family::ContainerMemoryFailuresTotal, failure_labels(base, "pgmajfault"@, "hierarchy"@), Value::Int(m.hierarchical_data.pgmajfault), ts)
}

/// A container's memory series report its working set, and only its
/// working set, under `container_memory_working_set_bytes`: exactly one
/// series of that family, with the container's labels, the latest sample's
/// working set and its timestamp. With the memory group enabled, that series
/// is among the container's sample series.
pub proof fn lemma_working_set_series(s: ContainerStats, spec: ContainerSpec, base: LabelsV, opts: &MetricsOpts, dm: Seq<(String, DiskInfo)>, ts: Option<i64>)
    ensures
        forall|i: int|
            0 <= i < memory_series(s, base, ts).len() && (#[trigger] memory_series(s, base, ts)[i]).0
                == Family::ContainerMemoryWorkingSetBytes ==> memory_series(s, base, ts)[i] == (
                Family::ContainerMemoryWorkingSetBytes,
                with_extra(base, Seq::empty()),
                Value::Int(s.memory.working_set),
                ts,
            ),
        memory_series(s, base, ts).contains(
            (Family::ContainerMemoryWorkingSetBytes, with_extra(base, Seq::empty()), Value::Int(s.memory.working_set), ts),
        ),
        group_enabled(opts, "memory"@) ==> stats_series(s, spec, base, opts, dm).contains(
            (
                Family::ContainerMemoryWorkingSetBytes,
                with_extra(base, Seq::empty()),
                Value::Int(s.memory.working_set),
                Some(millis(s.timestamp) as i64),
            ),
        ),
{
    let l = with_extra(base, Seq::empty());
    let m = s.memory;
    let ws = (Family::ContainerMemoryWorkingSetBytes, l, Value::Int(m.working_set), ts);
    let ms = memory_series(s, base, ts);
    assert(ms =~= seq![
        (Family::ContainerMemoryCache, l, Value::Int(m.cache), ts),
        (Family::ContainerMemoryRss, l, Value::Int(m.rss), ts),
        (Family::ContainerMemoryKernelUsage, l, Value::Int(m.kernel_usage), ts),
        (Family::ContainerMemoryMappedFile, l, Value::Int(m.mapped_file), ts),
        (Family::ContainerMemorySwap, l, Value::Int(m.swap), ts),
        (Family::ContainerMemoryFailcnt, l, Value::Int(m.failcnt), ts),
        (Family::ContainerMemoryUsageBytes, l, Value::Int(m.usage), ts),
        (Family::ContainerMemoryMaxUsageBytes, l, Value::Int(m.max_usage), ts),
        ws,
        (Family::ContainerMemoryFailuresTotal, failure_labels(base, "pgfault"@, "container"@), Value::Int(m.container_data.pgfault), ts),
        (Family::ContainerMemoryFailuresTotal, failure_labels(base, "pgmajfault"@, "container"@), Value::Int(m.container_data.pgmajfault), ts),
        (Family::ContainerMemoryFailuresTotal, failure_labels(base, "pgfault"@, "hierarchy"@), Value::Int(m.hierarchical_data.pgfault), ts),
        (Family::ContainerMemoryFailuresTotal, failure_labels(base, "pgmajfault"@, "hierarchy"@), Value::Int(m.hierarchical_data.pgmajfault), ts),
    ]);
    assert(ms[8] == ws);
    if group_enabled(opts, "memory"@) {
        let t = Some(millis(s.timestamp) as i64);
        let ss = stats_series(s, spec, base, opts, dm);
        let a = if group_enabled(opts, "cpu"@) {
            cpu_series(s, spec, base, t)
        } else {
            Seq::empty()
        } + if group_enabled(opts, "cpuLoad"@) {
            load_series(s, base, t)
        } else {
            Seq::empty()
        };
        let mt = memory_series(s, base, t);
        assert(mt[8] == (Family::ContainerMemoryWorkingSetBytes, l, Value::Int(m.working_set), t));
        assert(mt.len() == 13);
        let rest = ss.skip(a.len() as int + 13);
        assert(ss =~= a + mt + rest);
        assert(ss[a.len() as int + 8] == mt[8]);
    }
}

fn emit_memory(out: &mut Vec<(Family, Series)>, labels: &ContainerLabels, s: &ContainerStats, ts: Option<i64>)
    ensures
        emitted_view(final(out)@) == emitted_view(old(out)@) + memory_series(*s, labels_view(labels.base@), ts),
{
    let ghost base = labels_view(labels.base@);
    let ghost o = emitted_view(out@);
    let l = plain_labels(labels);
    let m = &s.memory;
    emit(out, Family::ContainerMemoryCache, copy_labels(&l), Value::Int(m.cache), ts);
    emit(out, Family::ContainerMemoryRss, copy_labels(&l), Value::Int(m.rss), ts);
    emit(out, Family::ContainerMemoryKernelUsage, copy_labels(&l), Value::Int(m.kernel_usage), ts);
    emit(out, Family::ContainerMemoryMappedFile, copy_labels(&l), Value::Int(m.mapped_file), ts);
    emit(out, Family::ContainerMemorySwap, copy_labels(&l), Value::Int(m.swap), ts);
    emit(out, Family::ContainerMemoryFailcnt, copy_labels(&l), Value::Int(m.failcnt), ts);
    emit(out, Family::ContainerMemoryUsageBytes, copy_labels(&l), Value::Int(m.usage), ts);
    emit(out, Family::ContainerMemoryMaxUsageBytes, copy_labels(&l), Value::Int(m.max_usage), ts);
    emit(out, Family::ContainerMemoryWorkingSetBytes, copy_labels(&l), Value::Int(m.working_set), ts);
    emit(out, Family::ContainerMemoryFailuresTotal, labels.with(&pair2("failure_type", text("pgfault"), "scope", text("container"))), Value::Int(m.container_data.pgfault), ts);
    emit(out, Family::ContainerMemoryFailuresTotal, labels.with(&pair2("failure_type", text("pgmajfault"), "scope", text("container"))), Value::Int(m.container_data.pgmajfault), ts);
    emit(out, Family::ContainerMemoryFailuresTotal, labels.with(&pair2("failure_type", text("pgfault"), "scope", text("hierarchy"))), Value::Int(m.hierarchical_data.pgfault), ts);
    emit(out, Family::ContainerMemoryFailuresTotal, labels.with(&pair2("failure_type", text("pgmajfault"), "scope", text("hierarchy"))), Value::Int(m.hierarchical_data.pgmajfault), ts);
    assert(emitted_view(out@) =~= o + memory_series(*s, base, ts));
}

pub open spec fn device_labels(base: LabelsV, dev: Seq<char>) -> LabelsV {
    with_extra(base, seq![("device"@, dev)])
}

/// Capacity and inode series of each filesystem.
pub open spec fn fs_disk_series(fs: Seq<FsStats>, base: LabelsV, ts: Option<i64>) -> Seq<EmittedV>
    decreases fs.len(),
{
    if fs.len() == 0 {
        Seq::empty()
    } else {
        let f = fs.last();
        let d = device_labels(base, f.device@);
        fs_disk_series(fs.drop_last(), base, ts)
            + one(Family::ContainerFsInodesFree, d, Value::Int(f.inodes_free), ts)
            + one(Family::ContainerFsInodesTotal, d, Value::Int(f.inodes), ts)
            + one(Family::ContainerFsLimitBytes, d, Value::Int(f.limit), ts)
            + one(Family::ContainerFsUsageBytes, d, Value::Int(f.usage), ts)
    }
}

fn emit_fs_disk(out: &mut Vec<(Family, Series)>, labels: &ContainerLabels, fs: &Vec<FsStats>, ts: Option<i64>)
    ensures
        emitted_view(final(out)@) == emitted_view(old(out)@) + fs_disk_series(fs@, labels_view(labels.base@), ts),
{
    let ghost base = labels_view(labels.base@);
    let ghost o = emitted_view(out@);
    let mut i: usize = 0;
    while i < fs.len()
        invariant
            i <= fs@.len(),
            base == labels_view(labels.base@),
            emitted_view(out@) == o + fs_disk_series(fs@.take(i as int), base, ts),
        decreases fs.len() - i,
    {
        let f = &fs[i];
        assert(fs@.take(i + 1).drop_last() == fs@.take(i as int));
        let d = labels.with(&pair1("device", f.device.clone()));
        emit(out, Family::ContainerFsInodesFree, copy_labels(&d), Value::Int(f.inodes_free), ts);
        emit(out, Family::ContainerFsInodesTotal, copy_labels(&d), Value::Int(f.inodes), ts);
        emit(out, Family::ContainerFsLimitBytes, copy_labels(&d), Value::Int(f.limit), ts);
        emit(out, Family::ContainerFsUsageBytes, copy_labels(&d), Value::Int(f.usage), ts);
        assert(emitted_view(out@) =~= o + fs_disk_series(fs@.take(i + 1), base, ts));
        i += 1;
    }
    assert(fs@.take(fs@.len() as int) == fs@);
}

/// Per-filesystem I/O counter series.
pub open spec fn fs_io_series(fs: Seq<FsStats>, base: LabelsV, ts: Option<i64>) -> Seq<EmittedV>
    decreases fs.len(),
{
    if fs.len() == 0 {
        Seq::empty()
    } else {
        let f = fs.last();
        let d = device_labels(base, f.device@);
        fs_io_series(fs.drop_last(), base, ts)
            + one(Family::ContainerFsReadsTotal, d, Value::Int(f.reads_completed), ts)
            + one(Family::ContainerFsReadsMergedTotal, d, Value::Int(f.reads_merged), ts)
            + one(Family::ContainerFsSectorReadsTotal, d, Value::Int(f.sectors_read), ts)
            + one(Family::ContainerFsReadSecondsTotal, d, Value::Millis(f.read_time), ts)
            + one(Family::ContainerFsWritesTotal, d, Value::Int(f.writes_completed), ts)
            + one(Family::ContainerFsWritesMergedTotal, d, Value::Int(f.writes_merged), ts)
            + one(Family::ContainerFsSectorWritesTotal, d, Value::Int(f.sectors_written), ts)
            + one(Family::ContainerFsWriteSecondsTotal, d, Value::Millis(f.write_time), ts)
            + one(Family::ContainerFsIoCurrent, d, Value::Int(f.io_in_progress), ts)
            + one(Family::ContainerFsIoTimeSecondsTotal, d, Value::Millis(f.io_time), ts)
            + one(Family::ContainerFsIoTimeWeightedSecondsTotal, d, Value::Millis(f.weighted_io_time), ts)
    }
}

fn emit_fs_io(out: &mut Vec<(Family, Series)>, labels: &ContainerLabels, fs: &Vec<FsStats>, ts: Option<i64>)
    ensures
        emitted_view(final(out)@) == emitted_view(old(out)@) + fs_io_series(fs@, labels_view(labels.base@), ts),
{
    let ghost base = labels_view(labels.base@);
    let ghost o = emitted_view(out@);
    let mut i: usize = 0;
    while i < fs.len()
        invariant
            i <= fs@.len(),
            base == labels_view(labels.base@),
            emitted_view(out@) == o + fs_io_series(fs@.take(i as int), base, ts),
        decreases fs.len() - i,
    {
        let f = &fs[i];
        assert(fs@.take(i + 1).drop_last() == fs@.take(i as int));
        let d = labels.with(&pair1("device", f.device.clone()));
        emit(out, Family::ContainerFsReadsTotal, copy_labels(&d), Value::Int(f.reads_completed), ts);
        emit(out, Family::ContainerFsReadsMergedTotal, copy_labels(&d), Value::Int(f.reads_merged), ts);
        emit(out, Family::ContainerFsSectorReadsTotal, copy_labels(&d), Value::Int(f.sectors_read), ts);
        emit(out, Family::ContainerFsReadSecondsTotal, copy_labels(&d), Value::Millis(f.read_time), ts);
        emit(out, Family::ContainerFsWritesTotal, copy_labels(&d), Value::Int(f.writes_completed), ts);
        emit(out, Family::ContainerFsWritesMergedTotal, copy_labels(&d), Value::Int(f.writes_merged), ts);
        emit(out, Family::ContainerFsSectorWritesTotal, copy_labels(&d), Value::Int(f.sectors_written), ts);
        emit(out, Family::ContainerFsWriteSecondsTotal, copy_labels(&d), Value::Millis(f.write_time), ts);
        emit(out, Family::ContainerFsIoCurrent, copy_labels(&d), Value::Int(f.io_in_progress), ts);
        emit(out, Family::ContainerFsIoTimeSecondsTotal, copy_labels(&d), Value::Millis(f.io_time), ts);
        emit(out, Family::ContainerFsIoTimeWeightedSecondsTotal, copy_labels(&d), Value::Millis(f.weighted_io_time), ts);
        assert(emitted_view(out@) =~= o + fs_io_series(fs@.take(i + 1), base, ts));
        i += 1;
    }
    assert(fs@.take(fs@.len() as int) == fs@);
}

/// The counter named `k` of a device's stats (the first such entry).
pub open spec fn stat_get(stats: Seq<(String, u64)>, k: Seq<char>) -> Option<u64>
    decreases stats.len(),
{
    if stats.len() == 0 {
        None
    } else if stats[0].0@ == k {
        Some(stats[0].1)
    } else {
        stat_get(stats.drop_first(), k)
    }
}

/// The block device keyed `k` (`major:minor`) in the machine's disk map.
pub open spec fn disk_lookup(dm: Seq<(String, DiskInfo)>, k: Seq<char>) -> Option<DiskInfo>
    decreases dm.len(),
{
    if dm.len() == 0 {
        None
    } else if dm[0].0@ == k {
        Some(dm[0].1)
    } else {
        disk_lookup(dm.drop_first(), k)
    }
}

/// The device name of an I/O entry: its own, or `/dev/<name>` of the block
/// device with its numbers, or empty text.
pub open spec fn device_of(e: PerDiskStats, dm: Seq<(String, DiskInfo)>) -> Seq<char> {
    if e.device@.len() > 0 {
        e.device@
    } else {
        match disk_lookup(dm, decimal(e.major as nat) + seq![':'] + decimal(e.minor as nat)) {
            Some(d) => "/dev/"@ + d.name@,
            None => Seq::empty(),
        }
    }
}

fn stat_lookup(stats: &Vec<(String, u64)>, k: &str) -> (r: Option<u64>)
    ensures
        r == stat_get(stats@, k@),
{
    let mut i: usize = 0;
    assert(stats@.skip(0) == stats@);
    while i < stats.len()
        invariant
            i <= stats@.len(),
            stat_get(stats@, k@) == stat_get(stats@.skip(i as int), k@),
        decreases stats.len() - i,
    {
        assert(stats@.skip(i as int)[0] == stats@[i as int]);
        if str_eq(stats[i].0.as_str(), k) {
            return Some(stats[i].1);
        }
        assert(stats@.skip(i as int).drop_first() == stats@.skip(i + 1));
        i += 1;
    }
    None
}

fn resolve_device(e: &PerDiskStats, dm: &Vec<(String, DiskInfo)>) -> (r: String)
    ensures
        r@ == device_of(*e, dm@),
{
    if !e.device.as_str().is_empty() {
        return e.device.clone();
    }
    let mut key = String::new();
    push_decimal(&mut key, e.major);
    push_char(&mut key, ':');
    push_decimal(&mut key, e.minor);
    assert(key@ == decimal(e.major as nat) + seq![':'] + decimal(e.minor as nat));
    let mut i: usize = 0;
    assert(dm@.skip(0) == dm@);
    while i < dm.len()
        invariant
            i <= dm@.len(),
            e.device@.len() == 0,
            key@ == decimal(e.major as nat) + seq![':'] + decimal(e.minor as nat),
            disk_lookup(dm@, key@) == disk_lookup(dm@.skip(i as int), key@),
        decreases dm.len() - i,
    {
        assert(dm@.skip(i as int)[0] == dm@[i as int]);
        if str_eq(dm[i].0.as_str(), key.as_str()) {
            return concat("/dev/", &dm[i].1.name);
        }
        assert(dm@.skip(i as int).drop_first() == dm@.skip(i + 1));
        i += 1;
    }
    String::new()
}

/// One blkio series per counter of a device.
pub open spec fn op_series(stats: Seq<(String, u64)>, base: LabelsV, dev: Seq<char>, major: u64, minor: u64, ts: Option<i64>) -> Seq<EmittedV>
    decreases stats.len(),
{
    if stats.len() == 0 {
        Seq::empty()
    } else {
        op_series(stats.drop_last(), base, dev, major, minor, ts) + one(
            Family::ContainerBlkioDeviceUsageTotal,
            with_extra(
                base,
                seq![("device"@, dev), ("major"@, decimal(major as nat)), ("minor"@, decimal(minor as nat)), ("operation"@, stats.last().0@)],
            ),
            Value::Int(stats.last().1),
            ts,
        )
    }
}

/// The read/write series of one I/O entry for families `r` and `w`.
pub open spec fn rw_series(e: PerDiskStats, base: LabelsV, dev: Seq<char>, r: Family, w: Family, ts: Option<i64>) -> Seq<EmittedV> {
    (match stat_get(e.stats@, "Read"@) {
        Some(v) => one(r, device_labels(base, dev), Value::Int(v), ts),
        None => Seq::empty(),
    }) + (match stat_get(e.stats@, "Write"@) {
        Some(v) => one(w, device_labels(base, dev), Value::Int(v), ts),
        None => Seq::empty(),
    })
}

/// Byte counters per device (`io_service_bytes`).
pub open spec fn service_bytes_series(es: Seq<PerDiskStats>, base: LabelsV, dm: Seq<(String, DiskInfo)>, ts: Option<i64>) -> Seq<EmittedV>
    decreases es.len(),
{
    if es.len() == 0 {
        Seq::empty()
    } else {
        let e = es.last();
        let dev = device_of(e, dm);
        service_bytes_series(es.drop_last(), base, dm, ts) + op_series(e.stats@, base, dev, e.major, e.minor, ts)
            + rw_series(e, base, dev, Family::ContainerFsReadsBytesTotal, Family::ContainerFsWritesBytesTotal, ts)
    }
}

/// Operation counters per device (`io_serviced`).
pub open spec fn serviced_series(es: Seq<PerDiskStats>, base: LabelsV, dm: Seq<(String, DiskInfo)>, ts: Option<i64>) -> Seq<EmittedV>
    decreases es.len(),
{
    if es.len() == 0 {
        Seq::empty()
    } else {
        let e = es.last();
        serviced_series(es.drop_last(), base, dm, ts)
            + rw_series(e, base, device_of(e, dm), Family::ContainerFsReadsTotal, Family::ContainerFsWritesTotal, ts)
    }
}

pub open spec fn disk_io_series(s: ContainerStats, base: LabelsV, dm: Seq<(String, DiskInfo)>, ts: Option<i64>) -> Seq<EmittedV> {
    service_bytes_series(s.disk_io.io_service_bytes@, base, dm, ts) + serviced_series(s.disk_io.io_serviced@, base, dm, ts)
        + fs_io_series(s.filesystem@, base, ts)
}

fn emit_rw(out: &mut Vec<(Family, Series)>, labels: &ContainerLabels, e: &PerDiskStats, dev: &String, r: Family, w: Family, ts: Option<i64>)
    ensures
        emitted_view(final(out)@) == emitted_view(old(out)@) + rw_series(*e, labels_view(labels.base@), dev@, r, w, ts),
{
    let ghost o = emitted_view(out@);
    match stat_lookup(&e.stats, "Read") {
        Some(v) => {
            emit(out, r, labels.with(&pair1("device", dev.clone())), Value::Int(v), ts);
        },
        None => {},
    }
    let ghost o1 = emitted_view(out@);
    match stat_lookup(&e.stats, "Write") {
        Some(v) => {
            emit(out, w, labels.with(&pair1("device", dev.clone())), Value::Int(v), ts);
        },
        None => {},
    }
    assert(emitted_view(out@) =~= o + rw_series(*e, labels_view(labels.base@), dev@, r, w, ts));
}

fn emit_ops(out: &mut Vec<(Family, Series)>, labels: &ContainerLabels, e: &PerDiskStats, dev: &String, ts: Option<i64>)
    ensures
        emitted_view(final(out)@) == emitted_view(old(out)@) + op_series(e.stats@, labels_view(labels.base@), dev@, e.major, e.minor, ts),
{
    let ghost base = labels_view(labels.base@);
    let ghost o = emitted_view(out@);
    let mut major = String::new();
    push_decimal(&mut major, e.major);
    let mut minor = String::new();
    push_decimal(&mut minor, e.minor);
    let mut i: usize = 0;
    while i < e.stats.len()
        invariant
            i <= e.stats@.len(),
            base == labels_view(labels.base@),
            major@ == decimal(e.major as nat),
            minor@ == decimal(e.minor as nat),
            emitted_view(out@) == o + op_series(e.stats@.take(i as int), base, dev@, e.major, e.minor, ts),
        decreases e.stats.len() - i,
    {
        assert(e.stats@.take(i + 1).drop_last() == e.stats@.take(i as int));
        let mut extra: Vec<(String, String)> = Vec::new();
        push_pair(&mut extra, text("device"), dev.clone());
        push_pair(&mut extra, text("major"), major.clone());
        push_pair(&mut extra, text("minor"), minor.clone());
        push_pair(&mut extra, text("operation"), e.stats[i].0.clone());
        assert(labels_view(extra@) =~= seq![("device"@, dev@), ("major"@, major@), ("minor"@, minor@), ("operation"@, e.stats@[i as int].0@)]);
        emit(out, Family::ContainerBlkioDeviceUsageTotal, labels.with(&extra), Value::Int(e.stats[i].1), ts);
        assert(emitted_view(out@) =~= o + op_series(e.stats@.take(i + 1), base, dev@, e.major, e.minor, ts));
        i += 1;
    }
    assert(e.stats@.take(e.stats@.len() as int) == e.stats@);
}

fn emit_disk_io(out: &mut Vec<(Family, Series)>, labels: &ContainerLabels, s: &ContainerStats, dm: &Vec<(String, DiskInfo)>, ts: Option<i64>)
    ensures
        emitted_view(final(out)@) == emitted_view(old(out)@) + disk_io_series(*s, labels_view(labels.base@), dm@, ts),
{
    let ghost base = labels_view(labels.base@);
    let ghost o = emitted_view(out@);
    let es = &s.disk_io.io_service_bytes;
    let mut i: usize = 0;
    while i < es.len()
        invariant
            i <= es@.len(),
            base == labels_view(labels.base@),
            emitted_view(out@) == o + service_bytes_series(es@.take(i as int), base, dm@, ts),
        decreases es.len() - i,
    {
        assert(es@.take(i + 1).drop_last() == es@.take(i as int));
        let dev = resolve_device(&es[i], dm);
        emit_ops(out, labels, &es[i], &dev, ts);
        emit_rw(out, labels, &es[i], &dev, Family::ContainerFsReadsBytesTotal, Family::ContainerFsWritesBytesTotal, ts);
        assert(emitted_view(out@) =~= o + service_bytes_series(es@.take(i + 1), base, dm@, ts));
        i += 1;
    }
    assert(es@.take(es@.len() as int) == es@);
    let ghost o1 = emitted_view(out@);
    let sv = &s.disk_io.io_serviced;
    let mut j: usize = 0;
    while j < sv.len()
        invariant
            j <= sv@.len(),
            base == labels_view(labels.base@),
            emitted_view(out@) == o1 + serviced_series(sv@.take(j as int), base, dm@, ts),
        decreases sv.len() - j,
    {
        assert(sv@.take(j + 1).drop_last() == sv@.take(j as int));
        let dev = resolve_device(&sv[j], dm);
        emit_rw(out, labels, &sv[j], &dev, Family::ContainerFsReadsTotal, Family::ContainerFsWritesTotal, ts);
        assert(emitted_view(out@) =~= o1 + serviced_series(sv@.take(j + 1), base, dm@, ts));
        j += 1;
    }
    assert(sv@.take(sv@.len() as int) == sv@);
    let ghost o2 = emitted_view(out@);
    emit_fs_io(out, labels, &s.filesystem, ts);
    assert(emitted_view(out@) =~= o + disk_io_series(*s, base, dm@, ts));
}

/// Per-interface network counter series.
pub open spec fn iface_series(ifs: Seq<InterfaceStats>, base: LabelsV, ts: Option<i64>) -> Seq<EmittedV>
    decreases ifs.len(),
{
    if ifs.len() == 0 {
        Seq::empty()
    } else {
        let f = ifs.last();
        let l = with_extra(base, seq![("interface"@, f.name@)]);
        iface_series(ifs.drop_last(), base, ts)
            + one(Family::ContainerNetworkReceiveBytesTotal, l, Value::Int(f.rx_bytes), ts)
            + one(Family::ContainerNetworkReceivePacketsTotal, l, Value::Int(f.rx_packets), ts)
            + one(Family::ContainerNetworkReceivePacketsDroppedTotal, l, Value::Int(f.rx_dropped), ts)
            + one(Family::ContainerNetworkReceiveErrorsTotal, l, Value::Int(f.rx_errors), ts)
            + one(Family::ContainerNetworkTransmitBytesTotal, l, Value::Int(f.tx_bytes), ts)
            + one(Family::ContainerNetworkTransmitPacketsTotal, l, Value::Int(f.tx_packets), ts)
            + one(Family::ContainerNetworkTransmitPacketsDroppedTotal, l, Value::Int(f.tx_dropped), ts)
            + one(Family::ContainerNetworkTransmitErrorsTotal, l, Value::Int(f.tx_errors), ts)
    }
}

fn emit_network(out: &mut Vec<(Family, Series)>, labels: &ContainerLabels, ifs: &Vec<InterfaceStats>, ts: Option<i64>)
    ensures
        emitted_view(final(out)@) == emitted_view(old(out)@) + iface_series(ifs@, labels_view(labels.base@), ts),
{
    let ghost base = labels_view(labels.base@);
    let ghost o = emitted_view(out@);
    let mut i: usize = 0;
    while i < ifs.len()
        invariant
            i <= ifs@.len(),
            base == labels_view(labels.base@),
            emitted_view(out@) == o + iface_series(ifs@.take(i as int), base, ts),
        decreases ifs.len() - i,
    {
        let f = &ifs[i];
        assert(ifs@.take(i + 1).drop_last() == ifs@.take(i as int));
        let l = labels.with(&pair1("interface", f.name.clone()));
        emit(out, Family::ContainerNetworkReceiveBytesTotal, copy_labels(&l), Value::Int(f.rx_bytes), ts);
        emit(out, Family::ContainerNetworkReceivePacketsTotal, copy_labels(&l), Value::Int(f.rx_packets), ts);
        emit(out, Family::ContainerNetworkReceivePacketsDroppedTotal, copy_labels(&l), Value::Int(f.rx_dropped), ts);
        emit(out, Family::ContainerNetworkReceiveErrorsTotal, copy_labels(&l), Value::Int(f.rx_errors), ts);
        emit(out, Family::ContainerNetworkTransmitBytesTotal, copy_labels(&l), Value::Int(f.tx_bytes), ts);
        emit(out, Family::ContainerNetworkTransmitPacketsTotal, copy_labels(&l), Value::Int(f.tx_packets), ts);
        emit(out, Family::ContainerNetworkTransmitPacketsDroppedTotal, copy_labels(&l), Value::Int(f.tx_dropped), ts);
        emit(out, Family::ContainerNetworkTransmitErrorsTotal, copy_labels(&l), Value::Int(f.tx_errors), ts);
        assert(emitted_view(out@) =~= o + iface_series(ifs@.take(i + 1), base, ts));
        i += 1;
    }
    assert(ifs@.take(ifs@.len() as int) == ifs@);
}

/// What the collector reads of one container.
pub struct ContainerView {
    pub name: String,
    pub reference: ContainerReference,
    pub spec: ContainerSpec,
    pub latest: Option<Arc<ContainerStats>>,
}

/// The series of a container's latest sample, by enabled metric group.
pub open spec fn stats_series(s: ContainerStats, spec: ContainerSpec, base: LabelsV, opts: &MetricsOpts, dm: Seq<(String, DiskInfo)>) -> Seq<EmittedV> {
    let ts = Some(millis(s.timestamp) as i64);
    (if group_enabled(opts, "cpu"@) {
        cpu_series(s, spec, base, ts)
    } else {
        Seq::empty()
    }) + (if group_enabled(opts, "cpuLoad"@) {
        load_series(s, base, ts)
    } else {
        Seq::empty()
    }) + (if group_enabled(opts, "memory"@) {
        memory_series(s, base, ts)
    } else {
        Seq::empty()
    }) + (if group_enabled(opts, "disk"@) {
        fs_disk_series(s.filesystem@, base, ts)
    } else {
        Seq::empty()
    }) + (if group_enabled(opts, "diskIO"@) {
        disk_io_series(s, base, dm, ts)
    } else {
        Seq::empty()
    }) + (if group_enabled(opts, "network"@) {
        iface_series(s.network.interfaces@, base, ts)
    } else {
        Seq::empty()
    }) + (if group_enabled(opts, "oom_event"@) {
        one(Family::ContainerOomEventsTotal, with_extra(base, Seq::empty()), Value::Int(s.oom_events), ts)
    } else {
        Seq::empty()
    })
}

/// Everything one container contributes, over its unioned labels `base`.
pub open spec fn container_series(c: ContainerView, base: LabelsV, opts: &MetricsOpts, now_ms: i64, dm: Seq<(String, DiskInfo)>) -> Seq<EmittedV> {
    spec_series(base, c.spec, opts, now_ms) + match c.latest {
        Some(s) => stats_series(*s, c.spec, base, opts, dm),
        None => Seq::empty(),
    }
}

/// Every container's own labels.
pub open spec fn all_own(cs: Seq<ContainerView>, opts: &MetricsOpts) -> Seq<LabelsV> {
    Seq::new(cs.len(), |i: int| own_pairs(cs[i].name@, cs[i].reference, cs[i].spec, opts))
}

pub open spec fn containers_series(cs: Seq<ContainerView>, keys: Seq<Seq<char>>, opts: &MetricsOpts, now_ms: i64, dm: Seq<(String, DiskInfo)>) -> Seq<EmittedV>
    decreases cs.len(),
{
    if cs.len() == 0 {
        Seq::empty()
    } else {
        let c = cs.last();
        containers_series(cs.drop_last(), keys, opts, now_ms, dm) + container_series(
            c,
            unioned_labels(own_pairs(c.name@, c.reference, c.spec, opts), keys),
            opts,
            now_ms,
            dm,
        )
    }
}

pub open spec fn version_labels(v: VersionInfo) -> LabelsV {
    seq![
        ("cadvisorRevision"@, v.cadvisor_revision@),
        ("cadvisorVersion"@, v.cadvisor_version@),
        ("dockerVersion"@, v.docker_version@),
        ("kernelVersion"@, v.kernel_version@),
        ("osVersion"@, v.container_os_version@),
    ]
}

pub open spec fn machine_labels(mi: MachineInfo) -> LabelsV {
    seq![("boot_id"@, mi.boot_id@), ("machine_id"@, mi.machine_id@), ("system_uuid"@, mi.system_uuid@)]
}

pub open spec fn machine_series(mi: MachineInfo) -> Seq<EmittedV> {
    let ml = machine_labels(mi);
    let mts = Some(millis(mi.timestamp) as i64);
    one(Family::MachineCpuPhysicalCores, ml, Value::Signed(mi.num_physical_cores), mts)
        + one(Family::MachineCpuCores, ml, Value::Signed(mi.num_cores), mts)
        + one(Family::MachineCpuSockets, ml, Value::Signed(mi.num_sockets), mts)
        + one(Family::MachineMemoryBytes, ml, Value::Int(mi.memory_capacity), mts)
        + one(Family::MachineSwapBytes, ml, Value::Int(mi.swap_capacity), mts)
        + one(
        Family::MachineNvmCapacity,
        sort_by(ml + seq![("mode"@, "app_direct_mode"@)], key_order()),
        Value::Int(mi.nvm_info.app_direct_mode_capacity),
        mts,
    ) + one(
        Family::MachineNvmCapacity,
        sort_by(ml + seq![("mode"@, "memory_mode"@)], key_order()),
        Value::Int(mi.nvm_info.memory_mode_capacity),
        mts,
    ) + one(Family::MachineNvmAvgPowerBudgetWatts, ml, Value::Int(mi.nvm_info.avg_power_budget), mts)
        + one(Family::MachineScrapeError, Seq::empty(), Value::Int(0), None)
}

/// Every sample the collector emits, in emission order.
pub open spec fn emitted_all(v: VersionInfo, mi: MachineInfo, cs: Seq<ContainerView>, opts: &MetricsOpts, now: GoTime) -> Seq<EmittedV> {
    one(Family::CadvisorVersionInfo, version_labels(v), Value::Int(1), None) + containers_series(
        cs,
        union_keys(all_own(cs, opts)),
        opts,
        millis(now) as i64,
        mi.disk_map@,
    ) + one(Family::ContainerScrapeError, Seq::empty(), Value::Int(0), None) + machine_series(mi)
}

/// The samples of family `f`, in emission order.
pub open spec fn select(e: Seq<EmittedV>, f: Family) -> Seq<SeriesV>
    decreases e.len(),
{
    if e.len() == 0 {
        Seq::empty()
    } else {
        select(e.drop_last(), f) + (if e.last().0 == f {
            seq![(e.last().1, e.last().2, e.last().3)]
        } else {
            Seq::empty()
        })
    }
}

/// The blocks of the first `n` exposed families that have samples, each
/// with its samples ordered by labels.
pub open spec fn blocks_upto(e: Seq<EmittedV>, n: int) -> Seq<(Family, Seq<SeriesV>)>
    decreases n,
{
    if n <= 0 {
        Seq::empty()
    } else {
        let f = family_at(n - 1);
        let s = select(e, f);
        blocks_upto(e, n - 1) + (if s.len() > 0 {
            seq![(f, sort_by(s, series_order()))]
        } else {
            Seq::empty()
        })
    }
}

/// The exposition of emitted samples: the exposed families that have
/// samples, in exposition order.
pub open spec fn exposition(e: Seq<EmittedV>) -> Seq<(Family, Seq<SeriesV>)> {
    blocks_upto(e, 59)
}

/// One family of the exposition and its samples.
pub struct FamilyBlock {
    pub family: Family,
    pub series: Vec<Series>,
}

pub open spec fn series_views(v: Seq<Series>) -> Seq<SeriesV> {
    Seq::new(v.len(), |i: int| series_view(v[i]))
}

pub open spec fn blocks_view(v: Seq<FamilyBlock>) -> Seq<(Family, Seq<SeriesV>)> {
    Seq::new(v.len(), |i: int| (v[i].family, series_views(v[i].series@)))
}

fn copy_series(s: &Series) -> (r: Series)
    ensures
        series_view(r) == series_view(*s),
{
    Series { labels: copy_labels(&s.labels), value: s.value, timestamp_ms: s.timestamp_ms }
}

/// The samples of family `f`, ordered by labels (stably).
fn family_series(all: &Vec<(Family, Series)>, f: Family) -> (r: Vec<Series>)
    ensures
        series_views(r@) == sort_by(select(emitted_view(all@), f), series_order()),
{
    let ghost e = emitted_view(all@);
    let mut out: Vec<Series> = Vec::new();
    let mut i: usize = 0;
    while i < all.len()
        invariant
            i <= all@.len(),
            e == emitted_view(all@),
            series_views(out@) == sort_by(select(e.take(i as int), f), series_order()),
        decreases all.len() - i,
    {
        assert(e.take(i + 1).drop_last() == e.take(i as int));
        assert(e.take(i + 1).last() == e[i as int]);
        if all[i].0 == f {
            let x = copy_series(&all[i].1);
            let ghost sv = series_view(x);
            assert(sv == (e[i as int].1, e[i as int].2, e[i as int].3));
            let ghost sel = select(e.take(i as int), f);
            assert(select(e.take(i + 1), f) == sel.push(sv));
            assert(sel.push(sv).drop_last() == sel);
            let mut j: usize = 0;
            while j < out.len() && !labels_less(&x.labels, &out[j].labels)
                invariant
                    j <= out@.len(),
                    sv == series_view(x),
                    forall|m: int| 0 <= m < j ==> !(series_order())(sv, #[trigger] series_views(out@)[m]),
                decreases out.len() - j,
            {
                j += 1;
            }
            proof {
                lemma_ins_by_at(series_views(out@), sv, series_order(), j as int);
            }
            let ghost before = out@;
            out.insert(j, x);
            assert(series_views(out@) =~= series_views(before).insert(j as int, sv));
        } else {
            assert(select(e.take(i + 1), f) =~= select(e.take(i as int), f));
        }
        i += 1;
    }
    assert(e.take(all@.len() as int) == e);
    out
}

/// Groups emitted samples into the exposition's blocks.
pub fn group_families(all: &Vec<(Family, Series)>) -> (r: Vec<FamilyBlock>)
    ensures
        blocks_view(r@) == exposition(emitted_view(all@)),
{
    let ghost e = emitted_view(all@);
    let mut blocks: Vec<FamilyBlock> = Vec::new();
    let mut n: usize = 0;
    while n < EXPOSED_FAMILIES
        invariant
            n <= EXPOSED_FAMILIES,
            e == emitted_view(all@),
            blocks_view(blocks@) == blocks_upto(e, n as int),
        decreases EXPOSED_FAMILIES - n,
    {
        let f = exposed_family(n);
        let series = family_series(all, f);
        proof {
            crate::order::lemma_sort_by_len(select(e, f), series_order());
        }
        let ghost before = blocks@;
        if series.len() > 0 {
            blocks.push(FamilyBlock { family: f, series });
            assert(blocks_view(blocks@) =~= blocks_view(before).push((f, sort_by(select(e, f), series_order()))));
        }
        assert(blocks_view(blocks@) =~= blocks_upto(e, n + 1));
        n += 1;
    }
    blocks
}

fn emit_stats(out: &mut Vec<(Family, Series)>, labels: &ContainerLabels, s: &ContainerStats, spec: &ContainerSpec, opts: &MetricsOpts, dm: &Vec<(String, DiskInfo)>)
    requires
        millis_fit(s.timestamp),
    ensures
        emitted_view(final(out)@) == emitted_view(old(out)@) + stats_series(*s, *spec, labels_view(labels.base@), opts, dm@),
{
    let ghost base = labels_view(labels.base@);
    let ghost o = emitted_view(out@);
    let t = timestamp_millis(s.timestamp);
    let ts = Some(t);
    let on1 = !contains_str(&opts.disabled_groups, "cpu");
    let ghost p1 = if on1 { cpu_series(*s, *spec, base, ts) } else { Seq::<EmittedV>::empty() };
    if on1 {
        emit_cpu(out, labels, s, spec, ts);
    }
    assert(emitted_view(out@) =~= o + p1);
    let ghost o1 = emitted_view(out@);
    let on2 = !contains_str(&opts.disabled_groups, "cpuLoad");
    let ghost p2 = if on2 { load_series(*s, base, ts) } else { Seq::<EmittedV>::empty() };
    if on2 {
        emit_load(out, labels, s, ts);
    }
    assert(emitted_view(out@) =~= o1 + p2);
    let ghost o2 = emitted_view(out@);
    let on3 = !contains_str(&opts.disabled_groups, "memory");
    let ghost p3 = if on3 { memory_series(*s, base, ts) } else { Seq::<EmittedV>::empty() };
    if on3 {
        emit_memory(out, labels, s, ts);
    }
    assert(emitted_view(out@) =~= o2 + p3);
    let ghost o3 = emitted_view(out@);
    let on4 = !contains_str(&opts.disabled_groups, "disk");
    let ghost p4 = if on4 { fs_disk_series(s.filesystem@, base, ts) } else { Seq::<EmittedV>::empty() };
    if on4 {
        emit_fs_disk(out, labels, &s.filesystem, ts);
    }
    assert(emitted_view(out@) =~= o3 + p4);
    let ghost o4 = emitted_view(out@);
    let on5 = !contains_str(&opts.disabled_groups, "diskIO");
    let ghost p5 = if on5 { disk_io_series(*s, base, dm@, ts) } else { Seq::<EmittedV>::empty() };
    if on5 {
        emit_disk_io(out, labels, s, dm, ts);
    }
    assert(emitted_view(out@) =~= o4 + p5);
    let ghost o5 = emitted_view(out@);
    let on6 = !contains_str(&opts.disabled_groups, "network");
    let ghost p6 = if on6 { iface_series(s.network.interfaces@, base, ts) } else { Seq::<EmittedV>::empty() };
    if on6 {
        emit_network(out, labels, &s.network.interfaces, ts);
    }
    assert(emitted_view(out@) =~= o5 + p6);
    let ghost o6 = emitted_view(out@);
    let on7 = !contains_str(&opts.disabled_groups, "oom_event");
    let ghost p7 = if on7 {
        one(Family::ContainerOomEventsTotal, with_extra(base, Seq::empty()), Value::Int(s.oom_events), ts)
    } else {
        Seq::<EmittedV>::empty()
    };
    if on7 {
        emit(out, Family::ContainerOomEventsTotal, plain_labels(labels), Value::Int(s.oom_events), ts);
    }
    assert(emitted_view(out@) =~= o6 + p7);
    proof {
        assert(ts == Some(millis(s.timestamp) as i64));
        assert(stats_series(*s, *spec, base, opts, dm@) == p1 + p2 + p3 + p4 + p5 + p6 + p7);
        vstd::seq_lib::lemma_concat_associative(o, p1, p2);
        vstd::seq_lib::lemma_concat_associative(o, p1 + p2, p3);
        vstd::seq_lib::lemma_concat_associative(o, p1 + p2 + p3, p4);
        vstd::seq_lib::lemma_concat_associative(o, p1 + p2 + p3 + p4, p5);
        vstd::seq_lib::lemma_concat_associative(o, p1 + p2 + p3 + p4 + p5, p6);
        vstd::seq_lib::lemma_concat_associative(o, p1 + p2 + p3 + p4 + p5 + p6, p7);
    }
}

fn emit_container(out: &mut Vec<(Family, Series)>, c: &ContainerView, labels: &ContainerLabels, opts: &MetricsOpts, now_ms: i64, dm: &Vec<(String, DiskInfo)>)
    requires
        c.latest matches Some(s) ==> millis_fit(s.timestamp),
    ensures
        emitted_view(final(out)@) == emitted_view(old(out)@) + container_series(*c, labels_view(labels.base@), opts, now_ms, dm@),
{
    let ghost o = emitted_view(out@);
    emit_spec_series(out, labels, &c.spec, opts, now_ms);
    let ghost o1 = emitted_view(out@);
    match &c.latest {
        Some(s) => {
            emit_stats(out, labels, s, &c.spec, opts, dm);
        },
        None => {},
    }
    assert(emitted_view(out@) =~= o + container_series(*c, labels_view(labels.base@), opts, now_ms, dm@));
}

fn emit_machine(out: &mut Vec<(Family, Series)>, mi: &MachineInfo)
    requires
        millis_fit(mi.timestamp),
    ensures
        emitted_view(final(out)@) == emitted_view(old(out)@) + machine_series(*mi),
{
    let ghost o = emitted_view(out@);
    let mut ml: Vec<(String, String)> = Vec::new();
    push_pair(&mut ml, text("boot_id"), mi.boot_id.clone());
    push_pair(&mut ml, text("machine_id"), mi.machine_id.clone());
    push_pair(&mut ml, text("system_uuid"), mi.system_uuid.clone());
    assert(labels_view(ml@) =~= machine_labels(*mi));
    let mts = Some(timestamp_millis(mi.timestamp));
    emit(out, Family::MachineCpuPhysicalCores, copy_labels(&ml), Value::Signed(mi.num_physical_cores), mts);
    emit(out, Family::MachineCpuCores, copy_labels(&ml), Value::Signed(mi.num_cores), mts);
    emit(out, Family::MachineCpuSockets, copy_labels(&ml), Value::Signed(mi.num_sockets), mts);
    emit(out, Family::MachineMemoryBytes, copy_labels(&ml), Value::Int(mi.memory_capacity), mts);
    emit(out, Family::MachineSwapBytes, copy_labels(&ml), Value::Int(mi.swap_capacity), mts);
    let mut a = copy_labels(&ml);
    push_pair(&mut a, text("mode"), text("app_direct_mode"));
    assert(labels_view(a@) =~= machine_labels(*mi) + seq![("mode"@, "app_direct_mode"@)]);
    emit(out, Family::MachineNvmCapacity, sort_labels(&a), Value::Int(mi.nvm_info.app_direct_mode_capacity), mts);
    let mut b = copy_labels(&ml);
    push_pair(&mut b, text("mode"), text("memory_mode"));
    assert(labels_view(b@) =~= machine_labels(*mi) + seq![("mode"@, "memory_mode"@)]);
    emit(out, Family::MachineNvmCapacity, sort_labels(&b), Value::Int(mi.nvm_info.memory_mode_capacity), mts);
    emit(out, Family::MachineNvmAvgPowerBudgetWatts, copy_labels(&ml), Value::Int(mi.nvm_info.avg_power_budget), mts);
    let none: Vec<(String, String)> = Vec::new();
    assert(labels_view(none@) =~= Seq::<(Seq<char>, Seq<char>)>::empty());
    emit(out, Family::MachineScrapeError, none, Value::Int(0), None);
    assert(emitted_view(out@) =~= o + machine_series(*mi));
}

/// Every container's latest sample, the machine and `now` have timestamps
/// whose milliseconds fit an `i64`.
pub open spec fn render_times_fit(mi: MachineInfo, cs: Seq<ContainerView>, now: GoTime) -> bool {
    &&& millis_fit(now)
    &&& millis_fit(mi.timestamp)
    &&& forall|i: int| 0 <= i < cs.len() ==> ((#[trigger] cs[i]).latest matches Some(s) ==> millis_fit(s.timestamp))
}

/// The exposition of one scrape: version info, each container's series over
/// the union of all containers' label names, the machine's series; grouped
/// into the exposed families in order, each family's series ordered by labels.
pub fn render(version: &VersionInfo, machine: &MachineInfo, containers: &Vec<ContainerView>, opts: &MetricsOpts, now: GoTime) -> (r: Vec<FamilyBlock>)
    requires
        render_times_fit(*machine, containers@, now),
    ensures
        blocks_view(r@) == exposition(emitted_all(*version, *machine, containers@, opts, now)),
{
    let ghost cs = containers@;
    let now_ms = timestamp_millis(now);
    let mut out: Vec<(Family, Series)> = Vec::new();
    let mut vl: Vec<(String, String)> = Vec::new();
    push_pair(&mut vl, text("cadvisorRevision"), version.cadvisor_revision.clone());
    push_pair(&mut vl, text("cadvisorVersion"), version.cadvisor_version.clone());
    push_pair(&mut vl, text("dockerVersion"), version.docker_version.clone());
    push_pair(&mut vl, text("kernelVersion"), version.kernel_version.clone());
    push_pair(&mut vl, text("osVersion"), version.container_os_version.clone());
    assert(labels_view(vl@) =~= version_labels(*version));
    assert(emitted_view(out@) =~= Seq::<EmittedV>::empty());
    emit(&mut out, Family::CadvisorVersionInfo, vl, Value::Int(1), None);
    let ghost o1 = emitted_view(out@);
    // Own labels of every container, and the union of their names.
    let ghost owns_spec = all_own(cs, opts);
    let mut owns: Vec<Vec<(String, String)>> = Vec::new();
    let mut keys: Vec<String> = Vec::new();
    let mut i: usize = 0;
    while i < containers.len()
        invariant
            i <= cs.len(),
            cs == containers@,
            owns_spec == all_own(cs, opts),
            owns@.len() == i,
            forall|j: int| 0 <= j < i ==> labels_view(#[trigger] owns@[j]@) == owns_spec[j],
            keys@.map_values(|s: String| s@) == union_keys(owns_spec.take(i as int)),
        decreases containers.len() - i,
    {
        let c = &containers[i];
        let own = ContainerLabels::own(c.name.as_str(), &c.reference, &c.spec, opts);
        assert(owns_spec.take(i + 1).drop_last() == owns_spec.take(i as int));
        add_label_names(&mut keys, &own);
        owns.push(own);
        i += 1;
    }
    assert(owns_spec.take(cs.len() as int) == owns_spec);
    let ghost kv = keys@.map_values(|s: String| s@);
    let mut k: usize = 0;
    while k < containers.len()
        invariant
            k <= cs.len(),
            cs == containers@,
            owns_spec == all_own(cs, opts),
            owns@.len() == cs.len(),
            forall|j: int| 0 <= j < cs.len() ==> labels_view(#[trigger] owns@[j]@) == owns_spec[j],
            kv == keys@.map_values(|s: String| s@),
            render_times_fit(*machine, cs, now),
            emitted_view(out@) == o1 + containers_series(cs.take(k as int), kv, opts, now_ms, machine.disk_map@),
        decreases containers.len() - k,
    {
        let c = &containers[k];
        assert(cs.take(k + 1).drop_last() == cs.take(k as int));
        assert(cs.take(k + 1).last() == cs[k as int]);
        assert(owns_spec[k as int] == own_pairs(cs[k as int].name@, cs[k as int].reference, cs[k as int].spec, opts));
        let labels = ContainerLabels::unioned(&owns[k], &keys);
        assert((cs[k as int].latest matches Some(s) ==> millis_fit(s.timestamp)));
        emit_container(&mut out, c, &labels, opts, now_ms, &machine.disk_map);
        k += 1;
    }
    assert(cs.take(cs.len() as int) == cs);
    let none: Vec<(String, String)> = Vec::new();
    assert(labels_view(none@) =~= Seq::<(Seq<char>, Seq<char>)>::empty());
    emit(&mut out, Family::ContainerScrapeError, none, Value::Int(0), None);
    emit_machine(&mut out, machine);
    assert(emitted_view(out@) =~= emitted_all(*version, *machine, cs, opts, now));
    group_families(&out)
}

/// The exposition text of one family: its HELP and TYPE lines, then one
/// line per sample with the sample's value text.
pub open spec fn block_text(f: Family, series: Seq<Series>, values: Seq<String>) -> Seq<char> {
    "# HELP "@ + f.name_text() + seq![' '] + f.help_text() + "\n# TYPE "@ + f.name_text() + seq![' ']
        + f.kind_spec().text() + seq!['\n'] + lines_text(f, series, values)
}

pub open spec fn lines_text(f: Family, series: Seq<Series>, values: Seq<String>) -> Seq<char>
    decreases series.len(),
{
    if series.len() == 0 || values.len() < series.len() {
        Seq::empty()
    } else {
        let n = series.len() - 1;
        lines_text(f, series.drop_last(), values.take(n)) + sample_text(
            f.name_text(),
            series[n].labels@,
            values[n]@,
            series[n].timestamp_ms,
        )
    }
}

/// Writes one family of the exposition; `values[i]` is the text of the
/// `i`-th sample's value.
pub fn encode_block(block: &FamilyBlock, values: &Vec<String>, buf: &mut String)
    requires
        values@.len() == block.series@.len(),
    ensures
        final(buf)@ == old(buf)@ + block_text(block.family, block.series@, values@),
{
    let f = block.family;
    push_all(buf, "# HELP ");
    push_all(buf, f.name());
    push_char(buf, ' ');
    push_all(buf, f.help());
    push_all(buf, "\n# TYPE ");
    push_all(buf, f.name());
    push_char(buf, ' ');
    push_all(buf, f.kind().as_str());
    push_char(buf, '\n');
    let ghost head = buf@;
    let mut i: usize = 0;
    while i < block.series.len()
        invariant
            i <= block.series@.len(),
            values@.len() == block.series@.len(),
            buf@ == head + lines_text(f, block.series@.take(i as int), values@.take(i as int)),
        decreases block.series.len() - i,
    {
        let s = &block.series[i];
        sample_line(buf, f.name(), s.labels.as_slice(), values[i].as_str(), s.timestamp_ms);
        assert(block.series@.take(i + 1).drop_last() == block.series@.take(i as int));
        assert(values@.take(i + 1).take(i as int) == values@.take(i as int));
        i += 1;
    }
    assert(block.series@.take(block.series@.len() as int) == block.series@);
    assert(values@.take(values@.len() as int) == values@);
}

// ---------------------------------------------------------------------------
// The shape of the exposition
// ---------------------------------------------------------------------------

proof fn lemma_pair_lt_strict(a: (Seq<char>, Seq<char>), b: (Seq<char>, Seq<char>), c: (Seq<char>, Seq<char>))
    ensures
        !pair_lt(a, a),
        pair_lt(a, b) && pair_lt(b, c) ==> pair_lt(a, c),
{
    crate::order::lemma_chars_lt_irreflexive(a.0);
    crate::order::lemma_chars_lt_irreflexive(a.1);
    if pair_lt(a, b) && pair_lt(b, c) {
        if chars_lt(a.0, b.0) && chars_lt(b.0, c.0) {
            crate::order::lemma_chars_lt_transitive(a.0, b.0, c.0);
        }
        if a.0 == b.0 && b.0 == c.0 && chars_lt(a.1, b.1) && chars_lt(b.1, c.1) {
            crate::order::lemma_chars_lt_transitive(a.1, b.1, c.1);
        }
    }
}

proof fn lemma_labels_lt_irreflexive(a: LabelsV)
    ensures
        !labels_lt(a, a),
    decreases a.len(),
{
    if a.len() > 0 {
        lemma_labels_lt_irreflexive(a.drop_first());
    }
}

proof fn lemma_labels_lt_transitive(a: LabelsV, b: LabelsV, c: LabelsV)
    requires
        labels_lt(a, b),
        labels_lt(b, c),
    ensures
        labels_lt(a, c),
    decreases a.len(),
{
    if a.len() > 0 {
        lemma_pair_lt_strict(a[0], b[0], c[0]);
        lemma_pair_lt_strict(b[0], a[0], c[0]);
        lemma_pair_lt_strict(a[0], c[0], b[0]);
        if a[0] == b[0] && b[0] == c[0] {
            lemma_labels_lt_transitive(a.drop_first(), b.drop_first(), c.drop_first());
        } else if a[0] != b[0] && b[0] != c[0] && a[0] == c[0] {
            lemma_pair_lt_strict(a[0], b[0], a[0]);
        }
    }
}

/// Label order is a strict order.
proof fn lemma_series_order_strict()
    ensures
        crate::order::strict_order(series_order()),
{
    assert forall|a: SeriesV| !#[trigger] (series_order())(a, a) by {
        lemma_labels_lt_irreflexive(a.0);
    }
    assert forall|a: SeriesV, b: SeriesV, c: SeriesV| #[trigger] (series_order())(a, b) && #[trigger] (series_order())(b, c) implies (series_order())(a, c) by {
        lemma_labels_lt_transitive(a.0, b.0, c.0);
    }
}

proof fn lemma_blocks_upto(e: Seq<EmittedV>, n: int)
    requires
        0 <= n <= 59,
    ensures
        forall|i: int| 0 <= i < blocks_upto(e, n).len() ==> 0 <= (#[trigger] blocks_upto(e, n)[i]).0.rank() < n,
        forall|i: int, j: int|
            0 <= i < j < blocks_upto(e, n).len() ==> (#[trigger] blocks_upto(e, n)[i]).0.rank() < (#[trigger] blocks_upto(e, n)[j]).0.rank(),
        forall|i: int|
            0 <= i < blocks_upto(e, n).len() ==> (#[trigger] blocks_upto(e, n)[i]).1.len() > 0 && crate::order::sorted_by(
                blocks_upto(e, n)[i].1,
                series_order(),
            ),
    decreases n,
{
    if n > 0 {
        lemma_blocks_upto(e, n - 1);
        let f = family_at(n - 1);
        crate::families::lemma_family_at_rank(n - 1);
        let s = select(e, f);
        let b = blocks_upto(e, n);
        let prev = blocks_upto(e, n - 1);
        if s.len() > 0 {
            lemma_series_order_strict();
            crate::order::lemma_sort_by_sorted(s, series_order());
            crate::order::lemma_sort_by_len(s, series_order());
            assert(b == prev.push((f, sort_by(s, series_order()))));
            assert forall|i: int| 0 <= i < b.len() implies 0 <= (#[trigger] b[i]).0.rank() < n by {
                if i < prev.len() {
                    assert(b[i] == prev[i]);
                }
            }
            assert forall|i: int, j: int| 0 <= i < j < b.len() implies (#[trigger] b[i]).0.rank() < (#[trigger] b[j]).0.rank() by {
                assert(b[i] == prev[i]);
                if j < prev.len() {
                    assert(b[j] == prev[j]);
                }
            }
            assert forall|i: int| 0 <= i < b.len() implies (#[trigger] b[i]).1.len() > 0 && crate::order::sorted_by(b[i].1, series_order()) by {
                if i < prev.len() {
                    assert(b[i] == prev[i]);
                }
            }
        } else {
            assert(b == prev);
        }
    }
}

/// The exposition holds each family at most once, in exposition order,
/// and every family it holds has samples, in label order.
pub proof fn lemma_exposition_shape(e: Seq<EmittedV>)
    ensures
        forall|i: int, j: int|
            0 <= i < j < exposition(e).len() ==> (#[trigger] exposition(e)[i]).0.rank() < (#[trigger] exposition(e)[j]).0.rank(),
        forall|i: int|
            0 <= i < exposition(e).len() ==> (#[trigger] exposition(e)[i]).1.len() > 0 && crate::order::sorted_by(
                exposition(e)[i].1,
                series_order(),
            ),
{
    lemma_blocks_upto(e, 59);
}

} // verus!
