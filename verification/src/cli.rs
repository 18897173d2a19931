//! The server's command line: its flags, Go-style single-dash flags, and
//! the manager and metrics settings they give.

use vstd::prelude::*;

use crate::api::{debug_quoted, debug_text};
use crate::manager::{lemma_missing_from_contains, missing_from, ManagerConfig};
use crate::metrics::{contains_str, contains_text, MetricsOpts};
use crate::model::Span;
use crate::order::str_eq;
use crate::text::{chars_of, push_all, push_char, push_decimal, decimal, split_on, split_ranges, string_of, trim, trim_range};

verus! {

/// The server's flags, with upstream's names and defaults.
pub struct Args {
    pub listen_ip: String,
    pub port: u16,
    pub housekeeping_interval: String,
    pub max_housekeeping_interval: String,
    pub allow_dynamic_housekeeping: bool,
    pub global_housekeeping_interval: String,
    pub storage_duration: String,
    pub disable_metrics: String,
    pub enable_metrics: String,
    pub store_container_labels: bool,
    pub whitelisted_container_labels: String,
    pub env_metadata_whitelist: String,
    pub containerd: String,
    pub containerd_namespace: String,
    pub crio: String,
}

// ---------------------------------------------------------------------------
// Go-style flags
// ---------------------------------------------------------------------------

pub open spec fn is_ascii_digit(c: char) -> bool {
    '0' <= c <= '9'
}

/// A single-dash long flag: longer than two characters, one leading `-`,
/// and not a negative number.
pub open spec fn go_flag(a: Seq<char>) -> bool {
    &&& a.len() > 2
    &&& a[0] == '-'
    &&& a[1] != '-'
    &&& !is_ascii_digit(a[1])
}

/// Arguments whose second character can be looked at as one byte.
pub open spec fn flag_char_ok(a: Seq<char>) -> bool {
    a.len() >= 2 && a[0] == '-' && a[1] != '-' ==> (a[1] as u32) < 128
}

/// The arguments with each single-dash long flag after the program name
/// given a second dash.
pub open spec fn go_style(args: Seq<Seq<char>>) -> Seq<Seq<char>> {
    Seq::new(args.len(), |i: int| if i > 0 && go_flag(args[i]) { seq!['-'] + args[i] } else { args[i] })
}

/// Rewriting Go-style flags twice is rewriting them once: a rewritten flag
/// starts with two dashes.
pub proof fn lemma_go_style_idempotent(args: Seq<Seq<char>>)
    ensures
        go_style(go_style(args)) == go_style(args),
{
    let once = go_style(args);
    assert forall|i: int| 0 <= i < once.len() implies #[trigger] go_style(once)[i] == once[i] by {
        if i > 0 && go_flag(args[i]) {
            let t = seq!['-'] + args[i];
            assert(t[1] == args[i][0]);
            assert(!go_flag(t));
        }
    }
    assert(go_style(once) =~= once);
}

/// `-port 8080` becomes `--port 8080`; everything else stays.
pub fn go_style_argv(args: &Vec<String>) -> (r: Vec<String>)
    requires
        forall|i: int| 0 < i < args@.len() ==> flag_char_ok(#[trigger] args@[i]@),
    ensures
        r@.len() == args@.len(),
        forall|i: int| 0 <= i < r@.len() ==> (#[trigger] r@[i])@ == go_style(args@.map_values(|s: String| s@))[i],
{
    let ghost av = args@.map_values(|s: String| s@);
    let mut out: Vec<String> = Vec::new();
    let mut i: usize = 0;
    while i < args.len()
        invariant
            i <= args@.len(),
            av == args@.map_values(|s: String| s@),
            out@.len() == i,
            forall|k: int| 0 <= k < i ==> (#[trigger] out@[k])@ == go_style(av)[k],
        decreases args.len() - i,
    {
        let a = chars_of(args[i].as_str());
        let flag = i > 0 && a.len() > 2 && a[0] == '-' && a[1] != '-' && !('0' <= a[1] && a[1] <= '9');
        let mut s = String::new();
        if flag {
            push_char(&mut s, '-');
        }
        push_all(&mut s, args[i].as_str());
        assert(s@ == go_style(av)[i as int]);
        out.push(s);
        i += 1;
    }
    out
}

// ---------------------------------------------------------------------------
// Comma-separated lists
// ---------------------------------------------------------------------------

/// Each piece trimmed.
pub open spec fn trimmed(ps: Seq<Seq<char>>) -> Seq<Seq<char>> {
    Seq::new(ps.len(), |i: int| trim(ps[i]))
}

/// The pieces that are not empty, in order.
pub open spec fn non_empty(ps: Seq<Seq<char>>) -> Seq<Seq<char>>
    decreases ps.len(),
{
    if ps.len() == 0 {
        Seq::empty()
    } else {
        non_empty(ps.drop_last()) + if ps.last().len() > 0 {
            seq![ps.last()]
        } else {
            Seq::<Seq<char>>::empty()
        }
    }
}

/// The items of a comma-separated flag: the pieces between commas,
/// trimmed, without empty ones.
pub open spec fn flag_items(s: Seq<char>) -> Seq<Seq<char>> {
    non_empty(trimmed(split_on(s, ',')))
}

/// The trimmed pieces between the commas of `s`, empty ones included.
fn trimmed_pieces(s: &str) -> (r: Vec<String>)
    ensures
        r@.map_values(|x: String| x@) == trimmed(split_on(s@, ',')),
{
    let v = chars_of(s);
    assert(v@.subrange(0, v@.len() as int) =~= v@);
    let rs = split_ranges(&v, 0, v.len(), ',');
    let ghost ps = split_on(s@, ',');
    let mut out: Vec<String> = Vec::new();
    let mut i: usize = 0;
    while i < rs.len()
        invariant
            i <= rs@.len() == ps.len(),
            ps == split_on(v@, ','),
            forall|j: int| 0 <= j < rs@.len() ==> 0 <= #[trigger] rs@[j].0 <= rs@[j].1 <= v@.len(),
            forall|j: int| 0 <= j < rs@.len() ==> #[trigger] v@.subrange(rs@[j].0 as int, rs@[j].1 as int) == ps[j],
            out@.map_values(|x: String| x@) == trimmed(ps).take(i as int),
        decreases rs.len() - i,
    {
        let (lo, hi) = rs[i];
        let (a, b) = trim_range(&v, lo, hi);
        assert(v@.subrange(lo as int, hi as int) == ps[i as int]);
        let ghost before = out@;
        let piece = string_of(&v, a, b);
        assert(piece@ == trimmed(ps)[i as int]);
        out.push(piece);
        assert(trimmed(ps).take(i + 1) =~= trimmed(ps).take(i as int).push(piece@));
        assert(out@.map_values(|x: String| x@) =~= before.map_values(|x: String| x@).push(piece@));
        i += 1;
    }
    assert(trimmed(ps).take(rs@.len() as int) =~= trimmed(ps));
    out
}

/// The items of a comma-separated flag value.
pub fn flag_list(s: &str) -> (r: Vec<String>)
    ensures
        r@.map_values(|x: String| x@) == flag_items(s@),
{
    let pieces = trimmed_pieces(s);
    let ghost tv = trimmed(split_on(s@, ','));
    let mut out: Vec<String> = Vec::new();
    let mut i: usize = 0;
    while i < pieces.len()
        invariant
            i <= pieces@.len() == tv.len(),
            pieces@.map_values(|x: String| x@) == tv,
            tv == trimmed(split_on(s@, ',')),
            out@.map_values(|x: String| x@) == non_empty(tv.take(i as int)),
        decreases pieces.len() - i,
    {
        assert(tv.take(i + 1).drop_last() =~= tv.take(i as int));
        assert(tv[i as int] == pieces@[i as int]@);
        let ghost before = out@;
        if !pieces[i].as_str().is_empty() {
            out.push(pieces[i].clone());
            assert(out@.map_values(|x: String| x@) =~= before.map_values(|x: String| x@).push(tv[i as int]));
        }
        i += 1;
    }
    assert(tv.take(pieces@.len() as int) =~= tv);
    out
}

/// The metric groups on by default.
pub open spec fn default_groups() -> Seq<Seq<char>> {
    seq![
        "cpu"@,
        "percpu"@,
        "memory"@,
        "cpuLoad"@,
        "disk"@,
        "diskIO"@,
        "network"@,
        "app"@,
        "perf_event"@,
        "oom_event"@,
        "pressure"@,
    ]
}

fn default_group_list() -> (r: Vec<String>)
    ensures
        r@.map_values(|x: String| x@) == default_groups(),
{
    let names = [
        "cpu",
        "percpu",
        "memory",
        "cpuLoad",
        "disk",
        "diskIO",
        "network",
        "app",
        "perf_event",
        "oom_event",
        "pressure",
    ];
    let mut out: Vec<String> = Vec::new();
    let mut i: usize = 0;
    while i < 11
        invariant
            i <= 11,
            names@ == seq![
                "cpu",
                "percpu",
                "memory",
                "cpuLoad",
                "disk",
                "diskIO",
                "network",
                "app",
                "perf_event",
                "oom_event",
                "pressure",
            ],
            out@.len() == i,
            forall|k: int| 0 <= k < i ==> (#[trigger] out@[k])@ == names@[k]@,
        decreases 11 - i,
    {
        let mut t = String::new();
        push_all(&mut t, names[i]);
        out.push(t);
        i += 1;
    }
    assert(out@.map_values(|x: String| x@) =~= default_groups());
    out
}

/// The disabled metric groups: with `-enable_metrics` set, the default
/// groups it does not name; otherwise the groups `-disable_metrics` names.
pub open spec fn disabled_spec(enable: Seq<char>, disable: Seq<char>, g: Seq<char>) -> bool {
    if enable.len() == 0 {
        flag_items(disable).contains(g)
    } else {
        default_groups().contains(g) && !trimmed(split_on(enable, ',')).contains(g)
    }
}

/// The disabled metric groups as a list (each named once at most where the
/// enable flag decides).
pub fn disabled_groups(enable: &str, disable: &str) -> (r: Vec<String>)
    ensures
        forall|g: Seq<char>| contains_text(r@, g) <==> disabled_spec(enable@, disable@, g),
{
    if enable.is_empty() {
        let r = flag_list(disable);
        proof {
            let rv = r@.map_values(|x: String| x@);
            assert forall|g: Seq<char>| contains_text(r@, g) <==> disabled_spec(enable@, disable@, g) by {
                if contains_text(r@, g) {
                    let k = choose|k: int| 0 <= k < r@.len() && #[trigger] r@[k]@ == g;
                    assert(rv[k] == g);
                }
                if flag_items(disable@).contains(g) {
                    let k = choose|k: int| 0 <= k < rv.len() && rv[k] == g;
                    assert(r@[k]@ == g);
                }
            }
        }
        return r;
    }
    let enabled = trimmed_pieces(enable);
    let defaults = default_group_list();
    let ghost ev = enabled@.map_values(|x: String| x@);
    let ghost dv = defaults@.map_values(|x: String| x@);
    let mut out: Vec<String> = Vec::new();
    let mut i: usize = 0;
    while i < defaults.len()
        invariant
            i <= defaults@.len() == dv.len(),
            ev == enabled@.map_values(|x: String| x@),
            dv == defaults@.map_values(|x: String| x@),
            ev == trimmed(split_on(enable@, ',')),
            dv == default_groups(),
            out@.map_values(|x: String| x@) == missing_from(dv.take(i as int), ev),
        decreases defaults.len() - i,
    {
        assert(dv.take(i + 1).drop_last() =~= dv.take(i as int));
        let d = &defaults[i];
        assert(dv[i as int] == d@);
        let named = contains_str(&enabled, d.as_str());
        let ghost before = out@;
        proof {
            if named {
                let k = choose|k: int| 0 <= k < enabled@.len() && #[trigger] enabled@[k]@ == d@;
                assert(ev[k] == d@);
            }
            if ev.contains(d@) {
                let k = choose|k: int| 0 <= k < ev.len() && ev[k] == d@;
                assert(enabled@[k]@ == d@);
            }
        }
        if !named {
            out.push(d.clone());
            assert(out@.map_values(|x: String| x@) =~= before.map_values(|x: String| x@).push(d@));
        }
        i += 1;
    }
    assert(dv.take(11) =~= dv);
    proof {
        let ov = out@.map_values(|x: String| x@);
        assert forall|g: Seq<char>| contains_text(out@, g) <==> disabled_spec(enable@, disable@, g) by {
            lemma_missing_from_contains(dv, ev, g);
            if contains_text(out@, g) {
                let k = choose|k: int| 0 <= k < out@.len() && #[trigger] out@[k]@ == g;
                assert(ov[k] == g);
            }
            if ov.contains(g) {
                let k = choose|k: int| 0 <= k < ov.len() && ov[k] == g;
                assert(out@[k]@ == g);
            }
        }
    }
    out
}

/// The metrics settings of the flags.
pub fn metrics_opts(args: &Args) -> (o: MetricsOpts)
    ensures
        o.store_container_labels == args.store_container_labels,
        o.whitelisted_container_labels@.map_values(|x: String| x@) == flag_items(args.whitelisted_container_labels@),
        forall|g: Seq<char>|
            contains_text(o.disabled_groups@, g) <==> disabled_spec(args.enable_metrics@, args.disable_metrics@, g),
{
    MetricsOpts {
        store_container_labels: args.store_container_labels,
        whitelisted_container_labels: flag_list(args.whitelisted_container_labels.as_str()),
        disabled_groups: disabled_groups(args.enable_metrics.as_str(), args.disable_metrics.as_str()),
    }
}

// ---------------------------------------------------------------------------
// Durations and the manager settings
// ---------------------------------------------------------------------------

/// What `humantime::parse_duration` makes of a text: whole seconds and
/// nanoseconds, or its error's message.
pub uninterp spec fn humantime_parse(s: Seq<char>) -> Result<(u64, u32), Seq<char>>;

/// `humantime::parse_duration`, with its error as its message; the result
/// is claimed to be the named one of the text.
#[verifier::external_body]
fn parse_humantime(s: &str) -> (r: Result<Span, String>)
    ensures
        match r {
            Ok(d) => humantime_parse(s@) == Ok::<(u64, u32), Seq<char>>((d.secs, d.nanos)),
            Err(e) => humantime_parse(s@) == Err::<(u64, u32), Seq<char>>(e@),
        },
{
    match humantime::parse_duration(s) {
        Ok(d) => Ok(Span { secs: d.as_secs(), nanos: d.subsec_nanos() }),
        Err(e) => Err(e.to_string()),
    }
}

/// A duration flag's value, or `invalid <flag> "<value>": <why>`.
pub open spec fn duration_of(s: Seq<char>, flag: Seq<char>) -> Result<Span, Seq<char>> {
    match humantime_parse(s) {
        Ok((secs, nanos)) => Ok(Span { secs, nanos }),
        Err(why) => Err("invalid "@ + flag + " "@ + debug_text(s) + ": "@ + why),
    }
}

/// The duration a flag's value names.
pub fn parse_duration(s: &str, flag: &str) -> (r: Result<Span, String>)
    ensures
        match r {
            Ok(d) => duration_of(s@, flag@) == Ok::<Span, Seq<char>>(d),
            Err(e) => duration_of(s@, flag@) == Err::<Span, Seq<char>>(e@),
        },
{
    match parse_humantime(s) {
        Ok(d) => Ok(d),
        Err(why) => {
            let mut e = String::new();
            push_all(&mut e, "invalid ");
            push_all(&mut e, flag);
            push_all(&mut e, " ");
            push_all(&mut e, debug_quoted(s).as_str());
            push_all(&mut e, ": ");
            push_all(&mut e, why.as_str());
            Err(e)
        },
    }
}

/// The first failing duration flag, in the order the manager reads them.
pub open spec fn config_error(args: Args) -> Option<Seq<char>> {
    match duration_of(args.housekeeping_interval@, "housekeeping_interval"@) {
        Err(e) => Some(e),
        Ok(_) => match duration_of(args.max_housekeeping_interval@, "max_housekeeping_interval"@) {
            Err(e) => Some(e),
            Ok(_) => match duration_of(args.global_housekeeping_interval@, "global_housekeeping_interval"@) {
                Err(e) => Some(e),
                Ok(_) => match duration_of(args.storage_duration@, "storage_duration"@) {
                    Err(e) => Some(e),
                    Ok(_) => None,
                },
            },
        },
    }
}

/// The manager settings of the flags: the four durations, dynamic
/// housekeeping, the version and the runtime endpoints; the cgroup root
/// is the unified mountpoint.
pub fn manager_config(args: &Args, cadvisor_version: &str) -> (r: Result<ManagerConfig, String>)
    ensures
        match r {
            Ok(c) => {
                &&& config_error(*args) is None
                &&& c.cgroup_root@ == crate::host::UNIFIED_MOUNTPOINT@
                &&& duration_of(args.housekeeping_interval@, "housekeeping_interval"@) == Ok::<Span, Seq<char>>(c.housekeeping_interval)
                &&& duration_of(args.max_housekeeping_interval@, "max_housekeeping_interval"@) == Ok::<Span, Seq<char>>(c.max_housekeeping_interval)
                &&& duration_of(args.global_housekeeping_interval@, "global_housekeeping_interval"@) == Ok::<Span, Seq<char>>(c.global_housekeeping_interval)
                &&& duration_of(args.storage_duration@, "storage_duration"@) == Ok::<Span, Seq<char>>(c.storage_duration)
                &&& c.allow_dynamic_housekeeping == args.allow_dynamic_housekeeping
                &&& c.cadvisor_version@ == cadvisor_version@
                &&& c.containerd_socket@ == args.containerd@
                &&& c.containerd_namespace@ == args.containerd_namespace@
                &&& c.crio_socket@ == args.crio@
            },
            Err(e) => config_error(*args) == Some(e@),
        },
{
    let hk = parse_duration(args.housekeeping_interval.as_str(), "housekeeping_interval");
    let hk = match hk {
        Ok(d) => d,
        Err(e) => {
            return Err(e);
        },
    };
    let max = match parse_duration(args.max_housekeeping_interval.as_str(), "max_housekeeping_interval") {
        Ok(d) => d,
        Err(e) => {
            return Err(e);
        },
    };
    let global = match parse_duration(args.global_housekeeping_interval.as_str(), "global_housekeeping_interval") {
        Ok(d) => d,
        Err(e) => {
            return Err(e);
        },
    };
    let storage = match parse_duration(args.storage_duration.as_str(), "storage_duration") {
        Ok(d) => d,
        Err(e) => {
            return Err(e);
        },
    };
    let mut c = ManagerConfig::default_config(cadvisor_version);
    c.housekeeping_interval = hk;
    c.max_housekeeping_interval = max;
    c.allow_dynamic_housekeeping = args.allow_dynamic_housekeeping;
    c.global_housekeeping_interval = global;
    c.storage_duration = storage;
    c.containerd_socket = args.containerd.clone();
    c.containerd_namespace = args.containerd_namespace.clone();
    c.crio_socket = args.crio.clone();
    Ok(c)
}

/// The address to listen on: the flag's IP (all interfaces when empty)
/// and port.
pub fn listen_addr(args: &Args) -> (r: String)
    ensures
        r@ == (if args.listen_ip@.len() == 0 { "0.0.0.0"@ } else { args.listen_ip@ }) + ":"@ + decimal(args.port as nat),
{
    let mut r = String::new();
    if args.listen_ip.as_str().is_empty() {
        push_all(&mut r, "0.0.0.0");
    } else {
        push_all(&mut r, args.listen_ip.as_str());
    }
    push_all(&mut r, ":");
    push_decimal(&mut r, args.port as u64);
    r
}

} // verus!
