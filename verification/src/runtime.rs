//! Container runtime metadata: container ids from cgroup names, the
//! runtime-agnostic metadata the manager enriches raw cgroups with, and the
//! lookup policy across CRI-O and containerd.

use vstd::prelude::*;

use crate::model::TextMap;
use crate::order::str_eq;
use crate::text::{chars_of, push_all, push_char, starts_with, string_of};

verus! {

/// Why a runtime lookup failed.
pub enum RuntimeError {
    NotFound,
    Unavailable(String),
    Other(String),
}

impl RuntimeError {
    /// The error's text.
    pub fn message(&self) -> (r: String)
        ensures
            r@ == match self {
                RuntimeError::NotFound => "container not found"@,
                RuntimeError::Unavailable(m) => "runtime unavailable: "@ + m@,
                RuntimeError::Other(m) => m@,
            },
    {
        let mut r = String::new();
        match self {
            RuntimeError::NotFound => push_all(&mut r, "container not found"),
            RuntimeError::Unavailable(m) => {
                push_all(&mut r, "runtime unavailable: ");
                push_all(&mut r, m.as_str());
            },
            RuntimeError::Other(m) => push_all(&mut r, m.as_str()),
        }
        r
    }
}

/// Runtime-agnostic container metadata.
pub struct ContainerMeta {
    pub id: String,
    /// Runtime namespace tag (`containerd` or `crio`).
    pub namespace: String,
    pub aliases: Vec<String>,
    pub image: String,
    pub labels: TextMap,
    pub init_pid: Option<u32>,
    /// Whether this container owns the pod network (sandbox/pause container).
    pub reports_network: bool,
    /// Writable-layer directory for filesystem usage accounting.
    pub rootfs_diff: Option<String>,
}

/// A lowercase hex digit.
pub open spec fn is_hex(c: char) -> bool {
    (48 <= c as u32 <= 57) || (97 <= c as u32 <= 102)
}

/// A maximal run of exactly 64 hex digits starts at `i`.
pub open spec fn is_run64(s: Seq<char>, i: int) -> bool {
    &&& 0 <= i
    &&& i + 64 <= s.len()
    &&& (i == 0 || !is_hex(s[i - 1]))
    &&& (i + 64 == s.len() || !is_hex(s[i + 64]))
    &&& forall|k: int| i <= k < i + 64 ==> is_hex(#[trigger] s[k])
}

/// The first such run at or after `i`, or -1.
pub open spec fn first_run64(s: Seq<char>, i: int) -> int
    decreases s.len() - i,
{
    if i < 0 || i + 64 > s.len() {
        -1
    } else if is_run64(s, i) {
        i
    } else {
        first_run64(s, i + 1)
    }
}

pub open spec fn ends_with_text(s: Seq<char>, p: Seq<char>) -> bool {
    p.len() <= s.len() && s.skip(s.len() - p.len()) == p
}

/// The 64-hex container id in a cgroup basename (`<id>`,
/// `cri-containerd-<id>.scope`, `crio-<id>.scope`, `libpod-<id>.scope`, ...):
/// the first run of exactly 64 lowercase hex digits; none for `.mount` units.
pub open spec fn container_id_spec(s: Seq<char>) -> Option<Seq<char>> {
    if ends_with_text(s, ".mount"@) {
        None
    } else {
        let i = first_run64(s, 0);
        if i >= 0 {
            Some(s.subrange(i, i + 64))
        } else {
            None
        }
    }
}

/// A basename that is exactly 64 characters, each a decimal digit or a
/// lowercase letter `a` to `f`, is its own container id.
pub proof fn lemma_hex_name_is_its_id(s: Seq<char>)
    requires
        s.len() == 64,
        forall|k: int| 0 <= k < 64 ==> ('0' <= #[trigger] s[k] <= '9') || ('a' <= s[k] <= 'f'),
    ensures
        container_id_spec(s) == Some(s),
{
    reveal_strlit(".mount");
    assert(s[63] != 't');
    assert(!ends_with_text(s, ".mount"@)) by {
        if ends_with_text(s, ".mount"@) {
            assert(s.skip(58)[5] == ".mount"@[5]);
        }
    }
    assert forall|k: int| 0 <= k < 0 + 64 implies is_hex(#[trigger] s[k]) by {
        assert(('0' <= s[k] <= '9') || ('a' <= s[k] <= 'f'));
    }
    assert(is_run64(s, 0));
    assert(first_run64(s, 0) == 0);
    assert(s.subrange(0, 64) =~= s);
}

fn hex(c: char) -> (b: bool)
    ensures
        b == is_hex(c),
{
    let u = c as u32;
    (48 <= u && u <= 57) || (97 <= u && u <= 102)
}

/// Extracts the container id from a cgroup basename.
pub fn extract_container_id(basename: &str) -> (r: Option<String>)
    ensures
        match container_id_spec(basename@) {
            Some(id) => r matches Some(x) && x@ == id,
            None => r is None,
        },
{
    let v = chars_of(basename);
    let n = v.len();
    proof {
        reveal_strlit(".mount");
    }
    // `.mount` units are never containers.
    if n >= 6 && v[n - 6] == '.' && v[n - 5] == 'm' && v[n - 4] == 'o' && v[n - 3] == 'u' && v[n - 2] == 'n' && v[n - 1] == 't' {
        assert(v@.skip(n - 6) =~= ".mount"@);
        return None;
    }
    proof {
        if ends_with_text(v@, ".mount"@) {
            assert(v@.skip(n - 6)[0] == v@[n - 6]);
            assert(v@.skip(n - 6)[1] == v@[n - 5]);
            assert(v@.skip(n - 6)[2] == v@[n - 4]);
            assert(v@.skip(n - 6)[3] == v@[n - 3]);
            assert(v@.skip(n - 6)[4] == v@[n - 2]);
            assert(v@.skip(n - 6)[5] == v@[n - 1]);
        }
    }
    if n < 64 {
        return None;
    }
    let mut i: usize = 0;
    while i <= n - 64
        invariant
            n == v@.len(),
            64 <= n,
            i <= n - 63,
            v@ == basename@,
            !ends_with_text(v@, ".mount"@),
            first_run64(v@, 0) == first_run64(v@, i as int),
        decreases n - i,
    {
        if run_at(&v, i) {
            return Some(string_of(&v, i, i + 64));
        }
        i += 1;
    }
    None
}

/// Whether a maximal run of exactly 64 hex digits starts at `i`.
fn run_at(v: &Vec<char>, i: usize) -> (b: bool)
    requires
        i + 64 <= v@.len(),
    ensures
        b == is_run64(v@, i as int),
{
    let n = v.len();
    let end = i + 64;
    if i > 0 && hex(v[i - 1]) {
        return false;
    }
    if end < n && hex(v[end]) {
        return false;
    }
    let mut k = i;
    while k < end
        invariant
            end == i + 64,
            i <= k <= i + 64 <= v@.len(),
            forall|m: int| i <= m < k ==> is_hex(#[trigger] v@[m]),
        decreases i + 64 - k,
    {
        if !hex(v[k]) {
            return false;
        }
        k += 1;
    }
    true
}

/// The label value for `k` (the first pair named `k`).
pub open spec fn label_of(l: Seq<(String, String)>, k: Seq<char>) -> Option<Seq<char>>
    decreases l.len(),
{
    if l.len() == 0 {
        None
    } else if l[0].0@ == k {
        Some(l[0].1@)
    } else {
        label_of(l.drop_first(), k)
    }
}

fn label_is(l: &Vec<(String, String)>, k: &str, v: &str) -> (b: bool)
    ensures
        b == (label_of(l@, k@) == Some(v@)),
{
    let mut i: usize = 0;
    assert(l@.skip(0) == l@);
    while i < l.len()
        invariant
            i <= l@.len(),
            label_of(l@, k@) == label_of(l@.skip(i as int), k@),
        decreases l.len() - i,
    {
        assert(l@.skip(i as int)[0] == l@[i as int]);
        if str_eq(l[i].0.as_str(), k) {
            return str_eq(l[i].1.as_str(), v);
        }
        assert(l@.skip(i as int).drop_first() == l@.skip(i + 1));
        i += 1;
    }
    false
}

/// A CRI-O metadata client over the CRI-O socket.
pub struct CrioClient {
    pub socket: String,
}

impl CrioClient {
    pub fn new(socket: &str) -> (c: CrioClient)
        ensures
            c.socket@ == socket@,
    {
        let mut s = String::new();
        push_all(&mut s, socket);
        CrioClient { socket: s }
    }
}

/// CRI-O's `GET /info` answer (the fields used).
pub struct CrioInfo {
    pub storage_driver: String,
    pub storage_root: String,
    pub cgroup_driver: String,
}

/// CRI-O's `GET /containers/<id>` answer (the fields used).
pub struct CrioContainerInfo {
    pub name: String,
    pub pid: u32,
    pub image: String,
    pub labels: TextMap,
    pub annotations: TextMap,
    pub root: String,
    pub ip_address: String,
    pub ip_addresses: Vec<String>,
}

/// The writable-layer directory of a CRI-O overlay root (`<base>/merged` ->
/// `<base>/diff`); the caller keeps it only if it is a directory.
pub open spec fn crio_diff_spec(root: Seq<char>) -> Option<Seq<char>> {
    if ends_with_text(root, "/merged"@) {
        Some(root.take(root.len() - 7) + "/diff"@)
    } else {
        None
    }
}

pub fn crio_diff_candidate(root: &str) -> (r: Option<String>)
    ensures
        match crio_diff_spec(root@) {
            Some(p) => r matches Some(x) && x@ == p,
            None => r is None,
        },
{
    let v = chars_of(root);
    let n = v.len();
    proof {
        reveal_strlit("/merged");
    }
    let suffix = chars_of("/merged");
    assert(suffix@.len() == 7);
    if n < 7 {
        return None;
    }
    let mut k: usize = 0;
    while k < 7
        invariant
            k <= 7 <= n == v@.len(),
            suffix@ == "/merged"@,
            suffix@.len() == 7,
            v@ == root@,
            forall|m: int| 0 <= m < k ==> v@[n - 7 + m] == suffix@[m],
        decreases 7 - k,
    {
        if v[n - 7 + k] != suffix[k] {
            assert(v@.skip(n - 7)[k as int] != "/merged"@[k as int]);
            return None;
        }
        k += 1;
    }
    assert(v@.skip(n - 7) =~= "/merged"@);
    let mut out = string_of(&v, 0, n - 7);
    push_all(&mut out, "/diff");
    Some(out)
}

fn copy_text(s: &String) -> (r: String)
    ensures
        r@ == s@,
{
    s.clone()
}

fn copy_map(m: &TextMap) -> (r: TextMap)
    ensures
        r@.len() == m@.len(),
        forall|i: int| 0 <= i < m@.len() ==> (#[trigger] r@[i]).0@ == m@[i].0@ && r@[i].1@ == m@[i].1@,
{
    let mut r: TextMap = Vec::new();
    let mut i: usize = 0;
    while i < m.len()
        invariant
            i <= m@.len(),
            r@.len() == i,
            forall|k: int| 0 <= k < i ==> (#[trigger] r@[k]).0@ == m@[k].0@ && r@[k].1@ == m@[k].1@,
        decreases m.len() - i,
    {
        r.push((m[i].0.clone(), m[i].1.clone()));
        i += 1;
    }
    r
}

/// CRI-O metadata of container `id`: aliased by its name (when it has one)
/// and its id, in the `crio` namespace; it owns the pod network when it is
/// the pod's `POD` container; its init PID when positive.
pub fn crio_meta(id: &str, info: &CrioContainerInfo, rootfs_diff: Option<String>) -> (m: ContainerMeta)
    ensures
        m.id@ == id@,
        m.namespace@ == "crio"@,
        m.aliases@.len() == (if info.name@.len() > 0 { 2int } else { 1int }),
        info.name@.len() > 0 ==> m.aliases@[0]@ == info.name@,
        m.aliases@[m.aliases@.len() - 1]@ == id@,
        m.image@ == info.image@,
        m.labels@.len() == info.labels@.len(),
        forall|i: int| 0 <= i < info.labels@.len() ==> (#[trigger] m.labels@[i]).0@ == info.labels@[i].0@ && m.labels@[i].1@ == info.labels@[i].1@,
        m.init_pid == (if info.pid > 0 { Some(info.pid) } else { None }),
        m.reports_network == (label_of(info.labels@, "io.kubernetes.container.name"@) == Some("POD"@)),
        m.rootfs_diff == rootfs_diff,
{
    let reports_network = label_is(&info.labels, "io.kubernetes.container.name", "POD");
    let mut aliases: Vec<String> = Vec::new();
    if !info.name.as_str().is_empty() {
        aliases.push(copy_text(&info.name));
    }
    let mut idt = String::new();
    push_all(&mut idt, id);
    aliases.push(copy_text(&idt));
    let mut ns = String::new();
    push_all(&mut ns, "crio");
    ContainerMeta {
        id: idt,
        namespace: ns,
        aliases,
        image: copy_text(&info.image),
        labels: copy_map(&info.labels),
        init_pid: if info.pid > 0 {
            Some(info.pid)
        } else {
            None
        },
        reports_network,
        rootfs_diff,
    }
}

/// containerd metadata of container `id`: aliased by its id alone, in the
/// `containerd` namespace; it owns the pod network when it is a sandbox; no
/// writable-layer accounting.
pub fn containerd_meta(id: &str, image: String, labels: TextMap, init_pid: Option<u32>) -> (m: ContainerMeta)
    ensures
        m.id@ == id@,
        m.namespace@ == "containerd"@,
        m.aliases@.len() == 1,
        m.aliases@[0]@ == id@,
        m.image@ == image@,
        m.labels == labels,
        m.init_pid == init_pid,
        m.reports_network == (label_of(labels@, "io.cri-containerd.kind"@) == Some("sandbox"@)),
        m.rootfs_diff is None,
{
    let reports_network = label_is(&labels, "io.cri-containerd.kind", "sandbox");
    let mut idt = String::new();
    push_all(&mut idt, id);
    let mut aliases: Vec<String> = Vec::new();
    aliases.push(copy_text(&idt));
    let mut ns = String::new();
    push_all(&mut ns, "containerd");
    ContainerMeta { id: idt, namespace: ns, aliases, image, labels, init_pid, reports_network, rootfs_diff: None }
}

/// Which runtime to ask about a cgroup: none for CRI-O's conmon shims or a
/// basename without a container id; otherwise the id, and whether CRI-O
/// (basename `crio-*`) or containerd owns it.
pub open spec fn lookup_plan_spec(basename: Seq<char>) -> Option<(Seq<char>, bool)> {
    if starts_with(basename, "crio-conmon-"@) {
        None
    } else {
        match container_id_spec(basename) {
            Some(id) => Some((id, starts_with(basename, "crio-"@))),
            None => None,
        }
    }
}

pub fn lookup_plan(basename: &str) -> (r: Option<(String, bool)>)
    ensures
        match lookup_plan_spec(basename@) {
            Some((id, crio)) => r matches Some((x, c)) && x@ == id && c == crio,
            None => r is None,
        },
{
    let v = chars_of(basename);
    if crate::machine::text_starts_with(&v, "crio-conmon-") {
        return None;
    }
    match extract_container_id(basename) {
        Some(id) => Some((id, crate::machine::text_starts_with(&v, "crio-"))),
        None => None,
    }
}

/// What one runtime lookup came back with.
#[derive(Debug, Clone, Copy, PartialEq, Eq, Structural)]
pub enum Lookup {
    Found,
    NotFound,
    Failed,
    /// The runtime is not there (no CRI-O socket, no containerd client).
    Unavailable,
}

/// Whether to ask again after a lookup: CRI-O is asked again while it does
/// not know the container yet, containerd while the call fails; anything
/// else ends the lookup.
pub open spec fn retry_spec(crio: bool, outcome: Lookup) -> bool {
    if crio {
        outcome == Lookup::NotFound
    } else {
        outcome == Lookup::Failed
    }
}

/// Lookups are tried at most this many times.
pub const LOOKUP_ATTEMPTS: u32 = 3;

pub fn should_retry(crio: bool, outcome: Lookup) -> (b: bool)
    ensures
        b == retry_spec(crio, outcome),
{
    if crio {
        outcome == Lookup::NotFound
    } else {
        outcome == Lookup::Failed
    }
}

/// The pause before attempt `attempt` (1 or 2), in milliseconds: 100
/// doubled per attempt.
pub fn retry_delay_ms(attempt: u32) -> (ms: u64)
    requires
        1 <= attempt < LOOKUP_ATTEMPTS,
    ensures
        ms == (if attempt == 1 { 200u64 } else { 400u64 }),
{
    if attempt == 1 {
        200
    } else {
        400
    }
}

} // verus!
