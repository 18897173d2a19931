//! REST API request handling: query parameters, URL decoding, request
//! options, path dispatch and request routing, and derived statistics.

use vstd::prelude::*;
use vstd::utf8::{decode_utf8, encode_utf8, valid_utf8};

use crate::metrics::{labels_view, LabelsV};
use crate::host::trim_slash_start;
use crate::manager::{runtime_match, runtime_match_spec, subtree, subtree_names, text_lt};
use crate::model::{ContainerReference, GoTime};
use crate::order::{sort_by, str_eq};
use crate::text::{chars_of, find_char, find_char_in, parse_i64_checked, parse_int, push_all, push_char, split_on, split_ranges, string_of, IntError};

verus! {

broadcast use vstd::std_specs::vec::group_vec_axioms;

// ---------------------------------------------------------------------------
// URL decoding
// ---------------------------------------------------------------------------

/// Value of an ASCII hex digit, 16 otherwise.
pub open spec fn hex_digit(b: u8) -> int {
    if 48 <= b <= 57 {
        b - 48
    } else if 97 <= b <= 102 {
        b - 87
    } else if 65 <= b <= 70 {
        b - 55
    } else {
        16
    }
}

/// The byte a `%` escape's two following bytes name: two hex digits, or a
/// `+` and one hex digit (`u8::from_str_radix` accepts a leading `+`).
pub open spec fn escape_value(b1: u8, b2: u8) -> Option<u8> {
    if hex_digit(b1) < 16 && hex_digit(b2) < 16 {
        Some((hex_digit(b1) * 16 + hex_digit(b2)) as u8)
    } else if b1 == 43 && hex_digit(b2) < 16 {
        Some(hex_digit(b2) as u8)
    } else {
        None
    }
}

/// Percent-decoding of query bytes: a `%` with two following bytes that
/// name a byte becomes that byte, `+` becomes a space, and everything else
/// stays.
pub open spec fn url_bytes(b: Seq<u8>) -> Seq<u8>
    decreases b.len(),
{
    if b.len() == 0 {
        Seq::empty()
    } else if b[0] == 37 && 2 < b.len() && escape_value(b[1], b[2]) is Some {
        seq![escape_value(b[1], b[2])->0] + url_bytes(b.skip(3))
    } else if b[0] == 43 {
        seq![32u8] + url_bytes(b.skip(1))
    } else {
        seq![b[0]] + url_bytes(b.skip(1))
    }
}

/// What `String::from_utf8_lossy` makes of bytes.
pub uninterp spec fn lossy_text(b: Seq<u8>) -> Seq<char>;

/// `String::from_utf8_lossy`: valid UTF-8 decodes as it is; each invalid
/// sequence becomes U+FFFD (that replacement is not spelled out here).
#[verifier::external_body]
fn utf8_lossy(b: &Vec<u8>) -> (s: String)
    ensures
        s@ == lossy_text(b@),
        valid_utf8(b@) ==> s@ == decode_utf8(b@),
{
    String::from_utf8_lossy(b.as_slice()).into_owned()
}

fn hex_value(b: u8) -> (r: u8)
    ensures
        r == hex_digit(b),
{
    if 48 <= b && b <= 57 {
        b - 48
    } else if 97 <= b && b <= 102 {
        b - 87
    } else if 65 <= b && b <= 70 {
        b - 55
    } else {
        16
    }
}

/// Decodes a query component: `%XX` escapes and `+` for space, then the
/// bytes as UTF-8 (lossily).
pub fn url_decode(s: &str) -> (r: String)
    ensures
        r@ == lossy_text(url_bytes(encode_utf8(s@))),
{
    let bytes = s.as_bytes();
    let ghost b = bytes@;
    let mut out: Vec<u8> = Vec::new();
    let mut i: usize = 0;
    assert(b.skip(0) == b);
    while i < bytes.len()
        invariant
            i <= b.len(),
            b == bytes@,
            b == encode_utf8(s@),
            out@ + url_bytes(b.skip(i as int)) == url_bytes(b),
        decreases b.len() - i,
    {
        let ghost rest = b.skip(i as int);
        assert(rest[0] == b[i as int]);
        let c = bytes[i];
        if c == 37 && 2 < bytes.len() - i {
            let h1 = hex_value(bytes[i + 1]);
            let h2 = hex_value(bytes[i + 2]);
            assert(rest[1] == b[i + 1] && rest[2] == b[i + 2]);
            if h1 < 16 && h2 < 16 {
                out.push(h1 * 16 + h2);
                assert(rest.skip(3) == b.skip(i + 3));
                assert(out@ + url_bytes(b.skip(i + 3)) =~= url_bytes(b));
                i += 3;
                continue;
            } else if bytes[i + 1] == 43 && h2 < 16 {
                out.push(h2);
                assert(rest.skip(3) == b.skip(i + 3));
                assert(out@ + url_bytes(b.skip(i + 3)) =~= url_bytes(b));
                i += 3;
                continue;
            }
        }
        if c == 43 {
            out.push(32);
        } else {
            out.push(c);
        }
        assert(rest.skip(1) == b.skip(i + 1));
        assert(out@ + url_bytes(b.skip(i + 1)) =~= url_bytes(b));
        i += 1;
    }
    assert(b.skip(b.len() as int) =~= Seq::<u8>::empty());
    assert(out@ =~= url_bytes(b));
    utf8_lossy(&out)
}

// ---------------------------------------------------------------------------
// Query parameters
// ---------------------------------------------------------------------------

/// A decoded query component.
pub open spec fn url_text(s: Seq<char>) -> Seq<char> {
    lossy_text(url_bytes(encode_utf8(s)))
}

/// One `k=v` piece of a query (`=` missing: the whole piece is the key).
pub open spec fn query_pair(p: Seq<char>) -> (Seq<char>, Seq<char>) {
    let e = find_char(p, '=');
    if e >= 0 {
        (url_text(p.take(e)), url_text(p.skip(e + 1)))
    } else {
        (url_text(p), url_text(Seq::empty()))
    }
}

/// The decoded pairs of a raw query string, in order.
pub open spec fn query_pairs(raw: Seq<char>) -> LabelsV {
    Seq::new(split_on(raw, '&').len(), |i: int| query_pair(split_on(raw, '&')[i]))
}

/// The value of the first parameter named `k`.
pub open spec fn param_get(pairs: LabelsV, k: Seq<char>) -> Option<Seq<char>>
    decreases pairs.len(),
{
    if pairs.len() == 0 {
        None
    } else if pairs[0].0 == k {
        Some(pairs[0].1)
    } else {
        param_get(pairs.drop_first(), k)
    }
}

/// Query parameters, decoded, in order; lookups take the first of a name.
pub struct Params(pub Vec<(String, String)>);

/// When a named instant was given: what RFC 3339 text denotes, if valid.
pub uninterp spec fn rfc3339(s: Seq<char>) -> Option<GoTime>;

/// `chrono::DateTime::parse_from_rfc3339`, taken to UTC: the instant the
/// text denotes, when it is valid RFC 3339 (which text is valid and which
/// instant it denotes is chrono's and is named, not spelled out).
#[verifier::external_body]
fn parse_rfc3339(s: &str) -> (r: Option<GoTime>)
    ensures
        r == rfc3339(s@),
{
    match chrono::DateTime::parse_from_rfc3339(s) {
        Ok(dt) => Some(GoTime { secs: dt.timestamp(), nanos: dt.timestamp_subsec_nanos() }),
        Err(_) => None,
    }
}

impl Params {
    pub open spec fn pairs(&self) -> LabelsV {
        labels_view(self.0@)
    }

    /// Parses a raw query string (absent: no parameters).
    pub fn parse(raw: &Option<String>) -> (p: Params)
        ensures
            p.pairs() == match raw {
                Some(r) => query_pairs(r@),
                None => Seq::empty(),
            },
    {
        let mut out: Vec<(String, String)> = Vec::new();
        match raw {
            None => {
                assert(labels_view(out@) =~= Seq::<(Seq<char>, Seq<char>)>::empty());
            },
            Some(r) => {
                let v = chars_of(r.as_str());
                let pieces = split_ranges(&v, 0, v.len(), '&');
                assert(v@.subrange(0, v@.len() as int) == v@);
                let ghost sp = split_on(v@, '&');
                let mut i: usize = 0;
                while i < pieces.len()
                    invariant
                        i <= pieces@.len(),
                        v@ == r@,
                        sp == split_on(v@, '&'),
                        pieces@.len() == sp.len(),
                        forall|j: int| 0 <= j < pieces@.len() ==> 0 <= #[trigger] pieces@[j].0 <= pieces@[j].1 <= v@.len(),
                        forall|j: int| 0 <= j < pieces@.len() ==> #[trigger] v@.subrange(pieces@[j].0 as int, pieces@[j].1 as int) == sp[j],
                        out@.len() == i,
                        forall|m: int| 0 <= m < i ==> #[trigger] labels_view(out@)[m] == query_pair(sp[m]),
                    decreases pieces.len() - i,
                {
                    let (lo, hi) = pieces[i];
                    let ghost piece = v@.subrange(lo as int, hi as int);
                    assert(piece == sp[i as int]);
                    let k: String;
                    let x: String;
                    match find_char_in(&v, lo, hi, '=') {
                        Some(e) => {
                            assert(piece.take(e - lo) == v@.subrange(lo as int, e as int));
                            assert(piece.skip(e - lo + 1) == v@.subrange(e + 1, hi as int));
                            k = url_decode(string_of(&v, lo, e).as_str());
                            x = url_decode(string_of(&v, e + 1, hi).as_str());
                        },
                        None => {
                            k = url_decode(string_of(&v, lo, hi).as_str());
                            let empty = String::new();
                            x = url_decode(empty.as_str());
                        },
                    }
                    assert((k@, x@) == query_pair(piece));
                    let ghost before = out@;
                    out.push((k, x));
                    assert(out@[i as int] == (k, x));
                    assert forall|m: int| 0 <= m < i + 1 implies #[trigger] labels_view(out@)[m] == query_pair(sp[m]) by {
                        if m < i {
                            assert(labels_view(out@)[m] == labels_view(before)[m]);
                        }
                    }
                    i += 1;
                }
                assert(labels_view(out@) =~= query_pairs(r@));
            },
        }
        Params(out)
    }

    /// The value of the first parameter named `key`.
    pub fn get(&self, key: &str) -> (r: Option<&str>)
        ensures
            r matches Some(v) ==> param_get(self.pairs(), key@) == Some(v@),
            r is None ==> param_get(self.pairs(), key@) is None,
    {
        let ghost ps = self.pairs();
        let mut i: usize = 0;
        assert(ps.skip(0) == ps);
        while i < self.0.len()
            invariant
                i <= self.0@.len(),
                ps == self.pairs(),
                param_get(ps, key@) == param_get(ps.skip(i as int), key@),
            decreases self.0.len() - i,
        {
            assert(ps.skip(i as int)[0] == ps[i as int]);
            if str_eq(self.0[i].0.as_str(), key) {
                return Some(self.0[i].1.as_str());
            }
            assert(ps.skip(i as int).drop_first() == ps.skip(i + 1));
            i += 1;
        }
        None
    }

    /// Whether the parameter is `true`.
    pub fn get_bool(&self, key: &str) -> (b: bool)
        ensures
            b == (param_get(self.pairs(), key@) == Some("true"@)),
    {
        match self.get(key) {
            Some(v) => str_eq(v, "true"),
            None => false,
        }
    }

    /// The parameter as an RFC 3339 instant; Go's zero time when absent or
    /// not valid.
    pub fn get_time(&self, key: &str) -> (t: GoTime)
        ensures
            t == match param_get(self.pairs(), key@) {
                Some(v) => match rfc3339(v) {
                    Some(x) => x,
                    None => GoTime { secs: crate::model::GO_ZERO_SECS, nanos: 0 },
                },
                None => GoTime { secs: crate::model::GO_ZERO_SECS, nanos: 0 },
            },
    {
        match self.get(key) {
            Some(v) => match parse_rfc3339(v) {
                Some(x) => x,
                None => GoTime::zero(),
            },
            None => GoTime::zero(),
        }
    }
}

// ---------------------------------------------------------------------------
// Request options
// ---------------------------------------------------------------------------

/// The text `{:?}` writes for a string: quoted, with escapes.
pub uninterp spec fn debug_text(s: Seq<char>) -> Seq<char>;

/// `format!("{:?}", s)` (the quoting and escaping are std's `Debug` for
/// `str`; named, not spelled out).
#[verifier::external_body]
pub(crate) fn debug_quoted(s: &str) -> (r: String)
    ensures
        r@ == debug_text(s@),
{
    format!("{:?}", s)
}

/// The query's `type`, `count` and `recursive` options.
pub struct RequestOptions {
    pub id_type: String,
    pub count: i64,
    pub recursive: bool,
}

pub open spec fn type_known(t: Seq<char>) -> bool {
    t == "name"@ || t == "docker"@ || t == "podman"@
}

/// The id type a query asks for (`name` by default).
pub open spec fn id_type_of(ps: LabelsV) -> Seq<char> {
    match param_get(ps, "type"@) {
        Some(v) => v,
        None => "name"@,
    }
}

/// Why parsing the options fails, if it does.
pub open spec fn options_error(ps: LabelsV) -> Option<Seq<char>> {
    let t = id_type_of(ps);
    if !type_known(t) {
        Some("unknown 'type' "@ + debug_text(t))
    } else {
        match param_get(ps, "count"@) {
            Some(c) => match parse_int(c, i64::MIN as int, i64::MAX as int) {
                Err(e) => Some("invalid 'count' option: "@ + e.message()),
                Ok(_) => None,
            },
            None => None,
        }
    }
}

/// The sample count a query asks for (64 by default).
pub open spec fn count_of(ps: LabelsV) -> int {
    match param_get(ps, "count"@) {
        Some(c) => match parse_int(c, i64::MIN as int, i64::MAX as int) {
            Ok(n) => n,
            Err(_) => 0,
        },
        None => 64,
    }
}

impl RequestOptions {
    /// Parses `type` (name, docker or podman; default name), `count`
    /// (default 64) and `recursive` (default false).
    pub fn parse(params: &Params) -> (r: Result<RequestOptions, String>)
        ensures
            match r {
                Ok(o) => {
                    &&& options_error(params.pairs()) is None
                    &&& o.id_type@ == id_type_of(params.pairs())
                    &&& o.count == count_of(params.pairs())
                    &&& o.recursive == (param_get(params.pairs(), "recursive"@) == Some("true"@))
                },
                Err(e) => options_error(params.pairs()) == Some(e@),
            },
    {
        let id_type = match params.get("type") {
            Some(v) => {
                let mut t = String::new();
                push_all(&mut t, v);
                t
            },
            None => {
                let mut t = String::new();
                push_all(&mut t, "name");
                t
            },
        };
        if !(str_eq(id_type.as_str(), "name") || str_eq(id_type.as_str(), "docker") || str_eq(id_type.as_str(), "podman")) {
            let mut e = String::new();
            push_all(&mut e, "unknown 'type' ");
            push_all(&mut e, debug_quoted(id_type.as_str()).as_str());
            return Err(e);
        }
        let count: i64 = match params.get("count") {
            Some(v) => {
                let cs = chars_of(v);
                assert(cs@.subrange(0, cs@.len() as int) == cs@);
                match parse_i64_checked(&cs, 0, cs.len()) {
                    Ok(n) => n,
                    Err(err) => {
                        let mut e = String::new();
                        push_all(&mut e, "invalid 'count' option: ");
                        push_all(&mut e, err.text());
                        return Err(e);
                    },
                }
            },
            None => 64,
        };
        let recursive = params.get_bool("recursive");
        Ok(RequestOptions { id_type, count, recursive })
    }
}

// ---------------------------------------------------------------------------
// Resolving the queried containers
// ---------------------------------------------------------------------------

/// The containers a runtime-id query finds: those with runtime metadata
/// whose id starts with `id` or that have `id` as an alias (all of them
/// for an empty `id`), in order.
pub open spec fn runtime_found(names: Seq<Seq<char>>, refs: Seq<ContainerReference>, id: Seq<char>) -> Seq<Seq<char>>
    decreases names.len(),
{
    if names.len() == 0 || refs.len() < names.len() {
        Seq::empty()
    } else {
        let n = names.len() - 1;
        runtime_found(names.drop_last(), refs.take(n), id) + if runtime_match_spec(refs[n], id) {
            seq![names.last()]
        } else {
            Seq::<Seq<char>>::empty()
        }
    }
}

/// The containers a query selects, by name, or why it fails: by name, the
/// container (with its whole subtree, sorted, when recursive); by runtime
/// id (`docker` or `podman`), the matches of the name without its leading
/// slashes.
pub open spec fn resolved(names: Seq<Seq<char>>, refs: Seq<ContainerReference>, name: Seq<char>, id_type: Seq<char>, recursive: bool) -> Result<Seq<Seq<char>>, Seq<char>> {
    if id_type != "name"@ {
        let found = runtime_found(names, refs, trim_slash_start(name));
        if found.len() == 0 && trim_slash_start(name).len() > 0 {
            Err("unable to find container "@ + debug_text(name))
        } else {
            Ok(found)
        }
    } else if !names.contains(name) {
        Err("unknown container "@ + debug_text(name))
    } else if !recursive {
        Ok(seq![name])
    } else {
        Ok(sort_by(subtree_names(names, name), text_lt()))
    }
}

/// The name without its leading slashes: the id a runtime lookup takes.
pub fn strip_slashes(name: &str) -> (r: String)
    ensures
        r@ == trim_slash_start(name@),
{
    let v = chars_of(name);
    let mut a: usize = 0;
    assert(v@.skip(0) == v@);
    while a < v.len() && v[a] == '/'
        invariant
            a <= v@.len(),
            trim_slash_start(v@) == trim_slash_start(v@.skip(a as int)),
        decreases v.len() - a,
    {
        assert(v@.skip(a as int).drop_first() == v@.skip(a + 1));
        a += 1;
    }
    proof {
        if a < v@.len() {
            assert(v@.skip(a as int)[0] == v@[a as int]);
        }
    }
    string_of(&v, a, v.len())
}

/// The names of the containers a v2 query selects. `names[i]` is a known
/// container and `refs[i]` its reference.
pub fn resolve(names: &Vec<String>, refs: &Vec<ContainerReference>, name: &str, opts: &RequestOptions) -> (r: Result<Vec<String>, String>)
    requires
        refs@.len() == names@.len(),
    ensures
        match r {
            Ok(v) => resolved(names@.map_values(|s: String| s@), refs@, name@, opts.id_type@, opts.recursive) == Ok::<Seq<Seq<char>>, Seq<char>>(v@.map_values(|s: String| s@)),
            Err(e) => resolved(names@.map_values(|s: String| s@), refs@, name@, opts.id_type@, opts.recursive) == Err::<Seq<Seq<char>>, Seq<char>>(e@),
        },
{
    let ghost nv = names@.map_values(|s: String| s@);
    if !str_eq(opts.id_type.as_str(), "name") {
        let id = strip_slashes(name);
        let mut found: Vec<String> = Vec::new();
        let mut i: usize = 0;
        while i < names.len()
            invariant
                i <= names@.len() == refs@.len(),
                nv == names@.map_values(|s: String| s@),
                id@ == trim_slash_start(name@),
                found@.map_values(|s: String| s@) == runtime_found(nv.take(i as int), refs@.take(i as int), id@),
            decreases names.len() - i,
        {
            assert(nv.take(i + 1).drop_last() =~= nv.take(i as int));
            assert(refs@.take(i + 1).take(i as int) =~= refs@.take(i as int));
            let ghost before = found@;
            if runtime_match(&refs[i], id.as_str()) {
                found.push(names[i].clone());
                assert(found@.map_values(|s: String| s@) =~= before.map_values(|s: String| s@).push(names@[i as int]@));
            }
            i += 1;
        }
        assert(nv.take(names@.len() as int) =~= nv);
        assert(refs@.take(names@.len() as int) =~= refs@);
        if found.len() == 0 && !id.as_str().is_empty() {
            let mut e = String::new();
            push_all(&mut e, "unable to find container ");
            push_all(&mut e, debug_quoted(name).as_str());
            return Err(e);
        }
        return Ok(found);
    }
    if !crate::metrics::contains_str(names, name) {
        proof {
            if nv.contains(name@) {
                let k = choose|k: int| 0 <= k < nv.len() && nv[k] == name@;
                assert(names@[k]@ == name@);
            }
        }
        let mut e = String::new();
        push_all(&mut e, "unknown container ");
        push_all(&mut e, debug_quoted(name).as_str());
        return Err(e);
    }
    proof {
        let k = choose|k: int| 0 <= k < names@.len() && #[trigger] names@[k]@ == name@;
        assert(nv[k] == name@);
    }
    if !opts.recursive {
        let mut one: Vec<String> = Vec::new();
        let mut t = String::new();
        push_all(&mut t, name);
        one.push(t);
        assert(one@.map_values(|s: String| s@) =~= seq![name@]);
        return Ok(one);
    }
    Ok(subtree(names, name))
}

// ---------------------------------------------------------------------------
// Percentiles
// ---------------------------------------------------------------------------

#[derive(Debug, Clone, Copy, PartialEq, Eq, Default)]
pub struct Percentiles {
    pub present: bool,
    pub mean: u64,
    pub max: u64,
    pub fifty: u64,
    pub ninety: u64,
    pub ninety_five: u64,
}

pub open spec fn sum_of(s: Seq<u64>) -> int
    decreases s.len(),
{
    if s.len() == 0 {
        0
    } else {
        sum_of(s.drop_last()) + s.last()
    }
}

/// Orders numbers ascending.
pub open spec fn num_order() -> spec_fn(u64, u64) -> bool {
    |a: u64, b: u64| a < b
}

/// Mean, maximum and the 50th, 90th and 95th percentiles (nearest rank
/// below, `floor((n - 1) * p)` of the values in ascending order).
pub open spec fn percentiles_spec(values: Seq<u64>) -> Percentiles {
    if values.len() == 0 {
        Percentiles { present: false, mean: 0, max: 0, fifty: 0, ninety: 0, ninety_five: 0 }
    } else {
        let s = sort_by(values, num_order());
        let n = values.len() as int;
        Percentiles {
            present: true,
            mean: (sum_of(values) / n) as u64,
            max: s[n - 1],
            fifty: s[(n - 1) * 50 / 100],
            ninety: s[(n - 1) * 90 / 100],
            ninety_five: s[(n - 1) * 95 / 100],
        }
    }
}

/// Sorts numbers ascending.
fn sort_numbers(v: &Vec<u64>) -> (r: Vec<u64>)
    ensures
        r@ == sort_by(v@, num_order()),
{
    let mut out: Vec<u64> = Vec::new();
    let mut i: usize = 0;
    while i < v.len()
        invariant
            i <= v@.len(),
            out@ == sort_by(v@.take(i as int), num_order()),
        decreases v.len() - i,
    {
        let x = v[i];
        let mut j: usize = 0;
        while j < out.len() && !(x < out[j])
            invariant
                j <= out@.len(),
                forall|m: int| 0 <= m < j ==> !(num_order())(x, #[trigger] out@[m]),
            decreases out.len() - j,
        {
            j += 1;
        }
        proof {
            assert(v@.take(i + 1).drop_last() == v@.take(i as int));
            crate::order::lemma_ins_by_at(out@, x, num_order(), j as int);
        }
        out.insert(j, x);
        i += 1;
    }
    assert(v@.take(v@.len() as int) == v@);
    out
}

/// The percentiles of a set of values. (The float index arithmetic this
/// mirrors is exact for up to 2^40 values.)
pub fn percentiles_from(values: Vec<u64>) -> (p: Percentiles)
    requires
        values@.len() <= 0x100_0000_0000,
        sum_of(values@) <= u64::MAX,
    ensures
        p == percentiles_spec(values@),
{
    let n = values.len();
    if n == 0 {
        return Percentiles { present: false, mean: 0, max: 0, fifty: 0, ninety: 0, ninety_five: 0 };
    }
    let s = sort_numbers(&values);
    proof {
        crate::order::lemma_sort_by_len(values@, num_order());
    }
    let mut total: u64 = 0;
    let mut i: usize = 0;
    while i < n
        invariant
            i <= n == values@.len(),
            total == sum_of(values@.take(i as int)),
            sum_of(values@) <= u64::MAX,
        decreases n - i,
    {
        assert(values@.take(i + 1).drop_last() == values@.take(i as int));
        proof {
            lemma_sum_prefix(values@, i + 1);
        }
        total = total + values[i];
        i += 1;
    }
    assert(values@.take(n as int) == values@);
    let m = n - 1;
    let w = m as u64;
    let i50 = (w * 50 / 100) as usize;
    let i90 = (w * 90 / 100) as usize;
    let i95 = (w * 95 / 100) as usize;
    Percentiles {
        present: true,
        mean: total / (n as u64),
        max: s[m],
        fifty: s[i50],
        ninety: s[i90],
        ninety_five: s[i95],
    }
}

proof fn lemma_sum_bound(s: Seq<u64>, m: u64)
    requires
        forall|i: int| 0 <= i < s.len() ==> s[i] <= m,
    ensures
        0 <= sum_of(s) <= s.len() * m,
    decreases s.len(),
{
    if s.len() > 0 {
        lemma_sum_bound(s.drop_last(), m);
        assert(sum_of(s) == sum_of(s.drop_last()) + s.last());
        assert((s.len() - 1) * m + m == s.len() * m) by (nonlinear_arith);
    }
}

/// The percentiles of a set of values are in order, and the maximum is one
/// of the values and at least every value and the mean; without values
/// nothing is present.
pub proof fn lemma_percentiles_ordered(values: Seq<u64>)
    ensures
        percentiles_spec(values).present <==> values.len() > 0,
        percentiles_spec(values).fifty <= percentiles_spec(values).ninety,
        percentiles_spec(values).ninety <= percentiles_spec(values).ninety_five,
        percentiles_spec(values).ninety_five <= percentiles_spec(values).max,
        percentiles_spec(values).mean <= percentiles_spec(values).max,
        values.len() > 0 ==> values.contains(percentiles_spec(values).max),
        forall|i: int| 0 <= i < values.len() ==> values[i] <= percentiles_spec(values).max,
{
    if values.len() > 0 {
        let s = sort_by(values, num_order());
        let n = values.len() as int;
        crate::order::lemma_sort_by_len(values, num_order());
        assert(crate::order::strict_order(num_order()));
        crate::order::lemma_sort_by_sorted(values, num_order());
        assert forall|i: int, j: int| 0 <= i <= j < n implies s[i] <= s[j] by {
            if i < j {
                assert(!(num_order())(s[j], s[i]));
            }
        }
        let a = (n - 1) * 50 / 100;
        let b = (n - 1) * 90 / 100;
        let c = (n - 1) * 95 / 100;
        assert(0 <= a <= b <= c <= n - 1) by (nonlinear_arith)
            requires
                n >= 1,
                a == (n - 1) * 50 / 100,
                b == (n - 1) * 90 / 100,
                c == (n - 1) * 95 / 100,
        ;
        let mx = s[n - 1];
        assert forall|i: int| 0 <= i < n implies values[i] <= mx by {
            assert(values.to_multiset().count(values[i]) > 0) by {
                broadcast use vstd::seq_lib::group_seq_properties;
            }
            assert(s.to_multiset().count(values[i]) > 0);
            assert(s.contains(values[i])) by {
                broadcast use vstd::seq_lib::group_seq_properties;
            }
            let k = choose|k: int| 0 <= k < s.len() && s[k] == values[i];
        }
        assert(values.contains(mx)) by {
            assert(s.to_multiset().count(mx) > 0) by {
                assert(s.contains(mx));
                broadcast use vstd::seq_lib::group_seq_properties;
            }
            assert(values.to_multiset().count(mx) > 0);
            broadcast use vstd::seq_lib::group_seq_properties;
        }
        lemma_sum_bound(values, mx);
        let sum = sum_of(values);
        assert(sum / n <= mx) by (nonlinear_arith)
            requires
                n >= 1,
                0 <= sum <= n * mx,
        ;
    }
}

/// The mean of a non-empty set of values is their sum divided by their
/// count, rounded down: `mean * n <= sum < (mean + 1) * n`.
pub proof fn lemma_percentiles_mean(values: Seq<u64>)
    requires
        values.len() > 0,
    ensures
        percentiles_spec(values).mean * values.len() <= sum_of(values),
        sum_of(values) < (percentiles_spec(values).mean + 1) * values.len(),
{
    let n = values.len() as int;
    lemma_sum_bound(values, u64::MAX);
    let sum = sum_of(values);
    let q = sum / n;
    assert(0 <= q <= u64::MAX && q * n <= sum < (q + 1) * n) by (nonlinear_arith)
        requires
            n >= 1,
            0 <= sum <= n * u64::MAX,
            q == sum / n,
    ;
    assert(percentiles_spec(values).mean == q);
}

/// A prefix sums to no more than the whole.
proof fn lemma_sum_prefix(s: Seq<u64>, k: int)
    requires
        0 <= k <= s.len(),
    ensures
        sum_of(s.take(k)) <= sum_of(s),
    decreases s.len(),
{
    if k < s.len() {
        lemma_sum_prefix(s.drop_last(), k);
        assert(s.drop_last().take(k) == s.take(k));
    } else {
        assert(s.take(k) == s);
    }
}

// ---------------------------------------------------------------------------
// Path dispatch and routing
// ---------------------------------------------------------------------------

/// Pieces joined with `/`.
pub open spec fn join_slash(parts: Seq<Seq<char>>) -> Seq<char>
    decreases parts.len(),
{
    if parts.len() == 0 {
        Seq::empty()
    } else if parts.len() == 1 {
        parts[0]
    } else {
        join_slash(parts.drop_last()) + seq!['/'] + parts.last()
    }
}

/// The text without its trailing `/`s.
pub open spec fn trim_slashes_end(s: Seq<char>) -> Seq<char>
    decreases s.len(),
{
    if s.len() > 0 && s.last() == '/' {
        trim_slashes_end(s.drop_last())
    } else {
        s
    }
}

/// The absolute container name the path arguments spell (`/` for none).
pub open spec fn container_name_of(args: Seq<Seq<char>>) -> Seq<char> {
    if args.len() == 0 || (args.len() == 1 && args[0].len() == 0) {
        seq!['/']
    } else {
        let t = trim_slashes_end(seq!['/'] + join_slash(args));
        if t.len() == 0 {
            seq!['/']
        } else {
            t
        }
    }
}

proof fn lemma_trim_slashes_end(s: Seq<char>)
    ensures
        trim_slashes_end(s).len() <= s.len(),
        forall|i: int| 0 <= i < trim_slashes_end(s).len() ==> #[trigger] trim_slashes_end(s)[i] == s[i],
        trim_slashes_end(s).len() > 0 ==> trim_slashes_end(s).last() != '/',
    decreases s.len(),
{
    if s.len() > 0 && s.last() == '/' {
        lemma_trim_slashes_end(s.drop_last());
    }
}

/// A container name from a path is absolute, and only the root ends in
/// a slash.
pub proof fn lemma_container_name_shape(args: Seq<Seq<char>>)
    ensures
        container_name_of(args).len() > 0,
        container_name_of(args)[0] == '/',
        container_name_of(args) == seq!['/'] || container_name_of(args).last() != '/',
{
    if !(args.len() == 0 || (args.len() == 1 && args[0].len() == 0)) {
        let s = seq!['/'] + join_slash(args);
        lemma_trim_slashes_end(s);
        let t = trim_slashes_end(s);
        if t.len() > 0 {
            assert(t[0] == s[0]);
        }
    }
}

/// An API path after `/api/`: `<version>/<request type>/<container...>`.
pub struct ApiPath {
    pub version: String,
    pub request_type: String,
    pub container_name: String,
}

pub open spec fn path_args(rest: Seq<char>) -> Seq<Seq<char>> {
    let segs = split_on(rest, '/');
    if segs.len() > 2 {
        segs.skip(2)
    } else {
        Seq::empty()
    }
}

/// Splits the path after `/api/` into version, request type and container.
pub fn parse_api_path(rest: &str) -> (p: ApiPath)
    ensures
        p.version@ == split_on(rest@, '/')[0],
        p.request_type@ == (if split_on(rest@, '/').len() > 1 {
            split_on(rest@, '/')[1]
        } else {
            Seq::empty()
        }),
        p.container_name@ == container_name_of(path_args(rest@)),
{
    let v = chars_of(rest);
    let pieces = split_ranges(&v, 0, v.len(), '/');
    assert(v@.subrange(0, v@.len() as int) == v@);
    let ghost segs = split_on(v@, '/');
    proof {
        crate::text::lemma_split_on_nonempty(v@, '/');
    }
    let version = string_of(&v, pieces[0].0, pieces[0].1);
    let request_type = if pieces.len() > 1 {
        string_of(&v, pieces[1].0, pieces[1].1)
    } else {
        String::new()
    };
    let ghost args = path_args(v@);
    let n = pieces.len();
    let nargs: usize = if n > 2 {
        n - 2
    } else {
        0
    };
    proof {
        if n > 2 {
            assert(args.len() == n - 2);
            assert(args[0] == segs[2]);
        } else {
            assert(args.len() == 0);
        }
    }
    let name = if nargs == 0 || (nargs == 1 && pieces[2].0 == pieces[2].1) {
        let mut t = String::new();
        push_char(&mut t, '/');
        proof {
            if nargs == 1 {
                assert(segs[2] == v@.subrange(pieces@[2].0 as int, pieces@[2].1 as int));
            }
        }
        assert(t@ == container_name_of(args));
        t
    } else {
        // "/" + args joined by "/".
        let mut joined: Vec<char> = Vec::new();
        joined.push('/');
        let mut i: usize = 2;
        while i < n
            invariant
                2 < n == pieces@.len() == segs.len(),
                2 <= i <= n,
                segs == split_on(v@, '/'),
                args == segs.skip(2),
                forall|j: int| 0 <= j < pieces@.len() ==> 0 <= #[trigger] pieces@[j].0 <= pieces@[j].1 <= v@.len(),
                forall|j: int| 0 <= j < pieces@.len() ==> #[trigger] v@.subrange(pieces@[j].0 as int, pieces@[j].1 as int) == segs[j],
                joined@ == seq!['/'] + join_slash(args.take(i - 2)),
            decreases n - i,
        {
            assert(args.take(i - 1).drop_last() == args.take(i - 2));
            assert(args.take(i - 1).last() == segs[i as int]);
            if i > 2 {
                joined.push('/');
            }
            let (lo, hi) = pieces[i];
            let mut k = lo;
            let ghost before = joined@;
            while k < hi
                invariant
                    lo <= k <= hi <= v@.len(),
                    joined@ == before + v@.subrange(lo as int, k as int),
                decreases hi - k,
            {
                joined.push(v[k]);
                assert(v@.subrange(lo as int, k + 1) == v@.subrange(lo as int, k as int).push(v@[k as int]));
                k += 1;
            }
            assert(joined@ =~= seq!['/'] + join_slash(args.take(i - 1)));
            i += 1;
        }
        assert(args.take(n - 2) == args);
        // Trailing '/'s go.
        let ghost full = joined@;
        let mut e = joined.len();
        assert(full.take(e as int) == full);
        while e > 0 && joined[e - 1] == '/'
            invariant
                e <= joined@.len(),
                full == joined@,
                trim_slashes_end(full) == trim_slashes_end(full.take(e as int)),
            decreases e,
        {
            assert(full.take(e as int).drop_last() == full.take(e - 1));
            e -= 1;
        }
        proof {
            if e > 0 {
                assert(full.take(e as int).last() == full[e - 1]);
            }
        }
        proof {
            if nargs == 1 {
                assert(segs[2] == v@.subrange(pieces@[2].0 as int, pieces@[2].1 as int));
                assert(args[0].len() != 0);
            }
        }
        if e == 0 {
            let mut t = String::new();
            push_char(&mut t, '/');
            assert(full.take(0) =~= Seq::<char>::empty());
            assert(t@ == container_name_of(args));
            t
        } else {
            let t = string_of(&joined, 0, e);
            assert(t@ == full.take(e as int));
            assert(trim_slashes_end(full.take(e as int)) == full.take(e as int));
            assert(t@ == container_name_of(args));
            t
        }
    };
    ApiPath { version, request_type, container_name: name }
}

/// A v1.x request, by request type.
#[derive(Debug, Clone, Copy, PartialEq, Eq, Structural)]
pub enum V1Request {
    ListTypes,
    Machine,
    Containers,
    Subcontainers,
    Docker,
    Events,
    Unknown,
}

/// A v2.x request, by resource.
#[derive(Debug, Clone, Copy, PartialEq, Eq, Structural)]
pub enum V2Request {
    Version,
    Machine,
    Attributes,
    Stats,
    MachineStats,
    Spec,
    Summary,
    Ps,
    Storage,
    AppMetrics,
    Unknown,
}

/// Where a request goes, by API version and request type.
#[derive(Debug, Clone, Copy, PartialEq, Eq, Structural)]
pub enum ApiRoute {
    V1(V1Request),
    V2Events,
    V2ListTypes,
    V2(V2Request),
    UnsupportedVersion,
}

pub open spec fn is_v1(v: Seq<char>) -> bool {
    v == "v1.0"@ || v == "v1.1"@ || v == "v1.2"@ || v == "v1.3"@
}

pub open spec fn is_v2(v: Seq<char>) -> bool {
    v == "v2.0"@ || v == "v2.1"@
}

pub open spec fn v1_request_spec(v: Seq<char>, t: Seq<char>) -> V1Request {
    if t.len() == 0 {
        V1Request::ListTypes
    } else if t == "machine"@ {
        V1Request::Machine
    } else if t == "containers"@ {
        V1Request::Containers
    } else if t == "subcontainers"@ && (v == "v1.1"@ || v == "v1.2"@ || v == "v1.3"@) {
        V1Request::Subcontainers
    } else if t == "docker"@ && (v == "v1.2"@ || v == "v1.3"@) {
        V1Request::Docker
    } else if t == "events"@ && v == "v1.3"@ {
        V1Request::Events
    } else {
        V1Request::Unknown
    }
}

pub open spec fn v2_request_spec(v: Seq<char>, t: Seq<char>) -> V2Request {
    if t == "version"@ {
        V2Request::Version
    } else if t == "machine"@ {
        V2Request::Machine
    } else if t == "attributes"@ {
        V2Request::Attributes
    } else if t == "stats"@ {
        V2Request::Stats
    } else if t == "machinestats"@ && v == "v2.1"@ {
        V2Request::MachineStats
    } else if t == "spec"@ {
        V2Request::Spec
    } else if t == "summary"@ {
        V2Request::Summary
    } else if t == "ps"@ {
        V2Request::Ps
    } else if t == "storage"@ {
        V2Request::Storage
    } else if t == "appmetrics"@ {
        V2Request::AppMetrics
    } else {
        V2Request::Unknown
    }
}

pub open spec fn route_spec(v: Seq<char>, t: Seq<char>) -> ApiRoute {
    if is_v1(v) {
        ApiRoute::V1(v1_request_spec(v, t))
    } else if is_v2(v) {
        if t == "events"@ {
            ApiRoute::V2Events
        } else if t.len() == 0 {
            ApiRoute::V2ListTypes
        } else {
            ApiRoute::V2(v2_request_spec(v, t))
        }
    } else {
        ApiRoute::UnsupportedVersion
    }
}

/// Routes a request by API version and request type.
pub fn route(version: &str, request_type: &str) -> (r: ApiRoute)
    ensures
        r == route_spec(version@, request_type@),
{
    let v = version;
    let t = request_type;
    if str_eq(v, "v1.0") || str_eq(v, "v1.1") || str_eq(v, "v1.2") || str_eq(v, "v1.3") {
        let q = if t.is_empty() {
            V1Request::ListTypes
        } else if str_eq(t, "machine") {
            V1Request::Machine
        } else if str_eq(t, "containers") {
            V1Request::Containers
        } else if str_eq(t, "subcontainers") && (str_eq(v, "v1.1") || str_eq(v, "v1.2") || str_eq(v, "v1.3")) {
            V1Request::Subcontainers
        } else if str_eq(t, "docker") && (str_eq(v, "v1.2") || str_eq(v, "v1.3")) {
            V1Request::Docker
        } else if str_eq(t, "events") && str_eq(v, "v1.3") {
            V1Request::Events
        } else {
            V1Request::Unknown
        };
        ApiRoute::V1(q)
    } else if str_eq(v, "v2.0") || str_eq(v, "v2.1") {
        if str_eq(t, "events") {
            ApiRoute::V2Events
        } else if t.is_empty() {
            ApiRoute::V2ListTypes
        } else {
            let q = if str_eq(t, "version") {
                V2Request::Version
            } else if str_eq(t, "machine") {
                V2Request::Machine
            } else if str_eq(t, "attributes") {
                V2Request::Attributes
            } else if str_eq(t, "stats") {
                V2Request::Stats
            } else if str_eq(t, "machinestats") && str_eq(v, "v2.1") {
                V2Request::MachineStats
            } else if str_eq(t, "spec") {
                V2Request::Spec
            } else if str_eq(t, "summary") {
                V2Request::Summary
            } else if str_eq(t, "ps") {
                V2Request::Ps
            } else if str_eq(t, "storage") {
                V2Request::Storage
            } else if str_eq(t, "appmetrics") {
                V2Request::AppMetrics
            } else {
                V2Request::Unknown
            };
            ApiRoute::V2(q)
        }
    } else {
        ApiRoute::UnsupportedVersion
    }
}

/// `prefix` followed by the quoted text of `s`.
pub fn message_quoting(prefix: &str, s: &str) -> (r: String)
    ensures
        r@ == prefix@ + debug_text(s@),
{
    let mut r = String::new();
    push_all(&mut r, prefix);
    push_all(&mut r, debug_quoted(s).as_str());
    r
}

} // verus!
