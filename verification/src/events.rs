//! Container events: the query filter of the events endpoint and the event
//! log's storage policy (time order, a 24-hour age limit and at most 100,000
//! events).

use std::sync::Arc;

use vstd::prelude::*;

use crate::api::Params;
use crate::model::{Event, EventType, GoTime, CHRONO_MIN_SECS};
use crate::order::str_eq;
use crate::store::share;
use crate::text::{chars_of, parse_radix, parse_unsigned, push_all, push_char, starts_with};

verus! {

/// Filter of the events endpoint.
pub struct EventQuery {
    /// Absolute container name the query is anchored at.
    pub container_name: String,
    /// Also match events of subcontainers.
    pub include_subcontainers: bool,
    /// Event types to include.
    pub event_types: Vec<EventType>,
    /// How many of the most recent matching events to return (0: 10).
    pub max_events: usize,
    pub start_time: GoTime,
    pub end_time: GoTime,
}

/// The text without its trailing `/`s.
pub open spec fn trim_slash_end(s: Seq<char>) -> Seq<char>
    decreases s.len(),
{
    if s.len() > 0 && s.last() == '/' {
        trim_slash_end(s.drop_last())
    } else {
        s
    }
}

/// Whether an event falls under the query.
pub open spec fn query_matches(q: &EventQuery, ev: Event) -> bool {
    &&& q.event_types@.contains(ev.event_type)
    &&& (ev.container_name@ == q.container_name@ || (q.include_subcontainers && starts_with(
        ev.container_name@,
        trim_slash_end(q.container_name@) + seq!['/'],
    )))
    &&& (q.start_time.spec_is_zero() || q.start_time.ns() <= ev.timestamp.ns())
    &&& (q.end_time.spec_is_zero() || ev.timestamp.ns() <= q.end_time.ns())
}

impl EventQuery {
    /// Whether `ev` is of a wanted type, of the container (or, when asked,
    /// one of its subcontainers), and within the time bounds (a zero bound
    /// leaves that side open).
    pub fn matches(&self, ev: &Event) -> (b: bool)
        ensures
            b == query_matches(self, *ev),
    {
        let mut found = false;
        let mut i: usize = 0;
        while i < self.event_types.len()
            invariant
                i <= self.event_types@.len(),
                found == exists|k: int| 0 <= k < i && self.event_types@[k] == ev.event_type,
            decreases self.event_types.len() - i,
        {
            if self.event_types[i] == ev.event_type {
                found = true;
            }
            i += 1;
        }
        if !found {
            return false;
        }
        let name_ok = str_eq(ev.container_name.as_str(), self.container_name.as_str()) || (
        self.include_subcontainers && {
            let q = chars_of(self.container_name.as_str());
            let mut e = q.len();
            assert(q@.take(e as int) == q@);
            while e > 0 && q[e - 1] == '/'
                invariant
                    e <= q@.len(),
                    trim_slash_end(q@) == trim_slash_end(q@.take(e as int)),
                decreases e,
            {
                assert(q@.take(e as int).drop_last() == q@.take(e - 1));
                e -= 1;
            }
            proof {
                if e > 0 {
                    assert(q@.take(e as int).last() == q@[e - 1]);
                }
            }
            let c = chars_of(ev.container_name.as_str());
            if c.len() <= e {
                false
            } else {
                let mut j: usize = 0;
                let mut same = true;
                while j < e
                    invariant
                        j <= e <= q@.len(),
                        e + 1 <= c@.len(),
                        same == forall|k: int| 0 <= k < j ==> c@[k] == q@[k],
                    decreases e - j,
                {
                    if c[j] != q[j] {
                        same = false;
                    }
                    j += 1;
                }
                let r = same && c[e] == '/';
                proof {
                    let p = trim_slash_end(q@) + seq!['/'];
                    assert(p == q@.take(e as int).push('/'));
                    if r {
                        assert(c@.take(p.len() as int) =~= p);
                    } else if !same {
                        let k = choose|k: int| 0 <= k < e && c@[k] != q@[k];
                        assert(c@.take(p.len() as int)[k] != p[k]);
                    } else {
                        assert(c@.take(p.len() as int)[e as int] != p[e as int]);
                    }
                }
                r
            }
        });
        if !name_ok {
            return false;
        }
        if !self.start_time.is_zero() && ev.timestamp.before(&self.start_time) {
            return false;
        }
        if !self.end_time.is_zero() && self.end_time.before(&ev.timestamp) {
            return false;
        }
        true
    }
}

/// The query of the events endpoint: container, subcontainers, event types
/// (all of them with `all_events`), at most `max_events` (default 10), and
/// the time window.
pub fn event_query(container_name: &str, params: &Params) -> (q: EventQuery)
    ensures
        q.container_name@ == container_name@,
        q.include_subcontainers == (crate::api::param_get(params.pairs(), "subcontainers"@) == Some("true"@)),
        q.event_types@ == wanted_types(
            crate::api::param_get(params.pairs(), "all_events"@) == Some("true"@),
            crate::api::param_get(params.pairs(), "oom_events"@) == Some("true"@),
            crate::api::param_get(params.pairs(), "oom_kill_events"@) == Some("true"@),
            crate::api::param_get(params.pairs(), "creation_events"@) == Some("true"@),
            crate::api::param_get(params.pairs(), "deletion_events"@) == Some("true"@),
        ),
        q.max_events == match crate::api::param_get(params.pairs(), "max_events"@) {
            Some(v) => match parse_unsigned(v, 10, usize::MAX as int) {
                Some(n) => n,
                None => 10,
            },
            None => 10,
        },
        q.start_time == match crate::api::param_get(params.pairs(), "start_time"@) {
            Some(v) => match crate::api::rfc3339(v) {
                Some(x) => x,
                None => GoTime { secs: crate::model::GO_ZERO_SECS, nanos: 0 },
            },
            None => GoTime { secs: crate::model::GO_ZERO_SECS, nanos: 0 },
        },
        q.end_time == match crate::api::param_get(params.pairs(), "end_time"@) {
            Some(v) => match crate::api::rfc3339(v) {
                Some(x) => x,
                None => GoTime { secs: crate::model::GO_ZERO_SECS, nanos: 0 },
            },
            None => GoTime { secs: crate::model::GO_ZERO_SECS, nanos: 0 },
        },
{
    let all = params.get_bool("all_events");
    let oom = params.get_bool("oom_events");
    let kill = params.get_bool("oom_kill_events");
    let created = params.get_bool("creation_events");
    let deleted = params.get_bool("deletion_events");
    let mut event_types: Vec<EventType> = Vec::new();
    if all || oom {
        event_types.push(EventType::Oom);
    }
    if all || kill {
        event_types.push(EventType::OomKill);
    }
    if all || created {
        event_types.push(EventType::ContainerCreation);
    }
    if all || deleted {
        event_types.push(EventType::ContainerDeletion);
    }
    assert(event_types@ =~= wanted_types(all, oom, kill, created, deleted));
    let max_events: usize = match params.get("max_events") {
        Some(v) => {
            let cs = chars_of(v);
            assert(cs@.subrange(0, cs@.len() as int) == cs@);
            match parse_radix(&cs, 0, cs.len(), 10, usize::MAX as u64) {
                Some(n) => n as usize,
                None => 10,
            }
        },
        None => 10,
    };
    let mut name = String::new();
    push_all(&mut name, container_name);
    EventQuery {
        container_name: name,
        include_subcontainers: params.get_bool("subcontainers"),
        event_types,
        max_events,
        start_time: params.get_time("start_time"),
        end_time: params.get_time("end_time"),
    }
}

/// The event types a query's flags ask for, in a fixed order.
pub open spec fn wanted_types(all: bool, oom: bool, kill: bool, created: bool, deleted: bool) -> Seq<EventType> {
    (if all || oom {
        seq![EventType::Oom]
    } else {
        Seq::empty()
    }) + (if all || kill {
        seq![EventType::OomKill]
    } else {
        Seq::empty()
    }) + (if all || created {
        seq![EventType::ContainerCreation]
    } else {
        Seq::empty()
    }) + (if all || deleted {
        seq![EventType::ContainerDeletion]
    } else {
        Seq::empty()
    })
}

/// Events are ordered by timestamp.
pub open spec fn event_order() -> spec_fn(Arc<Event>, Arc<Event>) -> bool {
    |a: Arc<Event>, b: Arc<Event>| event_before(a, b)
}

pub open spec fn event_before(a: Arc<Event>, b: Arc<Event>) -> bool {
    a.timestamp.ns() < b.timestamp.ns()
}

/// The elements of `v` from index `from` on.
fn tail<T>(v: &Vec<Arc<T>>, from: usize) -> (r: Vec<Arc<T>>)
    requires
        from <= v@.len(),
    ensures
        r@ == v@.skip(from as int),
{
    let mut r: Vec<Arc<T>> = Vec::new();
    let mut j = from;
    while j < v.len()
        invariant
            from <= j <= v@.len(),
            r@ == v@.subrange(from as int, j as int),
        decreases v.len() - j,
    {
        r.push(share(&v[j]));
        assert(v@.subrange(from as int, j + 1) =~= v@.subrange(from as int, j as int).push(v@[j as int]));
        j += 1;
    }
    assert(v@.subrange(from as int, v@.len() as int) =~= v@.skip(from as int));
    r
}

/// The events stamped at or after `cutoff`, in order.
pub open spec fn recent(s: Seq<Arc<Event>>, cutoff: int) -> Seq<Arc<Event>>
    decreases s.len(),
{
    if s.len() == 0 {
        Seq::empty()
    } else {
        recent(s.drop_last(), cutoff) + (if s.last().timestamp.ns() >= cutoff {
            seq![s.last()]
        } else {
            Seq::empty()
        })
    }
}

/// The log never holds more than this many events.
pub const MAX_EVENTS: usize = 100_000;

/// Nanoseconds in the log's 24-hour age limit.
pub open spec fn day_ns() -> int {
    86_400_000_000_000
}

/// The last `MAX_EVENTS` of `s`.
pub open spec fn capped(s: Seq<Arc<Event>>) -> Seq<Arc<Event>> {
    if s.len() > MAX_EVENTS {
        s.skip(s.len() - MAX_EVENTS)
    } else {
        s
    }
}

/// The events with `ev` inserted behind every event stamped no later than it.
pub open spec fn with_event(s: Seq<Arc<Event>>, ev: Arc<Event>) -> Seq<Arc<Event>> {
    crate::order::ins_by(s, ev, event_order())
}

/// The age cutoff after recording `ev`: the newest stamp less 24 hours.
pub open spec fn record_cutoff(s: Seq<Arc<Event>>, ev: Arc<Event>) -> int {
    with_event(s, ev).last().timestamp.ns() - day_ns()
}

/// The log after recording `ev`: inserted in time order, events older than
/// 24 hours before the newest dropped, then only the newest `MAX_EVENTS`.
pub open spec fn recorded(s: Seq<Arc<Event>>, ev: Arc<Event>) -> Seq<Arc<Event>> {
    capped(recent(with_event(s, ev), record_cutoff(s, ev)))
}

/// The `max` most recent matching events (`max` 0 means 10), oldest first.
pub open spec fn matching(s: Seq<Arc<Event>>, q: &EventQuery) -> Seq<Arc<Event>>
    decreases s.len(),
{
    if s.len() == 0 {
        Seq::empty()
    } else {
        matching(s.drop_last(), q) + (if query_matches(q, *s.last()) {
            seq![s.last()]
        } else {
            Seq::empty()
        })
    }
}

pub open spec fn selected(s: Seq<Arc<Event>>, q: &EventQuery) -> Seq<Arc<Event>> {
    let m = matching(s, q);
    let max = if q.max_events == 0 {
        10
    } else {
        q.max_events as int
    };
    if m.len() > max {
        m.skip(m.len() - max)
    } else {
        m
    }
}

/// The stored events, oldest first.
pub struct EventLog {
    events: Vec<Arc<Event>>,
}

impl View for EventLog {
    type V = Seq<Arc<Event>>;

    closed spec fn view(&self) -> Seq<Arc<Event>> {
        self.events@
    }
}

impl EventLog {
    pub fn new() -> (l: EventLog)
        ensures
            l@ == Seq::<Arc<Event>>::empty(),
    {
        EventLog { events: Vec::new() }
    }

    /// The newest stored event, if any.
    pub fn newest(&self) -> (r: Option<Arc<Event>>)
        ensures
            r == (if self@.len() > 0 {
                Some(self@.last())
            } else {
                None::<Arc<Event>>
            }),
    {
        let n = self.events.len();
        if n > 0 {
            Some(share(&self.events[n - 1]))
        } else {
            None
        }
    }

    /// Records an event: it goes behind every event stamped no later than
    /// it, events older than 24 hours before the newest are dropped, and of
    /// the rest only the newest 100,000 stay.
    pub fn record(&mut self, ev: Arc<Event>)
        requires
            record_cutoff(old(self)@, ev) >= CHRONO_MIN_SECS * 1_000_000_000,
            with_event(old(self)@, ev).last().timestamp.nanos < 1_000_000_000,
        ensures
            final(self)@ == recorded(old(self)@, ev),
    {
        let ghost s0 = self.events@;
        let t = ev.timestamp.total_nanos();
        let mut pos: usize = 0;
        while pos < self.events.len() && !(t < self.events[pos].timestamp.total_nanos())
            invariant
                pos <= self.events@.len(),
                s0 == self.events@,
                t == ev.timestamp.ns(),
                forall|m: int| 0 <= m < pos ==> !(event_order())(ev, #[trigger] self.events@[m]),
            decreases self.events.len() - pos,
        {
            assert(self.events@[pos as int].timestamp.ns() <= t);
            assert(!event_before(ev, self.events@[pos as int]));
            pos += 1;
        }
        proof {
            crate::order::lemma_ins_by_at(s0, ev, event_order(), pos as int);
        }
        self.events.insert(pos, ev);
        let ghost ins = self.events@;
        let n = self.events.len();
        let newest = self.events[n - 1].timestamp.total_nanos();
        let cutoff = newest - 86_400_000_000_000;
        let mut kept: Vec<Arc<Event>> = Vec::new();
        let mut i: usize = 0;
        while i < self.events.len()
            invariant
                i <= self.events@.len(),
                ins == self.events@,
                cutoff == record_cutoff(s0, ev),
                kept@ == recent(ins.take(i as int), cutoff as int),
            decreases self.events.len() - i,
        {
            assert(ins.take(i + 1).drop_last() == ins.take(i as int));
            if self.events[i].timestamp.total_nanos() >= cutoff {
                kept.push(share(&self.events[i]));
            }
            i += 1;
        }
        assert(ins.take(ins.len() as int) == ins);
        let k = kept.len();
        if k > MAX_EVENTS {
            self.events = tail(&kept, k - MAX_EVENTS);
        } else {
            self.events = kept;
        }
    }

    /// The `max_events` most recent events the query matches (10 when it
    /// asks for 0), oldest first.
    pub fn select(&self, q: &EventQuery) -> (r: Vec<Arc<Event>>)
        ensures
            r@ == selected(self@, q),
    {
        let max: usize = if q.max_events == 0 {
            10
        } else {
            q.max_events
        };
        let ghost s = self.events@;
        let mut m: Vec<Arc<Event>> = Vec::new();
        let mut i: usize = 0;
        while i < self.events.len()
            invariant
                i <= s.len(),
                s == self.events@,
                m@ == matching(s.take(i as int), q),
            decreases self.events.len() - i,
        {
            assert(s.take(i + 1).drop_last() == s.take(i as int));
            if q.matches(&self.events[i]) {
                m.push(share(&self.events[i]));
            }
            i += 1;
        }
        assert(s.take(s.len() as int) == s);
        let n = m.len();
        if n > max {
            tail(&m, n - max)
        } else {
            m
        }
    }
}

// ---------------------------------------------------------------------------
// What the log keeps
// ---------------------------------------------------------------------------

/// Events in time order: no event is stamped before an earlier one.
pub open spec fn time_ordered(s: Seq<Arc<Event>>) -> bool {
    forall|i: int, j: int| 0 <= i < j < s.len() ==> (#[trigger] s[i]).timestamp.ns() <= (#[trigger] s[j]).timestamp.ns()
}

proof fn lemma_event_order_strict()
    ensures
        crate::order::strict_order(event_order()),
{
}

proof fn lemma_ordered_sorted(s: Seq<Arc<Event>>)
    ensures
        time_ordered(s) <==> crate::order::sorted_by(s, event_order()),
{
    if crate::order::sorted_by(s, event_order()) {
        assert forall|i: int, j: int| 0 <= i < j < s.len() implies (#[trigger] s[i]).timestamp.ns() <= (#[trigger] s[j]).timestamp.ns() by {
            assert(!(event_order())(s[j], s[i]));
        }
    }
    if time_ordered(s) {
        assert forall|i: int, j: int| 0 <= i < j < s.len() implies !(event_order())(#[trigger] s[j], #[trigger] s[i]) by {
            assert(s[i].timestamp.ns() <= s[j].timestamp.ns());
        }
    }
}

/// What `recent` keeps: time order, only events at or after the cutoff,
/// and the last event where it is not before the cutoff.
proof fn lemma_recent(s: Seq<Arc<Event>>, cutoff: int)
    requires
        time_ordered(s),
    ensures
        time_ordered(recent(s, cutoff)),
        recent(s, cutoff).len() <= s.len(),
        forall|i: int| 0 <= i < recent(s, cutoff).len() ==> (#[trigger] recent(s, cutoff)[i]).timestamp.ns() >= cutoff,
        forall|i: int| 0 <= i < recent(s, cutoff).len() ==> (#[trigger] recent(s, cutoff)[i]).timestamp.ns() <= s.last().timestamp.ns(),
        s.len() > 0 && s.last().timestamp.ns() >= cutoff ==> recent(s, cutoff).len() > 0 && recent(s, cutoff).last() == s.last(),
    decreases s.len(),
{
    if s.len() > 0 {
        let u = s.drop_last();
        assert(time_ordered(u)) by {
            assert forall|i: int, j: int| 0 <= i < j < u.len() implies (#[trigger] u[i]).timestamp.ns() <= (#[trigger] u[j]).timestamp.ns() by {
                assert(u[i] == s[i] && u[j] == s[j]);
            }
        }
        lemma_recent(u, cutoff);
        let r = recent(s, cutoff);
        let ru = recent(u, cutoff);
        if u.len() > 0 {
            assert(u.last() == s[s.len() - 2]);
            assert(s[s.len() - 2].timestamp.ns() <= s.last().timestamp.ns());
        }
        if s.last().timestamp.ns() >= cutoff {
            assert(r == ru.push(s.last()));
            assert forall|i: int, j: int| 0 <= i < j < r.len() implies (#[trigger] r[i]).timestamp.ns() <= (#[trigger] r[j]).timestamp.ns() by {
                if j < ru.len() {
                    assert(r[i] == ru[i] && r[j] == ru[j]);
                } else {
                    assert(r[i] == ru[i]);
                }
            }
            assert forall|i: int| 0 <= i < r.len() implies (#[trigger] r[i]).timestamp.ns() <= s.last().timestamp.ns() by {
                if i < ru.len() {
                    assert(r[i] == ru[i]);
                }
            }
            assert forall|i: int| 0 <= i < r.len() implies (#[trigger] r[i]).timestamp.ns() >= cutoff by {
                if i < ru.len() {
                    assert(r[i] == ru[i]);
                }
            }
        } else {
            assert(r == ru);
            assert forall|i: int| 0 <= i < r.len() implies (#[trigger] r[i]).timestamp.ns() <= s.last().timestamp.ns() by {
                assert(r[i] == ru[i]);
            }
        }
    }
}

/// Recording an event into a time-ordered log keeps it in time order,
/// keeps the newest event, keeps only events stamped within 24 hours of
/// the newest, and keeps at most `MAX_EVENTS` events.
pub proof fn lemma_record_keeps_log(s: Seq<Arc<Event>>, ev: Arc<Event>)
    requires
        time_ordered(s),
    ensures
        time_ordered(recorded(s, ev)),
        recorded(s, ev).len() <= MAX_EVENTS,
        recorded(s, ev).len() > 0,
        recorded(s, ev).last() == with_event(s, ev).last(),
        forall|i: int|
            0 <= i < recorded(s, ev).len() ==> (#[trigger] recorded(s, ev)[i]).timestamp.ns() >= recorded(s, ev).last().timestamp.ns() - day_ns(),
{
    lemma_event_order_strict();
    lemma_ordered_sorted(s);
    crate::order::lemma_ins_by_sorted(s, ev, event_order());
    let w = with_event(s, ev);
    crate::order::lemma_ins_by_len(s, ev, event_order());
    lemma_ordered_sorted(w);
    let c = record_cutoff(s, ev);
    lemma_recent(w, c);
    let r = recent(w, c);
    assert(r.len() > 0 && r.last() == w.last());
    let out = recorded(s, ev);
    if r.len() > MAX_EVENTS {
        let k = r.len() - MAX_EVENTS;
        assert(out == r.skip(k));
        assert(out.last() == r.last());
        assert forall|i: int, j: int| 0 <= i < j < out.len() implies (#[trigger] out[i]).timestamp.ns() <= (#[trigger] out[j]).timestamp.ns() by {
            assert(out[i] == r[i + k] && out[j] == r[j + k]);
        }
        assert forall|i: int| 0 <= i < out.len() implies (#[trigger] out[i]).timestamp.ns() >= out.last().timestamp.ns() - day_ns() by {
            assert(out[i] == r[i + k]);
        }
    } else {
        assert(out == r);
    }
}

/// A selection holds at most the asked number of events (10 for 0), each
/// one the query matches, in the log's order.
pub proof fn lemma_selected_bounds(s: Seq<Arc<Event>>, q: &EventQuery)
    requires
        time_ordered(s),
    ensures
        selected(s, q).len() <= (if q.max_events == 0 { 10 } else { q.max_events as int }),
        forall|i: int| 0 <= i < selected(s, q).len() ==> query_matches(q, *(#[trigger] selected(s, q)[i])),
        time_ordered(selected(s, q)),
{
    lemma_matching(s, q);
    let m = matching(s, q);
    let max = if q.max_events == 0 { 10 } else { q.max_events as int };
    let out = selected(s, q);
    if m.len() > max {
        let k = m.len() - max;
        assert(out == m.skip(k));
        assert forall|i: int| 0 <= i < out.len() implies query_matches(q, *(#[trigger] out[i])) by {
            assert(out[i] == m[i + k]);
        }
        assert forall|i: int, j: int| 0 <= i < j < out.len() implies (#[trigger] out[i]).timestamp.ns() <= (#[trigger] out[j]).timestamp.ns() by {
            assert(out[i] == m[i + k] && out[j] == m[j + k]);
        }
    }
}

proof fn lemma_matching(s: Seq<Arc<Event>>, q: &EventQuery)
    requires
        time_ordered(s),
    ensures
        forall|i: int| 0 <= i < matching(s, q).len() ==> query_matches(q, *(#[trigger] matching(s, q)[i])),
        time_ordered(matching(s, q)),
        forall|i: int| 0 <= i < matching(s, q).len() ==> (#[trigger] matching(s, q)[i]).timestamp.ns() <= s.last().timestamp.ns(),
    decreases s.len(),
{
    if s.len() > 0 {
        let u = s.drop_last();
        assert(time_ordered(u)) by {
            assert forall|i: int, j: int| 0 <= i < j < u.len() implies (#[trigger] u[i]).timestamp.ns() <= (#[trigger] u[j]).timestamp.ns() by {
                assert(u[i] == s[i] && u[j] == s[j]);
            }
        }
        lemma_matching(u, q);
        let m = matching(s, q);
        let mu = matching(u, q);
        if u.len() > 0 {
            assert(u.last() == s[s.len() - 2]);
        }
        let hit = matching(s, q).len() > matching(u, q).len();
        if hit {
            assert(m == mu.push(s.last()));
            assert forall|i: int| 0 <= i < m.len() implies query_matches(q, *(#[trigger] m[i])) by {
                if i < mu.len() {
                    assert(m[i] == mu[i]);
                }
            }
            assert forall|i: int, j: int| 0 <= i < j < m.len() implies (#[trigger] m[i]).timestamp.ns() <= (#[trigger] m[j]).timestamp.ns() by {
                assert(m[i] == mu[i]);
                if j < mu.len() {
                    assert(m[j] == mu[j]);
                }
            }
            assert forall|i: int| 0 <= i < m.len() implies (#[trigger] m[i]).timestamp.ns() <= s.last().timestamp.ns() by {
                if i < mu.len() {
                    assert(m[i] == mu[i]);
                }
            }
        } else {
            assert(m == mu);
        }
    }
}

} // verus!
