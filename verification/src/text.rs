//! Character-level text model shared by the parsers.
//!
//! Text is handled as a vector of `char`s; a piece of text is a half-open
//! range `[lo, hi)` into that vector. The spec functions here state what
//! Rust's `str::lines`, `str::split_whitespace`, `str::trim`, `split_once`
//! and the integer `FromStr` impls compute, over `Seq<char>`.

use vstd::prelude::*;

verus! {

broadcast use vstd::string::group_string_axioms;

/// Copies the characters of a string slice into a vector.
pub fn chars_of(s: &str) -> (v: Vec<char>)
    ensures
        v@ == s@,
{
    let mut v: Vec<char> = Vec::new();
    let it = s.chars();
    for c in iter: it
        invariant
            iter.seq() == s@,
            v@ == iter.seq().take(iter.index() as int),
    {
        v.push(c);
        assert(v@ == iter.seq().take(iter.index() + 1));
    }
    assert(v@ == s@);
    v
}

/// Appends one character to a `String` (`String::push`).
#[verifier::external_body]
pub(crate) fn push_char(s: &mut String, c: char)
    ensures
        final(s)@ == old(s)@.push(c),
{
    s.push(c);
}

/// The characters `v[lo..hi]` as a `String`.
pub fn string_of(v: &Vec<char>, lo: usize, hi: usize) -> (s: String)
    requires
        lo <= hi <= v.len(),
    ensures
        s@ == v@.subrange(lo as int, hi as int),
{
    let mut s = String::new();
    let mut i = lo;
    while i < hi
        invariant
            lo <= i <= hi <= v.len(),
            s@ == v@.subrange(lo as int, i as int),
        decreases hi - i,
    {
        push_char(&mut s, v[i]);
        assert(s@ == v@.subrange(lo as int, i + 1));
        i += 1;
    }
    s
}

/// Unicode `White_Space`, as `char::is_whitespace` decides it.
pub open spec fn is_ws(c: char) -> bool {
    let u = c as u32;
    ||| 9 <= u <= 13
    ||| u == 32
    ||| u == 0x85
    ||| u == 0xA0
    ||| u == 0x1680
    ||| 0x2000 <= u <= 0x200A
    ||| u == 0x2028
    ||| u == 0x2029
    ||| u == 0x202F
    ||| u == 0x205F
    ||| u == 0x3000
}

pub fn is_ws_char(c: char) -> (b: bool)
    ensures
        b == is_ws(c),
{
    let u = c as u32;
    (9 <= u && u <= 13) || u == 32 || u == 0x85 || u == 0xA0 || u == 0x1680 || (0x2000 <= u
        && u <= 0x200A) || u == 0x2028 || u == 0x2029 || u == 0x202F || u == 0x205F || u
        == 0x3000
}

/// The pieces of `s` between occurrences of `sep` (`str::split` on a char).
pub open spec fn split_on(s: Seq<char>, sep: char) -> Seq<Seq<char>>
    decreases s.len(),
{
    if s.len() == 0 {
        seq![Seq::empty()]
    } else {
        let r = split_on(s.drop_last(), sep);
        if s.last() == sep {
            r.push(Seq::empty())
        } else {
            r.update(r.len() - 1, r.last().push(s.last()))
        }
    }
}

pub proof fn lemma_split_on_nonempty(s: Seq<char>, sep: char)
    ensures
        split_on(s, sep).len() >= 1,
    decreases s.len(),
{
    if s.len() > 0 {
        lemma_split_on_nonempty(s.drop_last(), sep);
    }
}

/// A line terminated by `\n` loses one trailing `\r`.
pub open spec fn strip_cr(l: Seq<char>) -> Seq<char> {
    if l.len() > 0 && l.last() == '\r' {
        l.drop_last()
    } else {
        l
    }
}

/// `str::lines`: split at `\n`, a `\r` right before the `\n` is dropped,
/// and a final empty piece (text ending in `\n`, or empty text) is no line.
pub open spec fn lines(s: Seq<char>) -> Seq<Seq<char>> {
    let p = split_on(s, '\n');
    let done = p.drop_last().map_values(|l: Seq<char>| strip_cr(l));
    if p.last().len() == 0 {
        done
    } else {
        done.push(p.last())
    }
}

/// Ranges of the lines of `v` (`str::lines`).
pub fn line_ranges(v: &Vec<char>) -> (r: Vec<(usize, usize)>)
    ensures
        r@.len() == lines(v@).len(),
        forall|j: int| 0 <= j < r@.len() ==> #[trigger] r@[j].0 <= r@[j].1 <= v.len(),
        forall|j: int|
            0 <= j < r@.len() ==> #[trigger] v@.subrange(r@[j].0 as int, r@[j].1 as int)
                == lines(v@)[j],
{
    let mut r: Vec<(usize, usize)> = Vec::new();
    let mut start: usize = 0;
    let mut i: usize = 0;
    proof {
        lemma_split_on_nonempty(v@.take(0), '\n');
        assert(v@.take(0) =~= Seq::<char>::empty());
    }
    while i < v.len()
        invariant
            start <= i <= v.len(),
            split_on(v@.take(i as int), '\n').len() == r@.len() + 1,
            split_on(v@.take(i as int), '\n').last() == v@.subrange(start as int, i as int),
            forall|j: int| 0 <= j < r@.len() ==> #[trigger] r@[j].0 <= r@[j].1 <= v.len(),
            forall|j: int|
                0 <= j < r@.len() ==> #[trigger] v@.subrange(r@[j].0 as int, r@[j].1 as int)
                    == strip_cr(split_on(v@.take(i as int), '\n')[j]),
        decreases v.len() - i,
    {
        let ghost old_p = split_on(v@.take(i as int), '\n');
        let ghost old_r = r@;
        assert(v@.take(i + 1).drop_last() =~= v@.take(i as int));
        assert(v@.take(i + 1).last() == v@[i as int]);
        let ghost p = split_on(v@.take(i + 1), '\n');
        if v[i] == '\n' {
            let end = if i > start && v[i - 1] == '\r' {
                i - 1
            } else {
                i
            };
            assert(v@.subrange(start as int, end as int) == strip_cr(
                v@.subrange(start as int, i as int),
            )) by {
                if i > start && v[i - 1] == '\r' {
                    assert(v@.subrange(start as int, i as int).drop_last() =~= v@.subrange(
                        start as int,
                        i - 1,
                    ));
                }
            }
            r.push((start, end));
            assert(p == old_p.push(Seq::empty()));
            assert forall|j: int| 0 <= j < r@.len() implies #[trigger] v@.subrange(
                r@[j].0 as int,
                r@[j].1 as int,
            ) == strip_cr(p[j]) by {
                if j < old_r.len() {
                    assert(r@[j] == old_r[j]);
                    assert(p[j] == old_p[j]);
                } else {
                    assert(p[j] == old_p.last());
                }
            }
            start = i + 1;
            assert(v@.subrange(start as int, i + 1) =~= Seq::<char>::empty());
        } else {
            assert(p == old_p.update(old_p.len() - 1, old_p.last().push(v@[i as int])));
            assert(v@.subrange(start as int, i + 1) =~= v@.subrange(start as int, i as int).push(
                v@[i as int],
            ));
            assert forall|j: int| 0 <= j < r@.len() implies #[trigger] v@.subrange(
                r@[j].0 as int,
                r@[j].1 as int,
            ) == strip_cr(p[j]) by {
                assert(p[j] == old_p[j]);
            }
        }
        i += 1;
    }
    assert(v@.take(v.len() as int) =~= v@);
    let ghost p = split_on(v@, '\n');
    let ghost done = p.drop_last().map_values(|l: Seq<char>| strip_cr(l));
    if start < v.len() {
        r.push((start, v.len()));
        assert(v@.subrange(start as int, v.len() as int) == p.last());
    }
    assert(r@.len() == lines(v@).len());
    assert forall|j: int| 0 <= j < r@.len() implies #[trigger] v@.subrange(
        r@[j].0 as int,
        r@[j].1 as int,
    ) == lines(v@)[j] by {
        if j < done.len() {
            assert(done[j] == strip_cr(p[j]));
        }
    }
    r
}

} // verus!

verus! {

/// `str::split_whitespace`: the maximal runs of non-whitespace characters.
pub open spec fn words(s: Seq<char>) -> Seq<Seq<char>>
    decreases s.len(),
{
    if s.len() == 0 {
        seq![]
    } else {
        let w = words(s.drop_last());
        let c = s.last();
        if is_ws(c) {
            w
        } else if s.len() >= 2 && !is_ws(s[s.len() - 2]) {
            w.update(w.len() - 1, w.last().push(c))
        } else {
            w.push(seq![c])
        }
    }
}

/// Ranges of the whitespace-separated words of `v[lo..hi]`.
pub fn word_ranges(v: &Vec<char>, lo: usize, hi: usize) -> (r: Vec<(usize, usize)>)
    requires
        lo <= hi <= v.len(),
    ensures
        r@.len() == words(v@.subrange(lo as int, hi as int)).len(),
        forall|j: int| 0 <= j < r@.len() ==> lo <= #[trigger] r@[j].0 <= r@[j].1 <= hi,
        forall|j: int|
            0 <= j < r@.len() ==> #[trigger] v@.subrange(r@[j].0 as int, r@[j].1 as int)
                == words(v@.subrange(lo as int, hi as int))[j],
{
    let mut r: Vec<(usize, usize)> = Vec::new();
    let mut i = lo;
    let mut in_word = false;
    let mut ws: usize = lo;
    assert(v@.subrange(lo as int, lo as int) =~= Seq::<char>::empty());
    while i < hi
        invariant
            lo <= ws <= i <= hi <= v.len(),
            in_word <==> (i > lo && !is_ws(v@[i - 1])),
            in_word ==> ws < i,
            in_word ==> forall|k: int| ws <= k < i ==> !is_ws(#[trigger] v@[k]),
            ({
                let w = words(v@.subrange(lo as int, i as int));
                &&& in_word ==> w.len() == r@.len() + 1 && w.last() == v@.subrange(
                    ws as int,
                    i as int,
                )
                &&& !in_word ==> w.len() == r@.len()
            }),
            forall|j: int| 0 <= j < r@.len() ==> lo <= #[trigger] r@[j].0 <= r@[j].1 <= i,
            forall|j: int|
                0 <= j < r@.len() ==> #[trigger] v@.subrange(r@[j].0 as int, r@[j].1 as int)
                    == words(v@.subrange(lo as int, i as int))[j],
        decreases hi - i,
    {
        let ghost old_w = words(v@.subrange(lo as int, i as int));
        let ghost old_r = r@;
        let ghost s1 = v@.subrange(lo as int, i + 1);
        assert(s1.drop_last() =~= v@.subrange(lo as int, i as int));
        assert(s1.last() == v@[i as int]);
        let c = v[i];
        if is_ws_char(c) {
            if in_word {
                r.push((ws, i));
                in_word = false;
            }
            let ghost w = words(s1);
            assert(w == old_w);
            assert forall|j: int| 0 <= j < r@.len() implies #[trigger] v@.subrange(
                r@[j].0 as int,
                r@[j].1 as int,
            ) == w[j] by {
                if j < old_r.len() {
                    assert(r@[j] == old_r[j]);
                }
            }
        } else {
            if !in_word {
                ws = i;
                in_word = true;
                assert(!(s1.len() >= 2 && !is_ws(s1[s1.len() - 2])));
                assert(v@.subrange(ws as int, i + 1) =~= seq![c]);
            } else {
                assert(s1[s1.len() - 2] == v@[i - 1]);
                assert(v@.subrange(ws as int, i + 1) =~= v@.subrange(ws as int, i as int).push(
                    c,
                ));
            }
            let ghost w = words(s1);
            assert forall|j: int| 0 <= j < r@.len() implies #[trigger] v@.subrange(
                r@[j].0 as int,
                r@[j].1 as int,
            ) == w[j] by {
                assert(w[j] == old_w[j]);
            }
        }
        assert forall|j: int| 0 <= j < r@.len() implies lo <= #[trigger] r@[j].0 <= r@[j].1 <= i + 1 by {
            if j < old_r.len() {
                assert(r@[j] == old_r[j]);
            }
        }
        i += 1;
    }
    if in_word {
        r.push((ws, hi));
    }
    r
}

/// `str::trim_start`.
pub open spec fn trim_start(s: Seq<char>) -> Seq<char>
    decreases s.len(),
{
    if s.len() > 0 && is_ws(s[0]) {
        trim_start(s.drop_first())
    } else {
        s
    }
}

/// `str::trim_end`.
pub open spec fn trim_end(s: Seq<char>) -> Seq<char>
    decreases s.len(),
{
    if s.len() > 0 && is_ws(s.last()) {
        trim_end(s.drop_last())
    } else {
        s
    }
}

/// `str::trim`.
pub open spec fn trim(s: Seq<char>) -> Seq<char> {
    trim_end(trim_start(s))
}

proof fn lemma_trim_start_at(s: Seq<char>, a: int)
    requires
        0 <= a <= s.len(),
        forall|k: int| 0 <= k < a ==> is_ws(#[trigger] s[k]),
        a < s.len() ==> !is_ws(s[a]),
    ensures
        trim_start(s) == s.skip(a),
    decreases a,
{
    if a == 0 {
        assert(s.skip(0) =~= s);
    } else {
        let t = s.drop_first();
        assert forall|k: int| 0 <= k < a - 1 implies is_ws(#[trigger] t[k]) by {
            assert(t[k] == s[k + 1]);
        }
        lemma_trim_start_at(t, a - 1);
        assert(t.skip(a - 1) =~= s.skip(a));
    }
}

proof fn lemma_trim_end_at(s: Seq<char>, b: int)
    requires
        0 <= b <= s.len(),
        forall|k: int| b <= k < s.len() ==> is_ws(#[trigger] s[k]),
        b > 0 ==> !is_ws(s[b - 1]),
    ensures
        trim_end(s) == s.take(b),
    decreases s.len() - b,
{
    if b == s.len() {
        assert(s.take(b) =~= s);
    } else {
        let t = s.drop_last();
        lemma_trim_end_at(t, b);
        assert(t.take(b) =~= s.take(b));
    }
}

/// Range of `trim(v[lo..hi])`.
pub fn trim_range(v: &Vec<char>, lo: usize, hi: usize) -> (r: (usize, usize))
    requires
        lo <= hi <= v.len(),
    ensures
        lo <= r.0 <= r.1 <= hi,
        v@.subrange(r.0 as int, r.1 as int) == trim(v@.subrange(lo as int, hi as int)),
{
    let ghost s = v@.subrange(lo as int, hi as int);
    let mut a = lo;
    while a < hi && is_ws_char(v[a])
        invariant
            lo <= a <= hi <= v.len(),
            forall|k: int| lo <= k < a ==> is_ws(#[trigger] v@[k]),
        decreases hi - a,
    {
        a += 1;
    }
    proof {
        assert forall|k: int| 0 <= k < a - lo implies is_ws(#[trigger] s[k]) by {
            assert(s[k] == v@[lo + k]);
        }
        lemma_trim_start_at(s, a - lo);
        assert(s.skip(a - lo) =~= v@.subrange(a as int, hi as int));
    }
    let ghost t = v@.subrange(a as int, hi as int);
    let mut b = hi;
    while b > a && is_ws_char(v[b - 1])
        invariant
            lo <= a <= b <= hi <= v.len(),
            forall|k: int| b <= k < hi ==> is_ws(#[trigger] v@[k]),
        decreases b - a,
    {
        b -= 1;
    }
    proof {
        assert forall|k: int| b - a <= k < t.len() implies is_ws(#[trigger] t[k]) by {
            assert(t[k] == v@[a + k]);
        }
        lemma_trim_end_at(t, b - a);
        assert(t.take(b - a) =~= v@.subrange(a as int, b as int));
    }
    (a, b)
}

/// Index of the first `c` in `s`, or -1.
pub open spec fn find_char(s: Seq<char>, c: char) -> int
    decreases s.len(),
{
    if s.len() == 0 {
        -1
    } else {
        let r = find_char(s.drop_last(), c);
        if r >= 0 {
            r
        } else if s.last() == c {
            s.len() - 1
        } else {
            -1
        }
    }
}

proof fn lemma_find_char_none(s: Seq<char>, c: char)
    requires
        forall|k: int| 0 <= k < s.len() ==> #[trigger] s[k] != c,
    ensures
        find_char(s, c) == -1,
    decreases s.len(),
{
    if s.len() > 0 {
        lemma_find_char_none(s.drop_last(), c);
    }
}

proof fn lemma_find_char_at(s: Seq<char>, c: char, i: int)
    requires
        0 <= i < s.len(),
        s[i] == c,
        forall|k: int| 0 <= k < i ==> #[trigger] s[k] != c,
    ensures
        find_char(s, c) == i,
    decreases s.len(),
{
    if i == s.len() - 1 {
        lemma_find_char_none(s.drop_last(), c);
    } else {
        lemma_find_char_at(s.drop_last(), c, i);
    }
}

/// `split_once(c)`: the text before and after the first `c`.
pub open spec fn split_once_char(s: Seq<char>, c: char) -> Option<(Seq<char>, Seq<char>)> {
    let i = find_char(s, c);
    if i < 0 {
        None
    } else {
        Some((s.take(i), s.skip(i + 1)))
    }
}

/// Absolute index of the first `c` in `v[lo..hi]`.
pub fn find_char_in(v: &Vec<char>, lo: usize, hi: usize, c: char) -> (r: Option<usize>)
    requires
        lo <= hi <= v.len(),
    ensures
        match r {
            Some(i) => lo <= i < hi && find_char(v@.subrange(lo as int, hi as int), c) == i - lo,
            None => find_char(v@.subrange(lo as int, hi as int), c) == -1,
        },
{
    let ghost s = v@.subrange(lo as int, hi as int);
    let mut i = lo;
    while i < hi
        invariant
            lo <= i <= hi <= v.len(),
            s == v@.subrange(lo as int, hi as int),
            forall|k: int| lo <= k < i ==> #[trigger] v@[k] != c,
        decreases hi - i,
    {
        if v[i] == c {
            proof {
                assert forall|k: int| 0 <= k < i - lo implies #[trigger] s[k] != c by {
                    assert(s[k] == v@[lo + k]);
                }
                lemma_find_char_at(s, c, i - lo);
            }
            return Some(i);
        }
        i += 1;
    }
    proof {
        assert forall|k: int| 0 <= k < s.len() implies #[trigger] s[k] != c by {
            assert(s[k] == v@[lo + k]);
        }
        lemma_find_char_none(s, c);
    }
    None
}

/// Index where the first occurrence of `pat` in `s` starts, or -1.
pub open spec fn find_sub(s: Seq<char>, pat: Seq<char>) -> int
    decreases s.len(),
{
    if s.len() == 0 {
        if pat.len() == 0 {
            0
        } else {
            -1
        }
    } else {
        let r = find_sub(s.drop_last(), pat);
        if r >= 0 {
            r
        } else if s.len() >= pat.len() && s.subrange(s.len() - pat.len(), s.len() as int)
            == pat {
            s.len() - pat.len()
        } else {
            -1
        }
    }
}

pub open spec fn match_at(s: Seq<char>, pat: Seq<char>, i: int) -> bool {
    0 <= i && i + pat.len() <= s.len() && s.subrange(i, i + pat.len()) == pat
}

proof fn lemma_find_sub_none(s: Seq<char>, pat: Seq<char>)
    requires
        pat.len() > 0,
        forall|k: int| !#[trigger] match_at(s, pat, k),
    ensures
        find_sub(s, pat) == -1,
    decreases s.len(),
{
    if s.len() > 0 {
        let t = s.drop_last();
        assert forall|k: int| !#[trigger] match_at(t, pat, k) by {
            if match_at(t, pat, k) {
                assert(s.subrange(k, k + pat.len()) =~= t.subrange(k, k + pat.len()));
                assert(match_at(s, pat, k));
            }
        }
        lemma_find_sub_none(t, pat);
        if s.len() >= pat.len() {
            assert(!match_at(s, pat, s.len() - pat.len()));
        }
    }
}

proof fn lemma_find_sub_at(s: Seq<char>, pat: Seq<char>, i: int)
    requires
        pat.len() > 0,
        match_at(s, pat, i),
        forall|k: int| k < i ==> !#[trigger] match_at(s, pat, k),
    ensures
        find_sub(s, pat) == i,
    decreases s.len(),
{
    let t = s.drop_last();
    if i + pat.len() == s.len() {
        assert forall|k: int| !#[trigger] match_at(t, pat, k) by {
            if match_at(t, pat, k) {
                assert(s.subrange(k, k + pat.len()) =~= t.subrange(k, k + pat.len()));
                assert(match_at(s, pat, k));
            }
        }
        lemma_find_sub_none(t, pat);
    } else {
        assert(t.subrange(i, i + pat.len()) =~= s.subrange(i, i + pat.len()));
        assert forall|k: int| k < i implies !#[trigger] match_at(t, pat, k) by {
            if match_at(t, pat, k) {
                assert(s.subrange(k, k + pat.len()) =~= t.subrange(k, k + pat.len()));
                assert(match_at(s, pat, k));
            }
        }
        lemma_find_sub_at(t, pat, i);
    }
}

/// Whether `v[i..i + pat.len()]` equals `pat` (false when it runs past `hi`).
pub fn matches_at(v: &Vec<char>, i: usize, hi: usize, pat: &Vec<char>) -> (b: bool)
    requires
        i <= hi <= v.len(),
    ensures
        b == (i + pat.len() <= hi && v@.subrange(i as int, i + pat.len()) == pat@),
{
    if pat.len() > hi - i {
        return false;
    }
    let mut k: usize = 0;
    while k < pat.len()
        invariant
            i + pat.len() <= hi <= v.len(),
            k <= pat.len(),
            forall|j: int| 0 <= j < k ==> v@[i + j] == #[trigger] pat@[j],
        decreases pat.len() - k,
    {
        if v[i + k] != pat[k] {
            assert(v@.subrange(i as int, i + pat.len())[k as int] != pat@[k as int]);
            return false;
        }
        k += 1;
    }
    assert(v@.subrange(i as int, i + pat.len()) =~= pat@);
    true
}

/// Absolute index of the first occurrence of a non-empty `pat` in `v[lo..hi]`.
pub fn find_sub_in(v: &Vec<char>, lo: usize, hi: usize, pat: &Vec<char>) -> (r: Option<usize>)
    requires
        lo <= hi <= v.len(),
        pat.len() > 0,
    ensures
        match r {
            Some(i) => lo <= i && i + pat.len() <= hi && find_sub(
                v@.subrange(lo as int, hi as int),
                pat@,
            ) == i - lo,
            None => find_sub(v@.subrange(lo as int, hi as int), pat@) == -1,
        },
{
    let ghost s = v@.subrange(lo as int, hi as int);
    let mut i = lo;
    while i < hi
        invariant
            lo <= i <= hi <= v.len(),
            s == v@.subrange(lo as int, hi as int),
            pat.len() > 0,
            forall|k: int| k < i - lo ==> !#[trigger] match_at(s, pat@, k),
        decreases hi - i,
    {
        let m = matches_at(v, i, hi, pat);
        if m {
            proof {
                assert(s.subrange(i - lo, i - lo + pat.len()) =~= v@.subrange(
                    i as int,
                    i + pat.len(),
                ));
                lemma_find_sub_at(s, pat@, i - lo);
            }
            return Some(i);
        }
        proof {
            if match_at(s, pat@, i - lo) {
                assert(s.subrange(i - lo, i - lo + pat.len()) =~= v@.subrange(
                    i as int,
                    i + pat.len(),
                ));
            }
        }
        i += 1;
    }
    proof {
        assert forall|k: int| !#[trigger] match_at(s, pat@, k) by {}
        lemma_find_sub_none(s, pat@);
    }
    None
}

/// Whether `v[lo..hi]` equals `w`.
pub fn range_eq(v: &Vec<char>, lo: usize, hi: usize, w: &Vec<char>) -> (b: bool)
    requires
        lo <= hi <= v.len(),
    ensures
        b == (v@.subrange(lo as int, hi as int) == w@),
{
    if hi - lo != w.len() {
        return false;
    }
    matches_at(v, lo, hi, w)
}

/// Whether `v[lo..hi]` starts with `w`.
pub fn range_starts_with(v: &Vec<char>, lo: usize, hi: usize, w: &Vec<char>) -> (b: bool)
    requires
        lo <= hi <= v.len(),
    ensures
        b == (w.len() <= hi - lo && v@.subrange(lo as int, hi as int).take(w.len() as int)
            == w@),
{
    let b = matches_at(v, lo, hi, w);
    proof {
        if w.len() <= hi - lo {
            assert(v@.subrange(lo as int, hi as int).take(w.len() as int) =~= v@.subrange(
                lo as int,
                lo + w.len(),
            ));
        }
    }
    b
}

} // verus!

verus! {

/// Value of an ASCII digit or letter (`char::to_digit(36)`), 99 otherwise.
pub open spec fn digit_of(c: char) -> int {
    let u = c as u32;
    if 48 <= u <= 57 {
        u - 48
    } else if 97 <= u <= 122 {
        u - 87
    } else if 65 <= u <= 90 {
        u - 55
    } else {
        99
    }
}

pub open spec fn all_digits(s: Seq<char>, radix: int) -> bool {
    forall|i: int| 0 <= i < s.len() ==> #[trigger] digit_of(s[i]) < radix
}

/// Positional value of `s` in base `radix`.
pub open spec fn radix_val(s: Seq<char>, radix: int) -> int
    decreases s.len(),
{
    if s.len() == 0 {
        0
    } else {
        radix_val(s.drop_last(), radix) * radix + digit_of(s.last())
    }
}

/// The digits of an unsigned number: one leading `+` is allowed.
pub open spec fn unsigned_digits(s: Seq<char>) -> Seq<char> {
    if s.len() > 0 && s[0] == '+' {
        s.drop_first()
    } else {
        s
    }
}

/// `from_str_radix` for an unsigned integer type whose largest value is `max`.
pub open spec fn parse_unsigned(s: Seq<char>, radix: int, max: int) -> Option<int> {
    let t = unsigned_digits(s);
    if t.len() > 0 && all_digits(t, radix) && radix_val(t, radix) <= max {
        Some(radix_val(t, radix))
    } else {
        None
    }
}

/// `str::parse::<i64>`.
pub open spec fn parse_i64_spec(s: Seq<char>) -> Option<int> {
    if s.len() > 0 && s[0] == '-' {
        let t = s.drop_first();
        if t.len() > 0 && all_digits(t, 10) && radix_val(t, 10) <= 0x8000_0000_0000_0000 {
            Some(-radix_val(t, 10))
        } else {
            None
        }
    } else {
        parse_unsigned(s, 10, i64::MAX as int)
    }
}

/// `s.parse::<u64>().unwrap_or(0)`.
pub open spec fn u64_field(s: Seq<char>) -> u64 {
    match parse_unsigned(s, 10, u64::MAX as int) {
        Some(x) => x as u64,
        None => 0,
    }
}

/// `s.parse::<i64>().unwrap_or(0)`.
pub open spec fn i64_field(s: Seq<char>) -> i64 {
    match parse_i64_spec(s) {
        Some(x) => x as i64,
        None => 0,
    }
}

pub proof fn lemma_radix_val_nonneg(s: Seq<char>, radix: int)
    requires
        radix >= 1,
    ensures
        radix_val(s, radix) >= 0,
    decreases s.len(),
{
    if s.len() > 0 {
        lemma_radix_val_nonneg(s.drop_last(), radix);
        assert(radix_val(s.drop_last(), radix) * radix >= 0) by (nonlinear_arith)
            requires
                radix_val(s.drop_last(), radix) >= 0,
                radix >= 1,
        ;
    }
}

pub proof fn lemma_radix_val_prefix(s: Seq<char>, radix: int, k: int)
    requires
        radix >= 1,
        0 <= k <= s.len(),
    ensures
        radix_val(s.take(k), radix) <= radix_val(s, radix),
    decreases s.len(),
{
    if k == s.len() {
        assert(s.take(k) =~= s);
    } else {
        let t = s.drop_last();
        lemma_radix_val_prefix(t, radix, k);
        assert(t.take(k) =~= s.take(k));
        lemma_radix_val_nonneg(t, radix);
        let a = radix_val(t, radix);
        assert(a * radix >= a) by (nonlinear_arith)
            requires
                a >= 0,
                radix >= 1,
        ;
    }
}

pub fn digit_value(c: char) -> (d: u32)
    ensures
        d == digit_of(c),
{
    let u = c as u32;
    if 48 <= u && u <= 57 {
        u - 48
    } else if 97 <= u && u <= 122 {
        u - 87
    } else if 65 <= u && u <= 90 {
        u - 55
    } else {
        99
    }
}

/// Digits `v[lo..hi]` in base `radix` (no sign), when they form a value `<= max`.
fn parse_digits(v: &Vec<char>, lo: usize, hi: usize, radix: u64, max: u64) -> (r: Option<u64>)
    requires
        lo <= hi <= v.len(),
        2 <= radix <= 36,
    ensures
        match r {
            Some(x) => hi > lo && all_digits(v@.subrange(lo as int, hi as int), radix as int)
                && radix_val(v@.subrange(lo as int, hi as int), radix as int) == x && x <= max,
            None => !(hi > lo && all_digits(v@.subrange(lo as int, hi as int), radix as int)
                && radix_val(v@.subrange(lo as int, hi as int), radix as int) <= max),
        },
{
    let ghost s = v@.subrange(lo as int, hi as int);
    if hi == lo {
        return None;
    }
    let mut acc: u64 = 0;
    let mut i = lo;
    assert(s.take(0) =~= Seq::<char>::empty());
    while i < hi
        invariant
            lo <= i <= hi <= v.len(),
            2 <= radix <= 36,
            s == v@.subrange(lo as int, hi as int),
            all_digits(s.take(i - lo), radix as int),
            radix_val(s.take(i - lo), radix as int) == acc,
            acc <= max,
        decreases hi - i,
    {
        let d = digit_value(v[i]) as u64;
        assert(s.take(i - lo + 1).drop_last() =~= s.take(i - lo));
        assert(s.take(i - lo + 1).last() == v@[i as int]);
        if d >= radix {
            assert(s[i - lo] == v@[i as int]);
            return None;
        }
        if d > max || acc > (max - d) / radix {
            proof {
                if d <= max {
                    let q = (max - d) as int / radix as int;
                    assert(acc * radix + d > max) by (nonlinear_arith)
                        requires
                            acc > q,
                            q == (max - d) as int / radix as int,
                            radix >= 2,
                            d <= max,
                    ;
                } else {
                    assert(acc * radix >= 0) by (nonlinear_arith)
                        requires
                            acc >= 0,
                            radix >= 2,
                    ;
                }
                if all_digits(s, radix as int) {
                    lemma_radix_val_prefix(s, radix as int, i - lo + 1);
                }
            }
            return None;
        }
        proof {
            let q = (max - d) as int / radix as int;
            assert(acc * radix + d <= max) by (nonlinear_arith)
                requires
                    acc <= q,
                    q == (max - d) as int / radix as int,
                    radix >= 2,
                    d <= max,
            ;
            assert forall|j: int| 0 <= j < i - lo + 1 implies #[trigger] digit_of(
                s.take(i - lo + 1)[j],
            ) < radix by {
                if j < i - lo {
                    assert(s.take(i - lo + 1)[j] == s.take(i - lo)[j]);
                }
            }
        }
        acc = acc * radix + d;
        i += 1;
    }
    assert(s.take(hi - lo) =~= s);
    Some(acc)
}

/// `u64::from_str_radix(v[lo..hi], radix)` for an unsigned type bounded by `max`.
pub fn parse_radix(v: &Vec<char>, lo: usize, hi: usize, radix: u64, max: u64) -> (r: Option<u64>)
    requires
        lo <= hi <= v.len(),
        2 <= radix <= 36,
    ensures
        r matches Some(x) ==> parse_unsigned(v@.subrange(lo as int, hi as int), radix as int, max as int) == Some(x as int),
        r is None ==> parse_unsigned(v@.subrange(lo as int, hi as int), radix as int, max as int) is None,
{
    let ghost s = v@.subrange(lo as int, hi as int);
    if lo < hi && v[lo] == '+' {
        assert(s.drop_first() =~= v@.subrange(lo + 1, hi as int));
        parse_digits(v, lo + 1, hi, radix, max)
    } else {
        parse_digits(v, lo, hi, radix, max)
    }
}

/// `v[lo..hi].parse::<u64>().unwrap_or(0)`.
pub fn u64_field_of(v: &Vec<char>, lo: usize, hi: usize) -> (x: u64)
    requires
        lo <= hi <= v.len(),
    ensures
        x == u64_field(v@.subrange(lo as int, hi as int)),
{
    match parse_radix(v, lo, hi, 10, u64::MAX) {
        Some(x) => x,
        None => 0,
    }
}

/// `v[lo..hi].parse::<i64>()`.
pub fn parse_i64(v: &Vec<char>, lo: usize, hi: usize) -> (r: Option<i64>)
    requires
        lo <= hi <= v.len(),
    ensures
        r matches Some(x) ==> parse_i64_spec(v@.subrange(lo as int, hi as int)) == Some(x as int),
        r is None ==> parse_i64_spec(v@.subrange(lo as int, hi as int)) is None,
{
    let ghost s = v@.subrange(lo as int, hi as int);
    if lo < hi && v[lo] == '-' {
        assert(s.drop_first() =~= v@.subrange(lo + 1, hi as int));
        match parse_digits(v, lo + 1, hi, 10, 0x8000_0000_0000_0000u64) {
            Some(x) => {
                if x == 0x8000_0000_0000_0000u64 {
                    Some(i64::MIN)
                } else {
                    Some(-(x as i64))
                }
            },
            None => None,
        }
    } else {
        match parse_radix(v, lo, hi, 10, i64::MAX as u64) {
            Some(x) => Some(x as i64),
            None => None,
        }
    }
}

/// `v[lo..hi].parse::<i64>().unwrap_or(0)`.
pub fn i64_field_of(v: &Vec<char>, lo: usize, hi: usize) -> (x: i64)
    requires
        lo <= hi <= v.len(),
    ensures
        x == i64_field(v@.subrange(lo as int, hi as int)),
{
    match parse_i64(v, lo, hi) {
        Some(x) => x,
        None => 0,
    }
}

} // verus!

verus! {

/// `v[lo..hi].split_once(c)`, as the index of the separator.
pub fn split_once_in(v: &Vec<char>, lo: usize, hi: usize, c: char) -> (r: Option<usize>)
    requires
        lo <= hi <= v.len(),
    ensures
        match r {
            Some(i) => lo <= i < hi && split_once_char(v@.subrange(lo as int, hi as int), c)
                == Some((v@.subrange(lo as int, i as int), v@.subrange(i + 1, hi as int))),
            None => split_once_char(v@.subrange(lo as int, hi as int), c) is None,
        },
{
    let r = find_char_in(v, lo, hi, c);
    if let Some(i) = r {
        let ghost s = v@.subrange(lo as int, hi as int);
        assert(s.take(i - lo) =~= v@.subrange(lo as int, i as int));
        assert(s.skip(i - lo + 1) =~= v@.subrange(i + 1, hi as int));
    }
    r
}

} // verus!

verus! {

pub open spec fn starts_with(s: Seq<char>, p: Seq<char>) -> bool {
    p.len() <= s.len() && s.take(p.len() as int) == p
}

/// `char::to_ascii_lowercase`.
pub open spec fn ascii_lower(c: char) -> char {
    if 65 <= c as u32 <= 90 {
        ((c as u32 + 32) as u8) as char
    } else {
        c
    }
}

pub fn ascii_lower_char(c: char) -> (d: char)
    ensures
        d == ascii_lower(c),
{
    let u = c as u32;
    if 65 <= u && u <= 90 {
        ((u + 32) as u8) as char
    } else {
        c
    }
}

/// A copy of `v[lo..hi]`.
pub fn copy_range(v: &Vec<char>, lo: usize, hi: usize) -> (w: Vec<char>)
    requires
        lo <= hi <= v.len(),
    ensures
        w@ == v@.subrange(lo as int, hi as int),
{
    let mut w: Vec<char> = Vec::new();
    let mut i = lo;
    while i < hi
        invariant
            lo <= i <= hi <= v.len(),
            w@ == v@.subrange(lo as int, i as int),
        decreases hi - i,
    {
        w.push(v[i]);
        assert(w@ == v@.subrange(lo as int, i + 1));
        i += 1;
    }
    w
}

/// A lower-cased (ASCII only) copy of `v[lo..hi]`.
pub fn lower_range(v: &Vec<char>, lo: usize, hi: usize) -> (w: Vec<char>)
    requires
        lo <= hi <= v.len(),
    ensures
        w@ == v@.subrange(lo as int, hi as int).map_values(|c: char| ascii_lower(c)),
{
    let mut w: Vec<char> = Vec::new();
    let mut i = lo;
    while i < hi
        invariant
            lo <= i <= hi <= v.len(),
            w@ == v@.subrange(lo as int, i as int).map_values(|c: char| ascii_lower(c)),
        decreases hi - i,
    {
        w.push(ascii_lower_char(v[i]));
        assert(w@ =~= v@.subrange(lo as int, i + 1).map_values(|c: char| ascii_lower(c)));
        i += 1;
    }
    w
}

} // verus!

verus! {

/// `Iterator::skip(n)` on a sequence: empty when it has fewer than `n` items.
pub open spec fn drop_n<A>(s: Seq<A>, n: int) -> Seq<A> {
    if n <= s.len() {
        s.skip(n)
    } else {
        Seq::empty()
    }
}

} // verus!

verus! {

/// The ASCII digit for `d < 10`.
pub open spec fn digit_char(d: int) -> char {
    (d + 48) as char
}

/// Decimal digits of `n`, without leading zeros (`"0"` for zero).
pub open spec fn decimal(n: nat) -> Seq<char>
    decreases n,
{
    if n < 10 {
        seq![digit_char(n as int)]
    } else {
        decimal(n / 10).push(digit_char((n % 10) as int))
    }
}

/// Decimal text of a signed integer, as `Display` writes it.
pub open spec fn signed_decimal(n: int) -> Seq<char> {
    if n < 0 {
        seq!['-'] + decimal((-n) as nat)
    } else {
        decimal(n as nat)
    }
}

/// Appends all of `t` to `s`.
pub fn push_all(s: &mut String, t: &str)
    ensures
        final(s)@ == old(s)@ + t@,
{
    let v = chars_of(t);
    let mut i: usize = 0;
    while i < v.len()
        invariant
            i <= v@.len(),
            v@ == t@,
            s@ == old(s)@ + v@.subrange(0, i as int),
        decreases v.len() - i,
    {
        push_char(s, v[i]);
        assert(v@.subrange(0, i + 1) == v@.subrange(0, i as int).push(v@[i as int]));
        i += 1;
    }
    assert(v@.subrange(0, v@.len() as int) == v@);
}

/// Appends the decimal digits of `n`.
pub fn push_decimal(s: &mut String, n: u64)
    ensures
        final(s)@ == old(s)@ + decimal(n as nat),
    decreases n,
{
    if n >= 10 {
        push_decimal(s, n / 10);
    }
    let d: u8 = (n % 10) as u8;
    let c = (48 + d) as char;
    push_char(s, c);
    proof {
        if n >= 10 {
            assert(old(s)@ + decimal(n as nat) == old(s)@ + decimal((n / 10) as nat) + seq![c]);
        } else {
            assert(decimal(n as nat) == seq![c]);
        }
    }
}

/// Appends the decimal text of a signed `n`.
pub fn push_signed_decimal(s: &mut String, n: i64)
    ensures
        final(s)@ == old(s)@ + signed_decimal(n as int),
{
    if n < 0 {
        push_char(s, '-');
        let m: u64 = (0 - (n as i128)) as u64;
        push_decimal(s, m);
        assert(final(s)@ == old(s)@ + (seq!['-'] + decimal((-n) as nat)));
    } else {
        push_decimal(s, n as u64);
    }
}

} // verus!

verus! {

/// Ranges of the pieces of `v[lo..hi]` between occurrences of `sep`
/// (`str::split` on a char).
pub fn split_ranges(v: &Vec<char>, lo: usize, hi: usize, sep: char) -> (r: Vec<(usize, usize)>)
    requires
        lo <= hi <= v.len(),
    ensures
        r@.len() == split_on(v@.subrange(lo as int, hi as int), sep).len(),
        forall|j: int| 0 <= j < r@.len() ==> lo <= #[trigger] r@[j].0 <= r@[j].1 <= hi,
        forall|j: int|
            0 <= j < r@.len() ==> #[trigger] v@.subrange(r@[j].0 as int, r@[j].1 as int)
                == split_on(v@.subrange(lo as int, hi as int), sep)[j],
{
    let ghost s = v@.subrange(lo as int, hi as int);
    let mut r: Vec<(usize, usize)> = Vec::new();
    let mut start: usize = lo;
    let mut i: usize = lo;
    assert(s.take(0) =~= Seq::<char>::empty());
    while i < hi
        invariant
            lo <= start <= i <= hi <= v.len(),
            s == v@.subrange(lo as int, hi as int),
            split_on(s.take(i - lo), sep).len() == r@.len() + 1,
            split_on(s.take(i - lo), sep).last() == v@.subrange(start as int, i as int),
            forall|j: int| 0 <= j < r@.len() ==> lo <= #[trigger] r@[j].0 <= r@[j].1 <= hi,
            forall|j: int|
                0 <= j < r@.len() ==> #[trigger] v@.subrange(r@[j].0 as int, r@[j].1 as int)
                    == split_on(s.take(i - lo), sep)[j],
        decreases hi - i,
    {
        let ghost old_p = split_on(s.take(i - lo), sep);
        let ghost old_r = r@;
        assert(s.take(i - lo + 1).drop_last() =~= s.take(i - lo));
        assert(s.take(i - lo + 1).last() == v@[i as int]);
        let ghost p = split_on(s.take(i - lo + 1), sep);
        if v[i] == sep {
            r.push((start, i));
            assert(p == old_p.push(Seq::empty()));
            assert forall|j: int| 0 <= j < r@.len() implies #[trigger] v@.subrange(
                r@[j].0 as int,
                r@[j].1 as int,
            ) == p[j] by {
                if j < old_r.len() {
                    assert(r@[j] == old_r[j]);
                    assert(p[j] == old_p[j]);
                } else {
                    assert(p[j] == old_p.last());
                }
            }
            start = i + 1;
            assert(v@.subrange(start as int, i + 1) =~= Seq::<char>::empty());
        } else {
            assert(p == old_p.update(old_p.len() - 1, old_p.last().push(v@[i as int])));
            assert(v@.subrange(start as int, i + 1) =~= v@.subrange(start as int, i as int).push(
                v@[i as int],
            ));
            assert forall|j: int| 0 <= j < r@.len() implies #[trigger] v@.subrange(
                r@[j].0 as int,
                r@[j].1 as int,
            ) == p[j] by {
                assert(p[j] == old_p[j]);
            }
        }
        i += 1;
    }
    assert(s.take(hi - lo) =~= s);
    let ghost p = split_on(s, sep);
    let ghost old_r = r@;
    r.push((start, hi));
    assert forall|j: int| 0 <= j < r@.len() implies #[trigger] v@.subrange(
        r@[j].0 as int,
        r@[j].1 as int,
    ) == p[j] by {
        if j < old_r.len() {
            assert(r@[j] == old_r[j]);
        }
    }
    r
}

/// Why `str::parse` of an integer failed (`IntErrorKind`).
#[derive(Debug, Clone, Copy, PartialEq, Eq, Structural)]
pub enum IntError {
    Empty,
    InvalidDigit,
    PosOverflow,
    NegOverflow,
}

impl IntError {
    /// The error's `Display` text.
    pub open spec fn message(self) -> Seq<char> {
        match self {
            IntError::Empty => "cannot parse integer from empty string"@,
            IntError::InvalidDigit => "invalid digit found in string"@,
            IntError::PosOverflow => "number too large to fit in target type"@,
            IntError::NegOverflow => "number too small to fit in target type"@,
        }
    }

    pub fn text(self) -> (r: &'static str)
        ensures
            r@ == self.message(),
    {
        match self {
            IntError::Empty => "cannot parse integer from empty string",
            IntError::InvalidDigit => "invalid digit found in string",
            IntError::PosOverflow => "number too large to fit in target type",
            IntError::NegOverflow => "number too small to fit in target type",
        }
    }
}

/// Scans decimal digits left to right from `acc` (subtracting each digit
/// when `neg`), stopping at the first bad digit or the first overflow of
/// `[lo, hi]`.
pub open spec fn scan_digits(ds: Seq<char>, acc: int, neg: bool, lo: int, hi: int) -> Result<int, IntError>
    decreases ds.len(),
{
    if ds.len() == 0 {
        Ok(acc)
    } else {
        let d = digit_of(ds[0]);
        if d >= 10 {
            Err(IntError::InvalidDigit)
        } else {
            let next = if neg {
                acc * 10 - d
            } else {
                acc * 10 + d
            };
            if next > hi {
                Err(IntError::PosOverflow)
            } else if next < lo {
                Err(IntError::NegOverflow)
            } else {
                scan_digits(ds.drop_first(), next, neg, lo, hi)
            }
        }
    }
}

/// `str::parse` of an integer type with range `[lo, hi]`: an optional sign
/// (`-` only when `lo < 0`), then decimal digits.
pub open spec fn parse_int(s: Seq<char>, lo: int, hi: int) -> Result<int, IntError> {
    if s.len() == 0 {
        Err(IntError::Empty)
    } else {
        let neg = s[0] == '-' && lo < 0;
        let ds = if s[0] == '+' || neg {
            s.drop_first()
        } else {
            s
        };
        if ds.len() == 0 {
            Err(IntError::InvalidDigit)
        } else {
            scan_digits(ds, 0, neg, lo, hi)
        }
    }
}

/// `v[lo..hi].parse::<i64>()`.
pub fn parse_i64_checked(v: &Vec<char>, lo: usize, hi: usize) -> (r: Result<i64, IntError>)
    requires
        lo <= hi <= v.len(),
    ensures
        match r {
            Ok(x) => parse_int(v@.subrange(lo as int, hi as int), i64::MIN as int, i64::MAX as int) == Ok::<int, IntError>(x as int),
            Err(e) => parse_int(v@.subrange(lo as int, hi as int), i64::MIN as int, i64::MAX as int) == Err::<int, IntError>(e),
        },
{
    let ghost s = v@.subrange(lo as int, hi as int);
    if lo == hi {
        return Err(IntError::Empty);
    }
    assert(s[0] == v@[lo as int]);
    let neg = v[lo] == '-';
    let start = if v[lo] == '+' || neg {
        lo + 1
    } else {
        lo
    };
    if start == hi {
        return Err(IntError::InvalidDigit);
    }
    let ghost ds = v@.subrange(start as int, hi as int);
    assert(ds == (if s[0] == '+' || neg { s.drop_first() } else { s }));
    let mut acc: i64 = 0;
    let mut i = start;
    assert(ds.skip(0) == ds);
    assert(parse_int(s, i64::MIN as int, i64::MAX as int) == scan_digits(ds, 0, neg, i64::MIN as int, i64::MAX as int));
    while i < hi
        invariant
            start <= i <= hi <= v.len(),
            ds == v@.subrange(start as int, hi as int),
            s == v@.subrange(lo as int, hi as int),
            parse_int(s, i64::MIN as int, i64::MAX as int) == scan_digits(ds, 0, neg, i64::MIN as int, i64::MAX as int),
            scan_digits(ds, 0, neg, i64::MIN as int, i64::MAX as int) == scan_digits(
                ds.skip(i - start),
                acc as int,
                neg,
                i64::MIN as int,
                i64::MAX as int,
            ),
        decreases hi - i,
    {
        let ghost rest = ds.skip(i - start);
        assert(rest[0] == v@[i as int]);
        assert(rest.drop_first() == ds.skip(i - start + 1));
        let d = digit_value(v[i]);
        if d >= 10 {
            assert(scan_digits(rest, acc as int, neg, i64::MIN as int, i64::MAX as int) == Err::<int, IntError>(IntError::InvalidDigit));
            return Err(IntError::InvalidDigit);
        }
        let wide: i128 = if neg {
            acc as i128 * 10 - d as i128
        } else {
            acc as i128 * 10 + d as i128
        };
        if wide > i64::MAX as i128 {
            assert(scan_digits(rest, acc as int, neg, i64::MIN as int, i64::MAX as int) == Err::<int, IntError>(IntError::PosOverflow));
            return Err(IntError::PosOverflow);
        }
        if wide < i64::MIN as i128 {
            assert(scan_digits(rest, acc as int, neg, i64::MIN as int, i64::MAX as int) == Err::<int, IntError>(IntError::NegOverflow));
            return Err(IntError::NegOverflow);
        }
        acc = wide as i64;
        i += 1;
    }
    assert(ds.skip(hi - start) =~= Seq::<char>::empty());
    Ok(acc)
}

} // verus!
