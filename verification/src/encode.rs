//! Prometheus text-format (0.0.4) encoding: label escaping, sample lines, and
//! Go's `strconv.FormatFloat(v, 'g', -1, 64)` layout of a float's shortest
//! decimal digits.
//!
//! The shortest round-trip digits of a float come from the `ryu` crate (in the
//! program around this library); `go_float_text` reshapes that text into Go's
//! layout: scientific notation when the decimal exponent is below -4 or at
//! least 6 (exponent with at least two digits), plain decimal otherwise.

use vstd::prelude::*;

use crate::parse::{all_dec, is_dec_digit};
use crate::text::{chars_of, decimal, find_char, find_char_in, push_all, push_char, push_decimal, push_signed_decimal, radix_val, signed_decimal};

verus! {

/// The text `escape_label_value` appends for one character.
pub open spec fn escape_char(c: char) -> Seq<char> {
    if c == '\\' {
        seq!['\\', '\\']
    } else if c == '"' {
        seq!['\\', '"']
    } else if c == '\n' {
        seq!['\\', 'n']
    } else {
        seq![c]
    }
}

/// A label value with backslash, double quote and newline escaped.
pub open spec fn escape_label(s: Seq<char>) -> Seq<char>
    decreases s.len(),
{
    if s.len() == 0 {
        Seq::empty()
    } else {
        escape_label(s.drop_last()) + escape_char(s.last())
    }
}

/// Appends `v` with backslash, double quote and newline escaped.
pub fn escape_label_value(v: &str, out: &mut String)
    ensures
        final(out)@ == old(out)@ + escape_label(v@),
{
    let cs = chars_of(v);
    let mut i: usize = 0;
    while i < cs.len()
        invariant
            i <= cs@.len(),
            cs@ == v@,
            out@ == old(out)@ + escape_label(cs@.take(i as int)),
        decreases cs.len() - i,
    {
        let c = cs[i];
        if c == '\\' {
            push_char(out, '\\');
            push_char(out, '\\');
        } else if c == '"' {
            push_char(out, '\\');
            push_char(out, '"');
        } else if c == '\n' {
            push_char(out, '\\');
            push_char(out, 'n');
        } else {
            push_char(out, c);
        }
        assert(cs@.take(i + 1).drop_last() == cs@.take(i as int));
        i += 1;
    }
    assert(cs@.take(cs@.len() as int) == cs@);
}

/// `k="v"` pairs joined by commas.
pub open spec fn labels_text(labels: Seq<(String, String)>) -> Seq<char>
    decreases labels.len(),
{
    if labels.len() == 0 {
        Seq::empty()
    } else {
        let l = labels.last();
        labels_text(labels.drop_last()) + (if labels.len() > 1 {
            seq![',']
        } else {
            Seq::empty()
        }) + l.0@ + seq!['=', '"'] + escape_label(l.1@) + seq!['"']
    }
}

/// One sample line: `name{labels} value [timestamp_ms]` and a newline.
pub open spec fn sample_text(
    name: Seq<char>,
    labels: Seq<(String, String)>,
    value: Seq<char>,
    timestamp_ms: Option<i64>,
) -> Seq<char> {
    name + (if labels.len() > 0 {
        seq!['{'] + labels_text(labels) + seq!['}']
    } else {
        Seq::empty()
    }) + seq![' '] + value + (match timestamp_ms {
        Some(ts) => seq![' '] + signed_decimal(ts as int),
        None => Seq::empty(),
    }) + seq!['\n']
}

/// Appends one rendered sample line; `value` is the sample's value already
/// formatted as text.
pub fn sample_line(
    out: &mut String,
    name: &str,
    labels: &[(String, String)],
    value: &str,
    timestamp_ms: Option<i64>,
)
    ensures
        final(out)@ == old(out)@ + sample_text(name@, labels@, value@, timestamp_ms),
{
    push_all(out, name);
    let ghost after_name = out@;
    if labels.len() > 0 {
        push_char(out, '{');
        let mut i: usize = 0;
        while i < labels.len()
            invariant
                i <= labels@.len(),
                labels@.len() > 0,
                out@ == after_name + seq!['{'] + labels_text(labels@.take(i as int)),
            decreases labels.len() - i,
        {
            if i > 0 {
                push_char(out, ',');
            }
            push_all(out, labels[i].0.as_str());
            push_char(out, '=');
            push_char(out, '"');
            escape_label_value(labels[i].1.as_str(), out);
            push_char(out, '"');
            assert(labels@.take(i + 1).drop_last() == labels@.take(i as int));
            i += 1;
        }
        assert(labels@.take(labels@.len() as int) == labels@);
        push_char(out, '}');
    }
    push_char(out, ' ');
    push_all(out, value);
    match timestamp_ms {
        Some(ts) => {
            push_char(out, ' ');
            push_signed_decimal(out, ts);
        },
        None => {},
    }
    push_char(out, '\n');
}

// ---------------------------------------------------------------------------
// Go 'g' layout of shortest float digits.
// ---------------------------------------------------------------------------

/// The text without its leading minus sign.
pub open spec fn float_body(t: Seq<char>) -> Seq<char> {
    if t.len() > 0 && t[0] == '-' {
        t.drop_first()
    } else {
        t
    }
}

/// The part before the exponent marker `e`.
pub open spec fn float_mantissa(b: Seq<char>) -> Seq<char> {
    let e = find_char(b, 'e');
    if e >= 0 {
        b.take(e)
    } else {
        b
    }
}

/// The exponent's text, after the `e`.
pub open spec fn float_exp_text(b: Seq<char>) -> Seq<char> {
    b.skip(find_char(b, 'e') + 1)
}

pub open spec fn int_part(m: Seq<char>) -> Seq<char> {
    let d = find_char(m, '.');
    if d >= 0 {
        m.take(d)
    } else {
        m
    }
}

pub open spec fn frac_part(m: Seq<char>) -> Seq<char> {
    let d = find_char(m, '.');
    if d >= 0 {
        m.skip(d + 1)
    } else {
        Seq::empty()
    }
}

/// The exponent's digits, without a minus sign.
pub open spec fn exp_digits(x: Seq<char>) -> Seq<char> {
    if x.len() > 0 && x[0] == '-' {
        x.drop_first()
    } else {
        x
    }
}

pub open spec fn exp_value(x: Seq<char>) -> int {
    if x.len() > 0 && x[0] == '-' {
        -radix_val(x.drop_first(), 10)
    } else {
        radix_val(x, 10)
    }
}

/// The shapes `ryu` prints a finite float in: an optional minus sign, then
/// `I.F` (`I` either `0` or without leading zeros), or `D[.F]e[-]X` with one
/// nonzero digit `D` and a one- to three-digit exponent.
pub open spec fn ryu_shape(t: Seq<char>) -> bool {
    let b = float_body(t);
    let m = float_mantissa(b);
    let ip = int_part(m);
    let fp = frac_part(m);
    &&& t.len() <= 40
    &&& ip.len() > 0
    &&& all_dec(ip)
    &&& (find_char(m, '.') >= 0 ==> fp.len() > 0 && all_dec(fp))
    &&& if find_char(b, 'e') >= 0 {
        let xd = exp_digits(float_exp_text(b));
        &&& ip.len() == 1
        &&& ip[0] != '0'
        &&& 1 <= xd.len() <= 3
        &&& all_dec(xd)
    } else {
        ip == seq!['0'] || ip[0] != '0'
    }
}

/// The text without its trailing zeros.
pub open spec fn trim_zeros_end(s: Seq<char>) -> Seq<char>
    decreases s.len(),
{
    if s.len() > 0 && s.last() == '0' {
        trim_zeros_end(s.drop_last())
    } else {
        s
    }
}

/// How many zeros the text starts with.
pub open spec fn lead_zeros(s: Seq<char>) -> int
    decreases s.len(),
{
    if s.len() > 0 && s[0] == '0' {
        1 + lead_zeros(s.drop_first())
    } else {
        0
    }
}

/// The significant digits (before trailing zeros are trimmed) and the decimal
/// exponent of the first of them.
pub open spec fn raw_digits(t: Seq<char>) -> (Seq<char>, int) {
    let b = float_body(t);
    let m = float_mantissa(b);
    let ip = int_part(m);
    let fp = frac_part(m);
    if find_char(b, 'e') >= 0 {
        (ip + fp, exp_value(float_exp_text(b)))
    } else if ip == seq!['0'] {
        (fp.skip(lead_zeros(fp)), -lead_zeros(fp) - 1)
    } else {
        (ip + fp, ip.len() - 1)
    }
}

/// The significant digits without trailing zeros (`0` for zero) and the
/// decimal exponent of the first one.
pub open spec fn sig_digits(t: Seq<char>) -> (Seq<char>, int) {
    let (d0, x) = raw_digits(t);
    let d = trim_zeros_end(d0);
    if d.len() == 0 {
        (seq!['0'], 0)
    } else {
        (d, x)
    }
}

pub open spec fn zeros(n: int) -> Seq<char> {
    Seq::new(n as nat, |i: int| '0')
}

/// Go's `%g` layout of significant digits `d` whose first digit has decimal
/// exponent `exp`.
pub open spec fn go_g(d: Seq<char>, exp: int) -> Seq<char> {
    if exp < -4 || exp >= 6 {
        let a = if exp < 0 {
            -exp
        } else {
            exp
        };
        seq![d[0]] + (if d.len() > 1 {
            seq!['.'] + d.drop_first()
        } else {
            Seq::empty()
        }) + seq!['e'] + (if exp >= 0 {
            seq!['+']
        } else {
            seq!['-']
        }) + (if a < 10 {
            seq!['0']
        } else {
            Seq::empty()
        }) + decimal(a as nat)
    } else if exp >= d.len() - 1 {
        d + zeros(exp - (d.len() - 1))
    } else if exp >= 0 {
        d.take(exp + 1) + seq!['.'] + d.skip(exp + 1)
    } else {
        seq!['0', '.'] + zeros(-exp - 1) + d
    }
}

/// Go's layout of the float that `ryu` printed as `t`.
pub open spec fn go_text(t: Seq<char>) -> Seq<char> {
    let (d, x) = sig_digits(t);
    (if t.len() > 0 && t[0] == '-' {
        seq!['-']
    } else {
        Seq::empty()
    }) + go_g(d, x)
}

/// Appends `v[lo..hi]`.
fn push_range(s: &mut String, v: &Vec<char>, lo: usize, hi: usize)
    requires
        lo <= hi <= v.len(),
    ensures
        final(s)@ == old(s)@ + v@.subrange(lo as int, hi as int),
{
    let mut i = lo;
    while i < hi
        invariant
            lo <= i <= hi <= v.len(),
            s@ == old(s)@ + v@.subrange(lo as int, i as int),
        decreases hi - i,
    {
        push_char(s, v[i]);
        assert(v@.subrange(lo as int, i + 1) == v@.subrange(lo as int, i as int).push(v@[i as int]));
        i += 1;
    }
}

/// Appends `n` zeros.
fn push_zeros(s: &mut String, n: usize)
    ensures
        final(s)@ == old(s)@ + zeros(n as int),
{
    let mut i: usize = 0;
    while i < n
        invariant
            i <= n,
            s@ == old(s)@ + zeros(i as int),
        decreases n - i,
    {
        push_char(s, '0');
        assert(zeros(i + 1) == zeros(i as int).push('0'));
        i += 1;
    }
}

proof fn lemma_trim_zeros_step(s: Seq<char>, h: int)
    requires
        0 < h <= s.len(),
        s[h - 1] == '0',
    ensures
        trim_zeros_end(s.take(h)) == trim_zeros_end(s.take(h - 1)),
{
    assert(s.take(h).drop_last() == s.take(h - 1));
}

proof fn lemma_lead_zeros_step(s: Seq<char>, z: int)
    requires
        0 <= z < s.len(),
        s[z] == '0',
    ensures
        lead_zeros(s.skip(z)) == 1 + lead_zeros(s.skip(z + 1)),
{
    assert(s.skip(z).drop_first() == s.skip(z + 1));
}

/// Appends `v[lo..hi]` to `d`.
fn collect(d: &mut Vec<char>, v: &Vec<char>, lo: usize, hi: usize)
    requires
        lo <= hi <= v.len(),
    ensures
        final(d)@ == old(d)@ + v@.subrange(lo as int, hi as int),
{
    let mut i = lo;
    while i < hi
        invariant
            lo <= i <= hi <= v.len(),
            d@ == old(d)@ + v@.subrange(lo as int, i as int),
        decreases hi - i,
    {
        d.push(v[i]);
        assert(v@.subrange(lo as int, i + 1) == v@.subrange(lo as int, i as int).push(v@[i as int]));
        i += 1;
    }
}

/// The value of the one to three decimal digits `v[lo..hi]`.
fn small_decimal(v: &Vec<char>, lo: usize, hi: usize) -> (r: i32)
    requires
        lo <= hi <= v.len(),
        hi - lo <= 3,
        all_dec(v@.subrange(lo as int, hi as int)),
    ensures
        r == radix_val(v@.subrange(lo as int, hi as int), 10),
        0 <= r < 1000,
{
    let mut r: i32 = 0;
    let mut i = lo;
    while i < hi
        invariant
            lo <= i <= hi <= v.len(),
            hi - lo <= 3,
            all_dec(v@.subrange(lo as int, hi as int)),
            r == radix_val(v@.subrange(lo as int, i as int), 10),
            0 <= r,
            i - lo == 0 ==> r < 1,
            i - lo == 1 ==> r < 10,
            i - lo == 2 ==> r < 100,
            i - lo == 3 ==> r < 1000,
        decreases hi - i,
    {
        assert(v@.subrange(lo as int, hi as int)[i - lo] == v@[i as int]);
        let c = v[i] as u32;
        let dgt: i32 = (c - 48) as i32;
        assert(v@.subrange(lo as int, i + 1).drop_last() == v@.subrange(lo as int, i as int));
        r = r * 10 + dgt;
        i += 1;
    }
    r
}

/// Index of the first non-`0` in `v[lo..hi]` (or `hi`).
fn skip_zeros(v: &Vec<char>, lo: usize, hi: usize) -> (z: usize)
    requires
        lo <= hi <= v.len(),
    ensures
        lo <= z <= hi,
        z - lo == lead_zeros(v@.subrange(lo as int, hi as int)),
{
    let ghost s = v@.subrange(lo as int, hi as int);
    let mut z = lo;
    assert(s.skip(0) == s);
    while z < hi && v[z] == '0'
        invariant
            lo <= z <= hi <= v.len(),
            s == v@.subrange(lo as int, hi as int),
            lead_zeros(s) == (z - lo) + lead_zeros(s.skip(z - lo)),
        decreases hi - z,
    {
        proof {
            assert(s[z - lo] == v@[z as int]);
            lemma_lead_zeros_step(s, z - lo);
        }
        z += 1;
    }
    proof {
        let r = s.skip(z - lo);
        if z < hi {
            assert(r[0] == v@[z as int]);
        }
    }
    z
}

/// Length of `d` without its trailing zeros.
fn trimmed_len(d: &Vec<char>) -> (h: usize)
    ensures
        h <= d.len(),
        d@.take(h as int) == trim_zeros_end(d@),
{
    let mut h = d.len();
    assert(d@.take(h as int) == d@);
    while h > 0 && d[h - 1] == '0'
        invariant
            h <= d.len(),
            trim_zeros_end(d@) == trim_zeros_end(d@.take(h as int)),
        decreases h,
    {
        proof {
            lemma_trim_zeros_step(d@, h as int);
        }
        h -= 1;
    }
    proof {
        let t = d@.take(h as int);
        if h > 0 {
            assert(t.last() == d@[h - 1]);
        }
    }
    h
}

/// Appends Go's `%g` layout of digits `d` (nonempty) with exponent `exp`.
fn push_go_g(out: &mut String, d: &Vec<char>, exp: i32)
    requires
        d.len() >= 1,
        d.len() <= 64,
        -2000 < exp < 2000,
    ensures
        final(out)@ == old(out)@ + go_g(d@, exp as int),
{
    let n = d.len();
    let last: i32 = n as i32 - 1;
    if exp < -4 || exp >= 6 {
        push_char(out, d[0]);
        if n > 1 {
            push_char(out, '.');
            push_range(out, d, 1, n);
            assert(d@.subrange(1, n as int) == d@.drop_first());
        }
        push_char(out, 'e');
        if exp >= 0 {
            push_char(out, '+');
        } else {
            push_char(out, '-');
        }
        let a: i32 = if exp < 0 {
            -exp
        } else {
            exp
        };
        if a < 10 {
            push_char(out, '0');
        }
        push_decimal(out, a as u64);
    } else if exp >= last {
        push_range(out, d, 0, n);
        assert(d@.subrange(0, n as int) == d@);
        push_zeros(out, (exp - last) as usize);
    } else if exp >= 0 {
        let k = (exp + 1) as usize;
        push_range(out, d, 0, k);
        push_char(out, '.');
        push_range(out, d, k, n);
        assert(d@.subrange(0, k as int) == d@.take(k as int));
        assert(d@.subrange(k as int, n as int) == d@.skip(k as int));
    } else {
        push_char(out, '0');
        push_char(out, '.');
        push_zeros(out, (-exp - 1) as usize);
        push_range(out, d, 0, n);
        assert(d@.subrange(0, n as int) == d@);
    }
}

/// The significant digits (untrimmed) and exponent of `ryu`'s text `v`.
#[verifier::rlimit(40)]
fn raw_digits_of(v: &Vec<char>) -> (r: (Vec<char>, i32))
    requires
        ryu_shape(v@),
    ensures
        r.0@ == raw_digits(v@).0,
        r.1 == raw_digits(v@).1,
        r.0.len() <= 40,
        -2000 < r.1 < 2000,
{
    let n = v.len();
    let neg = n > 0 && v[0] == '-';
    let b0: usize = if neg {
        1
    } else {
        0
    };
    let ghost t = v@;
    let ghost b = float_body(t);
    assert(b == v@.subrange(b0 as int, n as int));
    let e = find_char_in(v, b0, n, 'e');
    let me: usize = match e {
        Some(i) => i,
        None => n,
    };
    let ghost m = float_mantissa(b);
    assert(m == v@.subrange(b0 as int, me as int));
    let dot = find_char_in(v, b0, me, '.');
    let (ie, fs): (usize, usize) = match dot {
        Some(d) => (d, d + 1),
        None => (me, me),
    };
    let ghost ip = int_part(m);
    let ghost fp = frac_part(m);
    assert(ip == v@.subrange(b0 as int, ie as int));
    assert(fp == v@.subrange(fs as int, me as int));
    let mut digits: Vec<char> = Vec::new();
    match e {
        Some(ei) => {
            collect(&mut digits, v, b0, ie);
            collect(&mut digits, v, fs, me);
            let ghost x = float_exp_text(b);
            assert(x == v@.subrange(ei + 1, n as int));
            let xneg = ei + 1 < n && v[ei + 1] == '-';
            let k: usize = if xneg {
                ei + 2
            } else {
                ei + 1
            };
            assert(exp_digits(x) == v@.subrange(k as int, n as int));
            let val = small_decimal(v, k, n);
            let exp = if xneg {
                -val
            } else {
                val
            };
            (digits, exp)
        },
        None => {
            if ie - b0 == 1 && v[b0] == '0' {
                assert(ip == seq!['0']);
                let z = skip_zeros(v, fs, me);
                collect(&mut digits, v, z, me);
                assert(v@.subrange(z as int, me as int) == fp.skip(lead_zeros(fp)));
                (digits, -((z - fs) as i32) - 1)
            } else {
                assert(ip != seq!['0']);
                collect(&mut digits, v, b0, ie);
                collect(&mut digits, v, fs, me);
                (digits, (ie - b0) as i32 - 1)
            }
        },
    }
}

/// Whether `v[lo..hi]` is all decimal digits.
fn dec_run(v: &Vec<char>, lo: usize, hi: usize) -> (b: bool)
    requires
        lo <= hi <= v.len(),
    ensures
        b == all_dec(v@.subrange(lo as int, hi as int)),
{
    let ghost s = v@.subrange(lo as int, hi as int);
    let mut i = lo;
    while i < hi
        invariant
            lo <= i <= hi <= v.len(),
            s == v@.subrange(lo as int, hi as int),
            forall|k: int| 0 <= k < i - lo ==> is_dec_digit(#[trigger] s[k]),
        decreases hi - i,
    {
        let c = v[i] as u32;
        assert(s[i - lo] == v@[i as int]);
        if !(48 <= c && c <= 57) {
            assert(!is_dec_digit(s[i - lo]));
            return false;
        }
        i += 1;
    }
    true
}

/// Whether `s` has one of the shapes `ryu` prints, as `go_float_text`
/// needs.
pub fn ryu_shaped(s: &str) -> (b: bool)
    ensures
        b == ryu_shape(s@),
{
    let v = chars_of(s);
    let n = v.len();
    if n > 40 {
        return false;
    }
    let neg = n > 0 && v[0] == '-';
    let b0: usize = if neg {
        1
    } else {
        0
    };
    let ghost t = v@;
    let ghost bd = float_body(t);
    assert(bd == v@.subrange(b0 as int, n as int));
    let e = find_char_in(&v, b0, n, 'e');
    let me: usize = match e {
        Some(i) => i,
        None => n,
    };
    let ghost m = float_mantissa(bd);
    assert(m == v@.subrange(b0 as int, me as int));
    let dot = find_char_in(&v, b0, me, '.');
    let (ie, fs): (usize, usize) = match dot {
        Some(d) => (d, d + 1),
        None => (me, me),
    };
    let ghost ip = int_part(m);
    let ghost fp = frac_part(m);
    assert(ip == v@.subrange(b0 as int, ie as int));
    assert(fp == v@.subrange(fs as int, me as int));
    if ie == b0 || !dec_run(&v, b0, ie) {
        return false;
    }
    if dot.is_some() && (fs == me || !dec_run(&v, fs, me)) {
        return false;
    }
    match e {
        Some(ei) => {
            let ghost x = float_exp_text(bd);
            assert(x == v@.subrange(ei + 1, n as int));
            let xneg = ei + 1 < n && v[ei + 1] == '-';
            let k: usize = if xneg {
                ei + 2
            } else {
                ei + 1
            };
            assert(exp_digits(x) == v@.subrange(k as int, n as int));
            assert(ip.len() == 1 ==> ip[0] == v@[b0 as int]);
            ie - b0 == 1 && v[b0] != '0' && 1 <= n - k && n - k <= 3 && dec_run(&v, k, n)
        },
        None => {
            assert(ip[0] == v@[b0 as int]);
            if ie - b0 == 1 && v[b0] == '0' {
                assert(ip =~= seq!['0']);
                true
            } else {
                assert(ip != seq!['0'] || v@[b0 as int] != '0');
                v[b0] != '0'
            }
        },
    }
}

/// Reshapes `ryu`'s shortest text of a finite float into Go's `'g'` layout
/// with precision -1.
pub fn go_float_text(s: &str) -> (r: String)
    requires
        ryu_shape(s@),
    ensures
        r@ == go_text(s@),
{
    let v = chars_of(s);
    let (digits, exp) = raw_digits_of(&v);
    let h = trimmed_len(&digits);
    let mut out = String::new();
    if v.len() > 0 && v[0] == '-' {
        push_char(&mut out, '-');
    }
    if h == 0 {
        let zero: Vec<char> = vec!['0'];
        push_go_g(&mut out, &zero, 0);
        assert(zero@ == seq!['0']);
    } else {
        let mut d: Vec<char> = Vec::new();
        collect(&mut d, &digits, 0, h);
        assert(d@ == digits@.take(h as int));
        push_go_g(&mut out, &d, exp);
    }
    out
}

} // verus!
