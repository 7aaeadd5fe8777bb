use vstd::prelude::*;

use crate::text::{
    append_str, digit_char, digits_of, nat_digits, all_digits, append_all, copy_range, digits_upto,
    digits_value, digit_value, is_ascii_digit, is_digit,
};

verus! {

// ---------------------------------------------------------------------------
// Powers of ten
// ---------------------------------------------------------------------------

pub open spec fn pow10(n: nat) -> nat
    decreases n,
{
    if n == 0 {
        1
    } else {
        10 * pow10((n - 1) as nat)
    }
}

pub proof fn lemma_pow10_pos(n: nat)
    ensures
        pow10(n) >= 1,
    decreases n,
{
    if n > 0 {
        lemma_pow10_pos((n - 1) as nat);
    }
}

pub proof fn lemma_pow10_mono(a: nat, b: nat)
    requires
        a <= b,
    ensures
        pow10(a) <= pow10(b),
    decreases b,
{
    if a < b {
        lemma_pow10_mono(a, (b - 1) as nat);
        lemma_pow10_pos((b - 1) as nat);
    }
}

pub fn pow10_u128(n: u32) -> (r: u128)
    requires
        n <= 30,
    ensures
        r == pow10(n as nat),
{
    let mut r: u128 = 1;
    let mut i: u32 = 0;
    while i < n
        invariant
            i <= n <= 30,
            r == pow10(i as nat),
        decreases n - i,
    {
        proof {
            lemma_pow10_mono(i as nat, 29);
            reveal_with_fuel(pow10, 30);
            assert(pow10(29) == 100000000000000000000000000000nat);
        }
        r = r * 10;
        i = i + 1;
    }
    r
}

// ---------------------------------------------------------------------------
// Exact decimal numbers
// ---------------------------------------------------------------------------

/// The largest number of digits after the point that a `Decimal` keeps.
pub const MAX_SCALE: u32 = 6;

/// `units` is kept below this bound.
pub const MAX_UNITS: u64 = 1_000_000_000_000_000;

/// A non-negative decimal number `units / 10^scale`, exactly.
#[derive(Clone, Copy, Debug, PartialEq, Eq, Structural)]
pub struct Decimal {
    pub units: u64,
    pub scale: u32,
}

impl Decimal {
    pub open spec fn wf(self) -> bool {
        self.scale <= MAX_SCALE && self.units < MAX_UNITS
    }

    /// The denominator of the number.
    pub open spec fn den(self) -> nat {
        pow10(self.scale as nat)
    }

    pub open spec fn is_positive(self) -> bool {
        self.units > 0
    }

    pub fn is_wf(&self) -> (b: bool)
        ensures
            b == self.wf(),
    {
        self.scale <= MAX_SCALE && self.units < MAX_UNITS
    }

    /// A whole number.
    pub fn whole(n: u32) -> (d: Decimal)
        ensures
            d.units == n,
            d.scale == 0,
            d.wf(),
    {
        Decimal { units: n as u64, scale: 0 }
    }
}

/// A number as `f64::from_str` reads it, without the sign: the digits before
/// and after the point, with the trailing zeros after the point dropped.
pub open spec fn strip_trailing_zeros(s: Seq<char>) -> Seq<char>
    decreases s.len(),
{
    if s.len() > 0 && s.last() == '0' {
        strip_trailing_zeros(s.drop_last())
    } else {
        s
    }
}

pub open spec fn count_char(s: Seq<char>, c: char) -> nat
    decreases s.len(),
{
    if s.len() == 0 {
        0
    } else {
        count_char(s.drop_last(), c) + if s.last() == c {
            1nat
        } else {
            0nat
        }
    }
}

/// The digits before and after the point of an unsigned number made of digits
/// and at most one point, with at least one digit: `12`, `12.`, `.5`, `1.25`.
pub open spec fn number_parts(s: Seq<char>) -> Option<(Seq<char>, Seq<char>)> {
    if count_char(s, '.') == 0 {
        if s.len() > 0 && all_digits(s) {
            Some((s, Seq::<char>::empty()))
        } else {
            None
        }
    } else if count_char(s, '.') == 1 {
        let i = choose|i: int| 0 <= i < s.len() && s[i] == '.';
        let ip = s.take(i);
        let fp = s.skip(i + 1);
        if all_digits(ip) && all_digits(fp) && ip.len() + fp.len() > 0 {
            Some((ip, fp))
        } else {
            None
        }
    } else {
        None
    }
}

/// The index of the first `e` or `E` of `s` at or after `i`, or the length
/// of `s` when there is none.
pub open spec fn exp_at(s: Seq<char>, i: int) -> int
    decreases s.len() - i,
{
    if i < 0 || i >= s.len() {
        s.len() as int
    } else if s[i] == 'e' || s[i] == 'E' {
        i
    } else {
        exp_at(s, i + 1)
    }
}

/// An exponent as `f64::from_str` reads it: an optional sign and one or more
/// digits.
pub open spec fn exponent_value(t: Seq<char>) -> Option<int> {
    let neg = t.len() > 0 && t[0] == '-';
    let body = if t.len() > 0 && (t[0] == '+' || t[0] == '-') {
        t.drop_first()
    } else {
        t
    };
    if body.len() > 0 && all_digits(body) {
        Some(
            if neg {
                -(digits_value(body) as int)
            } else {
                digits_value(body) as int
            },
        )
    } else {
        None
    }
}

/// The exact value of an unsigned number as `(digits, power)`, the number
/// being `digits * 10^power`: digits with at most one point, then an
/// optional exponent (`1.5`, `.5`, `2.`, `1e3`, `2.5E-2`).
pub open spec fn unsigned_value(s: Seq<char>) -> Option<(nat, int)> {
    let i = exp_at(s, 0);
    let e = if i < s.len() {
        exponent_value(s.skip(i + 1))
    } else {
        Some(0int)
    };
    match number_parts(s.take(i)) {
        None => None,
        Some((ip, fp)) => match e {
            None => None,
            Some(x) => {
                let f = strip_trailing_zeros(fp);
                Some((digits_value(ip + f), x - f.len()))
            },
        },
    }
}

/// `d / 10^frac` with its last `k` or more fractional digits rounded away
/// (halves to even): the fewest from `k` on that leave fewer than
/// `MAX_UNITS` units; `None` when even the whole number is too large.
pub open spec fn fit_scale(d: nat, frac: nat, k: nat) -> Option<Decimal>
    decreases frac + 1 - k,
{
    if k > frac {
        None
    } else {
        let u = round_half_even(d, pow10(k));
        if u < MAX_UNITS {
            Some(Decimal { units: u as u64, scale: (frac - k) as u32 })
        } else {
            fit_scale(d, frac, k + 1)
        }
    }
}

/// `d * 10^p` as a `Decimal`: at most `MAX_SCALE` digits after the point,
/// rounded half to even, and fewer where the units would reach `MAX_UNITS`
/// (so a number keeps about fifteen significant digits); `None` for a
/// whole number of `MAX_UNITS` or more.
pub open spec fn decimal_of(d: nat, p: int) -> Option<Decimal> {
    if p >= 0 {
        if d * pow10(p as nat) < MAX_UNITS {
            Some(Decimal { units: (d * pow10(p as nat)) as u64, scale: 0 })
        } else {
            None
        }
    } else {
        let frac = (-p) as nat;
        fit_scale(
            d,
            frac,
            if frac > MAX_SCALE {
                (frac - MAX_SCALE) as nat
            } else {
                0
            },
        )
    }
}

/// An unsigned number as a `Decimal`.
pub open spec fn parse_unsigned(s: Seq<char>) -> Option<Decimal> {
    match unsigned_value(s) {
        Some((d, p)) => decimal_of(d, p),
        None => None,
    }
}

pub proof fn lemma_count_char_zero(s: Seq<char>, c: char)
    ensures
        count_char(s, c) == 0 <==> forall|k: int| 0 <= k < s.len() ==> s[k] != c,
    decreases s.len(),
{
    if s.len() > 0 {
        lemma_count_char_zero(s.drop_last(), c);
        if count_char(s, c) == 0 {
            assert forall|k: int| 0 <= k < s.len() implies s[k] != c by {
                if k < s.len() - 1 {
                    assert(s.drop_last()[k] == s[k]);
                }
            }
        } else {
            if s.last() != c {
                let k = choose|k: int| 0 <= k < s.len() - 1 && s.drop_last()[k] == c;
                assert(s[k] == c);
            }
        }
    }
}

pub proof fn lemma_count_char_one(s: Seq<char>, c: char, i: int)
    requires
        0 <= i < s.len(),
        s[i] == c,
        forall|k: int| 0 <= k < s.len() && k != i ==> s[k] != c,
    ensures
        count_char(s, c) == 1,
    decreases s.len(),
{
    if i == s.len() - 1 {
        lemma_count_char_zero(s.drop_last(), c);
    } else {
        lemma_count_char_one(s.drop_last(), c, i);
    }
}

pub proof fn lemma_count_char_two(s: Seq<char>, c: char, i: int, j: int)
    requires
        0 <= i < j < s.len(),
        s[i] == c,
        s[j] == c,
    ensures
        count_char(s, c) >= 2,
    decreases s.len(),
{
    if j == s.len() - 1 {
        assert(s.drop_last()[i] == c);
        assert(count_char(s.drop_last(), c) >= 1) by {
            lemma_count_char_zero(s.drop_last(), c);
        }
    } else {
        lemma_count_char_two(s.drop_last(), c, i, j);
    }
}

fn all_digits_range(v: &Vec<char>, lo: usize, hi: usize) -> (r: bool)
    requires
        lo <= hi <= v.len(),
    ensures
        r == all_digits(v@.subrange(lo as int, hi as int)),
{
    let mut i = lo;
    while i < hi
        invariant
            lo <= i <= hi <= v.len(),
            forall|k: int| lo <= k < i ==> is_digit(v@[k]),
        decreases hi - i,
    {
        if !is_ascii_digit(v[i]) {
            assert(v@.subrange(lo as int, hi as int)[i - lo] == v@[i as int]);
            return false;
        }
        i = i + 1;
    }
    assert forall|k: int| 0 <= k < hi - lo implies is_digit(
        #[trigger] v@.subrange(lo as int, hi as int)[k],
    ) by {
        assert(v@.subrange(lo as int, hi as int)[k] == v@[lo + k]);
    }
    true
}

/// The digits before and after the point of `v[start..end]`, with the
/// trailing zeros after the point dropped, and how many digits after the
/// point are left.
fn mantissa_at(v: &Vec<char>, start: usize, end: usize) -> (r: Option<(Vec<char>, usize)>)
    requires
        start <= end <= v.len(),
    ensures
        match r {
            None => number_parts(v@.subrange(start as int, end as int)) is None,
            Some((ds, fl)) => number_parts(v@.subrange(start as int, end as int)) matches Some(
                (ip, fp),
            ) && ds@ == ip + strip_trailing_zeros(fp) && fl == strip_trailing_zeros(fp).len()
                && all_digits(ds@) && fl <= ds.len(),
        },
{
    let ghost s = v@.subrange(start as int, end as int);
    let n = end;
    // Locate the points.
    let mut dot: usize = n;
    let mut i = start;
    while i < n
        invariant
            start <= i <= n <= v.len(),
            s == v@.subrange(start as int, end as int),
            n == end,
            s.len() == n - start,
            dot == n || (start <= dot < i && s[dot - start] == '.'),
            forall|k: int| 0 <= k < i - start && k != dot - start ==> s[k] != '.',
        decreases n - i,
    {
        assert(s[i - start] == v@[i as int]);
        if v[i] == '.' {
            if dot < n {
                proof {
                    lemma_count_char_two(s, '.', dot - start, i - start);
                }
                assert(number_parts(s) is None);
                return None;
            }
            dot = i;
        }
        i = i + 1;
    }
    let int_end = if dot < n {
        dot
    } else {
        n
    };
    let frac_start = if dot < n {
        dot + 1
    } else {
        n
    };
    proof {
        if dot == n {
            lemma_count_char_zero(s, '.');
        } else {
            lemma_count_char_one(s, '.', dot - start);
        }
    }
    let ghost ip = v@.subrange(start as int, int_end as int);
    let ghost fp = v@.subrange(frac_start as int, n as int);
    assert(number_parts(s) == if all_digits(ip) && all_digits(fp) && ip.len() + fp.len() > 0 {
        Some((ip, fp))
    } else {
        None::<(Seq<char>, Seq<char>)>
    }) by {
        if dot == n {
            assert(ip =~= s);
            assert(fp.len() == 0);
            assert(fp =~= Seq::<char>::empty());
        } else {
            assert(s[dot - start] == '.');
            let c = choose|c: int| 0 <= c < s.len() && s[c] == '.';
            assert(c == dot - start);
            assert(s.take(c) =~= ip);
            assert(s.skip(c + 1) =~= fp);
        }
    }
    if !all_digits_range(v, start, int_end) || !all_digits_range(v, frac_start, n) || (int_end
        - start) + (n - frac_start) == 0 {
        return None;
    }
    // Drop the trailing zeros after the point.
    let mut fe = n;
    while fe > frac_start && v[fe - 1] == '0'
        invariant
            frac_start <= fe <= n <= v.len(),
            fp == v@.subrange(frac_start as int, n as int),
            strip_trailing_zeros(fp) == strip_trailing_zeros(
                v@.subrange(frac_start as int, fe as int),
            ),
        decreases fe - frac_start,
    {
        assert(v@.subrange(frac_start as int, fe as int).drop_last() =~= v@.subrange(
            frac_start as int,
            fe - 1,
        ));
        fe = fe - 1;
    }
    let ghost f = v@.subrange(frac_start as int, fe as int);
    assert(strip_trailing_zeros(fp) == f);
    let mut digits = copy_range(v, start, int_end);
    let fd = copy_range(v, frac_start, fe);
    append_all(&mut digits, &fd);
    assert(digits@ == ip + f);
    assert(all_digits(ip + f)) by {
        assert forall|k: int| 0 <= k < (ip + f).len() implies is_digit(#[trigger] (ip + f)[k]) by {
            if k >= ip.len() {
                assert(f[k - ip.len()] == fp[k - ip.len()]);
            }
        }
    }
    Some((digits, fe - frac_start))
}

/// The first `e` or `E` of `v[start..]`, or the end.
fn find_exp(v: &Vec<char>, start: usize) -> (i: usize)
    requires
        start <= v.len(),
    ensures
        start <= i <= v.len(),
        i - start == exp_at(v@.skip(start as int), 0),
{
    let ghost s = v@.skip(start as int);
    let mut i = start;
    while i < v.len() && v[i] != 'e' && v[i] != 'E'
        invariant
            start <= i <= v.len(),
            s == v@.skip(start as int),
            exp_at(s, 0) == exp_at(s, i - start),
        decreases v.len() - i,
    {
        assert(s[i - start] == v@[i as int]);
        i = i + 1;
    }
    if i < v.len() {
        assert(s[i - start] == v@[i as int]);
    }
    i
}

/// The exponent `v[from..]`: whether it is negative, and its size, or `None`
/// for the size when it is above `cap`.
fn exponent_at(v: &Vec<char>, from: usize, cap: u128) -> (r: Option<(bool, Option<u128>)>)
    requires
        from <= v.len(),
        cap <= u128::MAX / 20,
    ensures
        match r {
            None => exponent_value(v@.skip(from as int)) is None,
            Some((neg, x)) => exponent_value(v@.skip(from as int)) matches Some(e) && (neg ==> e
                <= 0) && (!neg ==> e >= 0) && match x {
                Some(a) => (if neg {
                    e == -(a as int)
                } else {
                    e == a as int
                }) && a <= cap,
                None => (if neg {
                    e < -(cap as int)
                } else {
                    e > cap as int
                }),
            },
        },
{
    let ghost t = v@.skip(from as int);
    let n = v.len();
    let signed = from < n && (v[from] == '+' || v[from] == '-');
    let neg = from < n && v[from] == '-';
    let body = if signed {
        from + 1
    } else {
        from
    };
    if from < n {
        assert(t[0] == v@[from as int]);
    }
    assert(v@.skip(body as int) =~= (if t.len() > 0 && (t[0] == '+' || t[0] == '-') {
        t.drop_first()
    } else {
        t
    }));
    assert(v@.subrange(body as int, n as int) =~= v@.skip(body as int));
    if body >= n || !all_digits_range(v, body, n) {
        return None;
    }
    match digits_upto(v, body, cap) {
        Some(a) => Some((neg, Some(a))),
        None => Some((neg, None)),
    }
}

/// Whether `v[lo..hi]` holds a character other than `0`.
fn has_nonzero(v: &Vec<char>, lo: usize, hi: usize) -> (r: bool)
    requires
        lo <= hi <= v.len(),
    ensures
        r == !(forall|k: int| 0 <= k < hi - lo ==> #[trigger] v@.subrange(lo as int, hi as int)[k] == '0'),
{
    let ghost s = v@.subrange(lo as int, hi as int);
    let mut i = lo;
    while i < hi
        invariant
            lo <= i <= hi <= v.len(),
            s == v@.subrange(lo as int, hi as int),
            forall|k: int| 0 <= k < i - lo ==> #[trigger] s[k] == '0',
        decreases hi - i,
    {
        assert(s[i - lo] == v@[i as int]);
        if v[i] != '0' {
            return true;
        }
        i = i + 1;
    }
    false
}

proof fn lemma_round_by_one(d: nat)
    ensures
        round_half_even(d, pow10(0)) == d,
{
    assert(pow10(0) == 1);
    vstd::arithmetic::div_mod::lemma_fundamental_div_mod_converse(d as int, 1, d as int, 0);
}

/// The number `digits(ds) * 10^(e - fl)` as `decimal_of` gives it; the
/// exponent `e` comes as its sign and its size (or no size above `cap`).
fn decimal_from(ds: &Vec<char>, fl: usize, neg: bool, ex: Option<u128>, cap: u128, Ghost(e): Ghost<int>) -> (r: Option<Decimal>)
    requires
        all_digits(ds@),
        fl <= ds.len(),
        ds.len() + 20 <= cap <= u128::MAX / 20,
        neg ==> e <= 0,
        !neg ==> e >= 0,
        match ex {
            Some(a) => (if neg {
                e == -(a as int)
            } else {
                e == a as int
            }) && a <= cap,
            None => (if neg {
                e < -(cap as int)
            } else {
                e > cap as int
            }),
        },
    ensures
        r == decimal_of(digits_value(ds@), e - fl),
        r matches Some(d) ==> d.wf(),
{
    let n = ds.len();
    let ghost d = digits_value(ds@);
    let ghost p = e - fl;
    let nz = has_nonzero(ds, 0, n);
    proof {
        assert(ds@.subrange(0, n as int) =~= ds@);
        lemma_digits_zero(ds@);
        lemma_digits_bound(ds@);
        reveal_with_fuel(pow10, 21);
        assert(pow10(20) == 100_000_000_000_000_000_000nat);
    }
    let pv: i128 = match ex {
        None => {
            if !neg {
                // A huge positive power: only zero is small enough.
                proof {
                    lemma_pow10_mono(20, p as nat);
                }
                if !nz {
                    assert(d == 0);
                    assert(d * pow10(p as nat) == 0);
                    return Some(Decimal { units: 0, scale: 0 });
                }
                assert(d * pow10(p as nat) >= pow10(p as nat)) by (nonlinear_arith)
                    requires
                        d >= 1,
                ;
                return None;
            }
            // A huge negative power: every digit is rounded away.
            let ghost frac = (-p) as nat;
            let ghost k0 = (frac - MAX_SCALE) as nat;
            proof {
                lemma_round_all_away(ds@, k0);
            }
            assert(fit_scale(d, frac, k0) == Some(Decimal { units: 0, scale: 6 }));
            return Some(Decimal { units: 0, scale: 6 });
        },
        Some(a) => if neg {
            -(a as i128) - (fl as i128)
        } else {
            (a as i128) - (fl as i128)
        },
    };
    assert(pv == p);
    if pv >= 0 {
        if !nz {
            assert(d == 0);
            assert(d * pow10(p as nat) == 0);
            return Some(Decimal { units: 0, scale: 0 });
        }
        proof {
            lemma_pow10_pos(p as nat);
        }
        let dv = match digits_upto(ds, 0, (MAX_UNITS - 1) as u128) {
            None => {
                assert(ds@.skip(0) =~= ds@);
                assert(d >= MAX_UNITS);
                assert(d * pow10(p as nat) >= d) by (nonlinear_arith)
                    requires
                        pow10(p as nat) >= 1,
                ;
                assert(decimal_of(d, p) is None);
                return None;
            },
            Some(x) => x,
        };
        assert(ds@.skip(0) =~= ds@);
        let mut u: u128 = dv;
        let mut j: i128 = 0;
        assert(pow10(0) == 1);
        assert(d * pow10(0) == d);
        while j < pv
            invariant
                0 <= j <= pv,
                pv == p,
                p == e - fl,
                d == digits_value(ds@),
                dv == d,
                u == d * pow10(j as nat),
                u < MAX_UNITS,
            decreases pv - j,
        {
            if u >= (MAX_UNITS as u128 + 9) / 10 {
                proof {
                    lemma_pow10_mono((j + 1) as nat, p as nat);
                    assert(pow10((j + 1) as nat) == 10 * pow10(j as nat));
                    assert(d * pow10((j + 1) as nat) <= d * pow10(p as nat)) by (nonlinear_arith)
                        requires
                            pow10((j + 1) as nat) <= pow10(p as nat),
                    ;
                    assert(d * pow10((j + 1) as nat) == u * 10) by (nonlinear_arith)
                        requires
                            u == d * pow10(j as nat),
                            pow10((j + 1) as nat) == 10 * pow10(j as nat),
                    ;
                }
                return None;
            }
            proof {
                assert(pow10((j + 1) as nat) == 10 * pow10(j as nat));
                assert(u * 10 == d * pow10((j + 1) as nat)) by (nonlinear_arith)
                    requires
                        u == d * pow10(j as nat),
                        pow10((j + 1) as nat) == 10 * pow10(j as nat),
                ;
            }
            u = u * 10;
            j = j + 1;
        }
        return Some(Decimal { units: u as u64, scale: 0 });
    }
    // A negative power: round to at most `MAX_SCALE` digits after the point.
    let frac: u128 = (-pv) as u128;
    let k0: u128 = if frac > MAX_SCALE as u128 {
        frac - MAX_SCALE as u128
    } else {
        0
    };
    let mut k = k0;
    while k <= frac
        invariant
            k0 <= k <= frac + 1,
            frac == -p,
            p == e - fl,
            frac <= cap + n,
            k0 == (if frac > MAX_SCALE {
                (frac - MAX_SCALE) as nat
            } else {
                0nat
            }),
            n == ds.len(),
            all_digits(ds@),
            d == digits_value(ds@),
            decimal_of(d, p) == fit_scale(d, frac as nat, k as nat),
            cap <= u128::MAX / 20,
        decreases frac + 1 - k,
    {
        if k > n as u128 {
            proof {
                lemma_round_all_away(ds@, k as nat);
            }
            assert(round_half_even(d, pow10(k as nat)) == 0);
            assert(fit_scale(d, frac as nat, k as nat) == Some(
                Decimal { units: 0, scale: (frac - k) as u32 },
            ));
            return Some(Decimal { units: 0, scale: (frac - k) as u32 });
        }
        let split: usize = n - (k as usize);
        let ghost a = ds@.subrange(0, split as int);
        let ghost b = ds@.subrange(split as int, n as int);
        assert(ds@ =~= a + b);
        assert(all_digits(a)) by {
            assert forall|i: int| 0 <= i < a.len() implies is_digit(#[trigger] a[i]) by {
                assert(a[i] == ds@[i]);
            }
        }
        assert(all_digits(b)) by {
            assert forall|i: int| 0 <= i < b.len() implies is_digit(#[trigger] b[i]) by {
                assert(b[i] == ds@[split + i]);
            }
        }
        let prefix = copy_range(ds, 0, split);
        assert(prefix@.skip(0) =~= a);
        match digits_upto(&prefix, 0, (MAX_UNITS - 1) as u128) {
            None => {
                // The kept digits alone are too many.
                proof {
                    if k == 0 {
                        lemma_round_by_one(d);
                        assert(b.len() == 0);
                        assert(a =~= ds@);
                    } else {
                        lemma_round_digits(a, b);
                    }
                }
            },
            Some(top) => {
                let u: u128 = if k == 0 {
                    proof {
                        lemma_round_by_one(d);
                        assert(a =~= ds@);
                    }
                    top
                } else {
                    proof {
                        lemma_round_digits(a, b);
                        assert(b[0] == ds@[split as int]);
                        assert(b.drop_first() =~= ds@.subrange(split + 1, n as int));
                        assert(all_digits(b.drop_first())) by {
                            assert forall|i: int| 0 <= i < b.drop_first().len() implies is_digit(#[trigger] b.drop_first()[i]) by {
                                assert(b.drop_first()[i] == b[i + 1]);
                            }
                        }
                        lemma_digits_zero(b.drop_first());
                    }
                    let c = ds[split];
                    assert(is_digit(c));
                    let cv = (c as u32) - ('0' as u32);
                    let rest = has_nonzero(ds, split + 1, n);
                    let up = cv > 5 || (cv == 5 && (rest || top % 2 == 1));
                    if up {
                        top + 1
                    } else {
                        top
                    }
                };
                assert(u == round_half_even(d, pow10(k as nat)));
                if u < MAX_UNITS as u128 {
                    assert(fit_scale(d, frac as nat, k as nat) == Some(
                        Decimal { units: u as u64, scale: (frac - k) as u32 },
                    ));
                    return Some(Decimal { units: u as u64, scale: (frac - k) as u32 });
                }
            },
        }
        k = k + 1;
    }
    None
}

/// Reads an unsigned number from `v[start..]`: digits with at most one
/// point, then an optional exponent, as `f64::from_str` reads them.
pub fn parse_unsigned_at(v: &Vec<char>, start: usize) -> (r: Option<Decimal>)
    requires
        start <= v.len(),
    ensures
        r == parse_unsigned(v@.skip(start as int)),
        r matches Some(d) ==> d.wf(),
{
    let ghost s = v@.skip(start as int);
    let ei = find_exp(v, start);
    assert(s.take(ei - start) =~= v@.subrange(start as int, ei as int));
    let (ds, fl) = match mantissa_at(v, start, ei) {
        None => {
            return None;
        },
        Some(m) => m,
    };
    let cap: u128 = (ds.len() as u128) + 20;
    if ei < v.len() {
        assert(s.skip(ei - start + 1) =~= v@.skip(ei + 1));
        match exponent_at(v, ei + 1, cap) {
            None => {
                return None;
            },
            Some((neg, ex)) => {
                let ghost e = exponent_value(v@.skip(ei + 1))->Some_0;
                decimal_from(&ds, fl, neg, ex, cap, Ghost(e))
            },
        }
    } else {
        decimal_from(&ds, fl, false, Some(0), cap, Ghost(0int))
    }
}

/// Reads a number with an optional sign as `f64::from_str` does, to the
/// precision that a `Decimal` keeps: the sign is `true` for a leading `-`.
pub open spec fn parse_signed(s: Seq<char>) -> Option<(bool, Decimal)> {
    if s.len() > 0 && (s[0] == '+' || s[0] == '-') {
        match parse_unsigned(s.drop_first()) {
            Some(d) => Some((s[0] == '-', d)),
            None => None,
        }
    } else {
        match parse_unsigned(s) {
            Some(d) => Some((false, d)),
            None => None,
        }
    }
}

pub fn parse_signed_chars(v: &Vec<char>) -> (r: Option<(bool, Decimal)>)
    ensures
        r == parse_signed(v@),
        r matches Some((_, d)) ==> d.wf(),
{
    if v.len() > 0 && (v[0] == '+' || v[0] == '-') {
        assert(v@.skip(1) =~= v@.drop_first());
        match parse_unsigned_at(v, 1) {
            Some(d) => Some((v[0] == '-', d)),
            None => None,
        }
    } else {
        assert(v@.skip(0) =~= v@);
        match parse_unsigned_at(v, 0) {
            Some(d) => Some((false, d)),
            None => None,
        }
    }
}

// ---------------------------------------------------------------------------
// Numbers as text
// ---------------------------------------------------------------------------

/// `num / den` rounded to a whole number, halves to the even neighbour (what
/// `format!("{:.0}", x)` prints for a float).
pub open spec fn round_half_even(num: nat, den: nat) -> nat
    recommends
        den > 0,
{
    let q = num / den;
    let r = num % den;
    if 2 * r > den {
        q + 1
    } else if 2 * r == den && q % 2 == 1 {
        q + 1
    } else {
        q
    }
}

pub fn round_half_even_exec(num: u128, den: u128) -> (r: u128)
    requires
        den > 0,
    ensures
        r == round_half_even(num as nat, den as nat),
{
    let q = num / den;
    let r = num % den;
    let rest = den - r;
    assert(q <= num && (r > 0 ==> q < u128::MAX)) by (nonlinear_arith)
        requires
            den > 0,
            q == num / den,
            r == num % den,
            num <= u128::MAX,
    ;
    if r > rest {
        q + 1
    } else if r == rest && q % 2 == 1 {
        q + 1
    } else {
        q
    }
}

/// The fractional digits of `f` (which is below `10^scale`) written with
/// `scale` digits, the trailing zeros dropped.
pub open spec fn fraction_digits(f: nat, scale: nat) -> Seq<char>
    decreases scale,
{
    if scale == 0 || f == 0 {
        Seq::empty()
    } else {
        let rest = fraction_digits(f / 10, (scale - 1) as nat);
        if rest.len() == 0 && f % 10 == 0 {
            rest
        } else {
            rest + seq![digit_char(f % 10)]
        }
    }
}

/// `units / 10^scale` written as `f64`'s `Display` writes a number of at most
/// fifteen digits: the whole part, and the fraction without trailing zeros.
pub open spec fn decimal_text(units: nat, scale: nat) -> Seq<char> {
    let whole = units / pow10(scale);
    let frac = units % pow10(scale);
    if frac == 0 {
        nat_digits(whole)
    } else {
        nat_digits(whole) + "."@ + fraction_digits(frac, scale)
    }
}

fn fraction_digits_exec(f: u128, scale: u32) -> (r: Vec<char>)
    ensures
        r@ == fraction_digits(f as nat, scale as nat),
    decreases scale,
{
    if scale == 0 || f == 0 {
        return Vec::new();
    }
    let mut rest = fraction_digits_exec(f / 10, scale - 1);
    if rest.len() == 0 && f % 10 == 0 {
        rest
    } else {
        let d = digits_of(f % 10);
        assert(d@ == seq![digit_char((f % 10) as nat)]);
        append_all(&mut rest, &d);
        rest
    }
}

pub fn decimal_text_exec(units: u128, scale: u32) -> (r: Vec<char>)
    requires
        scale <= 30,
    ensures
        r@ == decimal_text(units as nat, scale as nat),
{
    let p = pow10_u128(scale);
    proof {
        lemma_pow10_pos(scale as nat);
    }
    let whole = units / p;
    let frac = units % p;
    let mut r = digits_of(whole);
    if frac != 0 {
        append_str(&mut r, ".");
        let f = fraction_digits_exec(frac, scale);
        append_all(&mut r, &f);
    }
    r
}

/// A decimal rounded to a whole number, as text.
pub fn decimal_rounded_text(d: Decimal) -> (r: Vec<char>)
    ensures
        r@ == nat_digits(round_half_even(d.units as nat, d.den())),
{
    proof {
        lemma_pow10_pos(d.scale as nat);
    }
    if d.scale > 20 {
        proof {
            lemma_pow10_mono(20, d.scale as nat);
            reveal_with_fuel(pow10, 21);
            assert(pow10(20) == 100_000_000_000_000_000_000nat);
            assert((d.units as nat) / d.den() == 0) by (nonlinear_arith)
                requires
                    d.units < d.den(),
            ;
            assert((d.units as nat) % d.den() == d.units) by (nonlinear_arith)
                requires
                    d.units < d.den(),
            ;
        }
        return digits_of(0);
    }
    let p = pow10_u128(d.scale);
    proof {
        lemma_pow10_mono(d.scale as nat, 20);
        reveal_with_fuel(pow10, 21);
        assert(pow10(20) == 100_000_000_000_000_000_000nat);
    }
    digits_of(round_half_even_exec(d.units as u128, p))
}


// ---------------------------------------------------------------------------
// Digit strings
// ---------------------------------------------------------------------------

pub proof fn lemma_digits_concat(a: Seq<char>, b: Seq<char>)
    requires
        all_digits(b),
    ensures
        digits_value(a + b) == digits_value(a) * pow10(b.len()) + digits_value(b),
    decreases b.len(),
{
    if b.len() == 0 {
        assert(a + b =~= a);
        assert(pow10(b.len()) == 1);
        assert(digits_value(a) * 1 == digits_value(a));
    } else {
        assert((a + b).drop_last() =~= a + b.drop_last());
        assert((a + b).last() == b.last());
        assert(is_digit(b[b.len() - 1]));
        assert(all_digits(b.drop_last())) by {
            assert forall|i: int| 0 <= i < b.drop_last().len() implies is_digit(#[trigger] b.drop_last()[i]) by {
                assert(b.drop_last()[i] == b[i]);
            }
        }
        lemma_digits_concat(a, b.drop_last());
        let x = digits_value(a);
        let p = pow10((b.len() - 1) as nat);
        let y = digits_value(b.drop_last());
        let dl = digit_value(b.last());
        assert(0 <= dl <= 9);
        assert(pow10(b.len()) == 10 * p);
        assert(digits_value(b) == y * 10 + dl);
        assert(digits_value(a + b.drop_last()) == x * p + y);
        assert(digits_value(a + b) == (x * p + y) * 10 + dl);
        assert((x * p + y) * 10 + dl == x * (10 * p) + (y * 10 + dl)) by (nonlinear_arith);
    }
}

pub proof fn lemma_digits_bound(b: Seq<char>)
    requires
        all_digits(b),
    ensures
        digits_value(b) < pow10(b.len()),
    decreases b.len(),
{
    if b.len() > 0 {
        lemma_digits_bound(b.drop_last());
        assert(is_digit(b[b.len() - 1]));
        let y = digits_value(b.drop_last());
        let p = pow10((b.len() - 1) as nat);
        assert(y * 10 + 9 < 10 * p) by (nonlinear_arith)
            requires
                y < p,
        ;
    }
}

pub proof fn lemma_digits_zero(b: Seq<char>)
    requires
        all_digits(b),
    ensures
        digits_value(b) == 0 <==> forall|i: int| 0 <= i < b.len() ==> #[trigger] b[i] == '0',
    decreases b.len(),
{
    if b.len() > 0 {
        let p = b.drop_last();
        lemma_digits_zero(p);
        assert(is_digit(b[b.len() - 1]));
        if digits_value(b) == 0 {
            assert forall|i: int| 0 <= i < b.len() implies #[trigger] b[i] == '0' by {
                if i < b.len() - 1 {
                    assert(p[i] == b[i]);
                }
            }
        } else if forall|i: int| 0 <= i < b.len() ==> #[trigger] b[i] == '0' {
            assert forall|i: int| 0 <= i < p.len() implies #[trigger] p[i] == '0' by {
                assert(b[i] == '0');
            }
            assert(b[b.len() - 1] == '0');
        }
    }
}

/// `d` rounded to a multiple of `10^k`, read off its digits: the digits
/// before the last `k`, one more when the rest is above a half, or a half
/// and those digits odd.
pub proof fn lemma_round_digits(a: Seq<char>, b: Seq<char>)
    requires
        all_digits(a),
        all_digits(b),
        b.len() >= 1,
    ensures
        round_half_even(digits_value(a + b), pow10(b.len())) == digits_value(a) + if digit_value(
            b[0],
        ) > 5 || (digit_value(b[0]) == 5 && (digits_value(b.drop_first()) > 0 || digits_value(a)
            % 2 == 1)) {
            1nat
        } else {
            0nat
        },
{
    let k = b.len();
    let t = pow10((k - 1) as nat);
    let b0 = b.drop_first();
    assert(b =~= seq![b[0]] + b0);
    assert(all_digits(b0)) by {
        assert forall|i: int| 0 <= i < b0.len() implies is_digit(#[trigger] b0[i]) by {
            assert(b0[i] == b[i + 1]);
        }
    }
    lemma_digits_concat(seq![b[0]], b0);
    assert(is_digit(b[0]));
    let one = seq![b[0]];
    assert(one.drop_last() =~= Seq::<char>::empty());
    assert(one.last() == b[0]);
    assert(digits_value(one.drop_last()) == 0);
    assert(digits_value(one) == digit_value(b[0]));
    lemma_digits_bound(b0);
    lemma_digits_concat(a, b);
    lemma_pow10_pos((k - 1) as nat);
    let x = digits_value(a);
    let r = digits_value(b);
    let d0 = digit_value(b[0]);
    let rr = digits_value(b0);
    assert(is_digit(b[0]));
    assert(pow10(k) == 10 * t);
    assert(r == d0 * t + rr);
    assert(0 <= r < 10 * t) by (nonlinear_arith)
        requires
            r == d0 * t + rr,
            0 <= d0 <= 9,
            0 <= rr < t,
    ;
    vstd::arithmetic::div_mod::lemma_fundamental_div_mod_converse(
        (x * (10 * t) + r) as int,
        (10 * t) as int,
        x as int,
        r as int,
    );
    assert(d0 > 5 ==> 2 * r > 10 * t) by (nonlinear_arith)
        requires
            r == d0 * t + rr,
            rr >= 0,
            t >= 1,
    ;
    assert(d0 < 5 ==> 2 * r < 10 * t) by (nonlinear_arith)
        requires
            r == d0 * t + rr,
            0 <= d0,
            0 <= rr < t,
    ;
    assert(d0 == 5 ==> (2 * r > 10 * t <==> rr > 0) && (2 * r == 10 * t <==> rr == 0)) by (
    nonlinear_arith)
        requires
            r == d0 * t + rr,
            rr >= 0,
    ;
}

/// Rounding away more digits than a digit string has leaves nothing.
pub proof fn lemma_round_all_away(b: Seq<char>, k: nat)
    requires
        all_digits(b),
        k > b.len(),
    ensures
        round_half_even(digits_value(b), pow10(k)) == 0,
{
    lemma_digits_bound(b);
    lemma_pow10_mono(b.len() + 1, k);
    let d = digits_value(b);
    let p = pow10(b.len());
    assert(pow10(b.len() + 1) == 10 * p);
    vstd::arithmetic::div_mod::lemma_fundamental_div_mod_converse(d as int, pow10(k) as int, 0, d as int);
}

} // verus!
