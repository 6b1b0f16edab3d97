//! Exact decimal numbers for the values of style sheets.
use vstd::prelude::*;

verus! {

/// A decimal number `(-1)^negative * mantissa / 10^scale` in its canonical form: no
/// trailing zero in the mantissa where the scale is positive, and zero written as `0`.
#[derive(Clone, Copy, Debug, PartialEq, Eq)]
pub struct Decimal {
    pub negative: bool,
    pub mantissa: u64,
    pub scale: u32,
}

pub open spec fn pow10(n: nat) -> nat
    decreases n,
{
    if n == 0 {
        1
    } else {
        10 * pow10((n - 1) as nat)
    }
}

pub proof fn lemma_pow10_positive(n: nat)
    ensures
        pow10(n) >= 1,
    decreases n,
{
    if n > 0 {
        lemma_pow10_positive((n - 1) as nat);
    }
}

pub proof fn lemma_pow10_monotonic(a: nat, b: nat)
    requires
        a <= b,
    ensures
        pow10(a) <= pow10(b),
    decreases b,
{
    if a < b {
        lemma_pow10_monotonic(a, (b - 1) as nat);
        lemma_pow10_positive((b - 1) as nat);
    }
}

/// The canonical form of the number `(-1)^negative * m / 10^s`: trailing zeros of the
/// mantissa removed while the scale is positive, zero without sign.
pub open spec fn canon(negative: bool, m: nat, s: nat) -> (bool, nat, nat)
    decreases s,
{
    if s > 0 && m % 10 == 0 {
        canon(negative, m / 10, (s - 1) as nat)
    } else if m == 0 {
        (false, 0, 0)
    } else {
        (negative, m, s)
    }
}

/// The decimal with the value `(-1)^negative * m / 10^s`, where its canonical form fits.
pub open spec fn decimal_of(negative: bool, m: nat, s: nat) -> Option<Decimal> {
    let (n, cm, cs) = canon(negative, m, s);
    if cm <= u64::MAX && cs <= u32::MAX {
        Some(Decimal { negative: n, mantissa: cm as u64, scale: cs as u32 })
    } else {
        None
    }
}

/// The decimal with that value, or zero where its canonical form does not fit.
pub open spec fn decimal_or_zero(negative: bool, m: nat, s: nat) -> Decimal {
    match decimal_of(negative, m, s) {
        Some(d) => d,
        None => Decimal { negative: false, mantissa: 0, scale: 0 },
    }
}

/// The value of `d` divided by `10^k`, or zero where its canonical form does not fit.
pub open spec fn shift(d: Decimal, k: nat) -> Decimal {
    decimal_or_zero(d.negative, d.mantissa as nat, d.scale as nat + k)
}

/// `x` to the power of a decimal's scale is exact: the integer part of its magnitude.
pub open spec fn integer_part(d: Decimal) -> nat {
    d.mantissa as nat / pow10(d.scale as nat)
}

impl Decimal {
    pub open spec fn is_canonical(self) -> bool {
        &&& self.mantissa == 0 ==> !self.negative && self.scale == 0
        &&& self.scale > 0 ==> self.mantissa % 10 != 0
    }

    /// The decimal `(-1)^negative * mantissa / 10^scale`, put in its canonical form.
    pub fn new(negative: bool, mantissa: u64, scale: u32) -> (d: Decimal)
        ensures
            Some(d) == decimal_of(negative, mantissa as nat, scale as nat),
            d.is_canonical(),
    {
        proof {
            lemma_canon_scale(negative, mantissa as nat, scale as nat);
        }
        match canonical(negative, mantissa, scale as u64) {
            Some(d) => d,
            None => Decimal { negative: false, mantissa: 0, scale: 0 },
        }
    }

    /// The value divided by `10^k`, or zero where its canonical form would not fit.
    pub fn shifted(self, k: u32) -> (d: Decimal)
        ensures
            d == shift(self, k as nat),
    {
        match canonical(self.negative, self.mantissa, self.scale as u64 + k as u64) {
            Some(d) => d,
            None => Decimal { negative: false, mantissa: 0, scale: 0 },
        }
    }
}

impl Decimal {
    /// The integer part of the magnitude: the mantissa divided by `10^scale`, rounded down.
    pub fn trunc(self) -> (r: u64)
        ensures
            r == integer_part(self),
    {
        let mut m = self.mantissa;
        let mut k: u32 = 0;
        assert(pow10(0) == 1);
        while k < self.scale && m > 0
            invariant
                k <= self.scale,
                m as nat == self.mantissa as nat / pow10(k as nat),
            decreases self.scale - k,
        {
            proof {
                lemma_pow10_positive(k as nat);
                vstd::arithmetic::div_mod::lemma_div_denominator(
                    self.mantissa as int,
                    pow10(k as nat) as int,
                    10,
                );
                assert(pow10((k + 1) as nat) == pow10(k as nat) * 10);
            }
            m = m / 10;
            k = k + 1;
        }
        proof {
            if k < self.scale {
                lemma_pow10_positive(k as nat);
                lemma_pow10_monotonic(k as nat, self.scale as nat);
                vstd::arithmetic::div_mod::lemma_fundamental_div_mod(
                    self.mantissa as int,
                    pow10(k as nat) as int,
                );
                vstd::arithmetic::div_mod::lemma_mod_bound(
                    self.mantissa as int,
                    pow10(k as nat) as int,
                );
                let d = pow10(k as nat) as int;
                let x = self.mantissa as int;
                assert(x / d == 0);
                assert(d * (x / d) == 0);
                assert(x == x % d);
                assert(x < pow10(self.scale as nat));
                vstd::arithmetic::div_mod::lemma_basic_div(
                    self.mantissa as int,
                    pow10(self.scale as nat) as int,
                );
            }
        }
        m
    }
}

/// The canonical form of `(-1)^negative * m / 10^s`, where its scale fits.
pub fn canonical(negative: bool, m: u64, s: u64) -> (r: Option<Decimal>)
    ensures
        r == decimal_of(negative, m as nat, s as nat),
        r matches Some(d) ==> d.is_canonical(),
{
    let mut m = m;
    let mut sc = s;
    let ghost m0 = m as nat;
    while sc > 0 && m % 10 == 0
        invariant
            canon(negative, m0, s as nat) == canon(negative, m as nat, sc as nat),
        decreases sc,
    {
        m = m / 10;
        sc = sc - 1;
    }
    if sc > u32::MAX as u64 {
        return None;
    }
    if m == 0 {
        Some(Decimal { negative: false, mantissa: 0, scale: 0 })
    } else {
        Some(Decimal { negative, mantissa: m, scale: sc as u32 })
    }
}

/// The canonical scale is never larger, and only zero loses its sign.
pub proof fn lemma_canon_scale(negative: bool, m: nat, s: nat)
    ensures
        canon(negative, m, s).2 <= s,
        canon(negative, m, s).1 <= m,
    decreases s,
{
    if s > 0 && m % 10 == 0 {
        lemma_canon_scale(negative, m / 10, (s - 1) as nat);
    }
}

} // verus!

verus! {

/// `10^k` for the exponents whose power fits `u128`.
pub fn pow10_u128(k: u32) -> (r: u128)
    requires
        k <= 38,
    ensures
        r == pow10(k as nat),
{
    let mut r: u128 = 1;
    let mut i: u32 = 0;
    while i < k
        invariant
            i <= k <= 38,
            r == pow10(i as nat),
        decreases k - i,
    {
        proof {
            lemma_pow10_monotonic((i + 1) as nat, 38);
            lemma_pow10_values();
        }
        r = r * 10;
        i = i + 1;
    }
    r
}

pub proof fn lemma_pow10_values()
    ensures
        pow10(38) == 100000000000000000000000000000000000000nat,
        pow10(20) == 100000000000000000000nat,
        pow10(22) == 10000000000000000000000nat,
{
    reveal_with_fuel(pow10, 39);
}

/// A mantissa that fits `u64` is less than `10^k` from `k = 20` on.
pub proof fn lemma_small_mantissa(m: u64, k: nat)
    requires
        k >= 20,
    ensures
        (m as nat) < pow10(k),
{
    lemma_pow10_values();
    lemma_pow10_monotonic(20, k);
}

} // verus!

verus! {

/// The canonical form keeps the value: `m / 10^s` equals `cm / 10^cs` for
/// `(_, cm, cs) = canon(_, m, s)`, and the form is canonical.
pub proof fn law_canon_keeps_value(negative: bool, m: nat, s: nat)
    ensures
        ({
            let (n, cm, cs) = canon(negative, m, s);
            &&& m * pow10(cs) == cm * pow10(s)
            &&& (cm == 0 ==> !n && cs == 0)
            &&& (cs > 0 ==> cm % 10 != 0)
            &&& (cm != 0 ==> n == negative)
        }),
    decreases s,
{
    if s > 0 && m % 10 == 0 {
        law_canon_keeps_value(negative, m / 10, (s - 1) as nat);
        let (n, cm, cs) = canon(negative, m / 10, (s - 1) as nat);
        assert(pow10(s) == 10 * pow10((s - 1) as nat));
        assert(m == 10 * (m / 10));
        assert(m * pow10(cs) == cm * pow10(s)) by (nonlinear_arith)
            requires
                (m / 10) * pow10(cs) == cm * pow10((s - 1) as nat),
                pow10(s) == 10 * pow10((s - 1) as nat),
                m == 10 * (m / 10),
        ;
    } else if m == 0 {
        assert(pow10(0) == 1);
    }
}

/// A decimal already in canonical form is its own canonical form, so that
/// `Decimal::new` gives it back unchanged.
pub proof fn law_canonical_is_fixed(d: Decimal)
    requires
        d.is_canonical(),
    ensures
        decimal_of(d.negative, d.mantissa as nat, d.scale as nat) == Some(d),
{
}

} // verus!
