use vstd::prelude::*;

use crate::errors::FieldError;
use crate::text::push_char;

verus! {

use vstd::arithmetic::div_mod::{
    lemma_fundamental_div_mod, lemma_fundamental_div_mod_converse, lemma_div_denominator,
    lemma_multiply_divide_lt,
};

// ---------------------------------------------------------------------------
// Decimal digit strings
// ---------------------------------------------------------------------------

pub open spec fn is_digit(c: char) -> bool {
    48 <= c as u32 && c as u32 <= 57
}

pub open spec fn digit_val(c: char) -> nat {
    (c as u32 - 48) as nat
}

pub open spec fn all_digits(s: Seq<char>) -> bool {
    forall|i: int| 0 <= i < s.len() ==> is_digit(#[trigger] s[i])
}

/// The number a string of decimal digits denotes.
pub open spec fn dec_val(s: Seq<char>) -> nat
    decreases s.len(),
{
    if s.len() == 0 {
        0
    } else {
        dec_val(s.drop_last()) * 10 + digit_val(s.last())
    }
}

/// Decimal text accepted for a width whose greatest value is `bound`:
/// nonempty, digits only, value within the width.
pub open spec fn valid_dec(s: Seq<char>, bound: nat) -> bool {
    s.len() > 0 && all_digits(s) && dec_val(s) <= bound
}

proof fn lemma_dec_val_prefix_le(s: Seq<char>, j: int)
    requires
        0 <= j <= s.len(),
    ensures
        dec_val(s.subrange(0, j)) <= dec_val(s),
    decreases s.len() - j,
{
    if j == s.len() {
        assert(s.subrange(0, j) =~= s);
    } else {
        assert(s.subrange(0, j + 1).drop_last() =~= s.subrange(0, j));
        assert(dec_val(s.subrange(0, j)) <= dec_val(s.subrange(0, j + 1)));
        lemma_dec_val_prefix_le(s, j + 1);
    }
}

/// Parses an ASCII decimal string (no sign, no grouping) into a `u64`.
/// Fails with `MalformedNumber` when the string is empty, holds a
/// non-digit, or overflows the width.
pub fn parse_u64_from_text(s: &str) -> (r: Result<u64, FieldError>)
    ensures
        match r {
            Ok(v) => valid_dec(s@, u64::MAX as nat) && v == dec_val(s@),
            Err(e) => e == FieldError::MalformedNumber && !valid_dec(s@, u64::MAX as nat),
        },
{
    let n = s.unicode_len();
    if n == 0 {
        return Err(FieldError::MalformedNumber);
    }
    let mut acc: u64 = 0;
    let mut i: usize = 0;
    while i < n
        invariant
            n == s@.len(),
            0 < n,
            i <= n,
            all_digits(s@.subrange(0, i as int)),
            acc == dec_val(s@.subrange(0, i as int)),
        decreases n - i,
    {
        let c = s.get_char(i);
        let code: u32 = c as u32;
        proof {
            assert(s@.subrange(0, i + 1).drop_last() =~= s@.subrange(0, i as int));
            assert(s@.subrange(0, i + 1).last() == s@[i as int]);
        }
        if code < 48 || code > 57 {
            proof {
                assert(!is_digit(s@[i as int]));
            }
            return Err(FieldError::MalformedNumber);
        }
        let d: u64 = (code - 48) as u64;
        let t: u128 = acc as u128 * 10 + d as u128;
        if t > u64::MAX as u128 {
            proof {
                lemma_dec_val_prefix_le(s@, i + 1);
                assert(dec_val(s@.subrange(0, i + 1)) > u64::MAX as nat);
            }
            return Err(FieldError::MalformedNumber);
        }
        acc = t as u64;
        i = i + 1;
    }
    proof {
        assert(s@.subrange(0, n as int) =~= s@);
    }
    Ok(acc)
}

// ---------------------------------------------------------------------------
// 256-bit unsigned values
// ---------------------------------------------------------------------------

/// An unsigned 256-bit integer as four 64-bit limbs, least significant first.
#[derive(Clone, Copy, Debug, PartialEq, Eq, Structural)]
pub struct U256 {
    pub w0: u64,
    pub w1: u64,
    pub w2: u64,
    pub w3: u64,
}

/// 2 to the 64th, the weight of one limb.
pub open spec fn b64() -> nat {
    0x10000000000000000
}

/// 2 to the 128th.
pub open spec fn b128() -> nat {
    0x10000000000000000nat * 0x10000000000000000
}

/// 2 to the 192nd.
pub open spec fn b192() -> nat {
    0x10000000000000000nat * 0x10000000000000000 * 0x10000000000000000
}

/// One more than the greatest 256-bit value.
pub open spec fn u256_limit() -> nat {
    0x10000000000000000nat * 0x10000000000000000 * 0x10000000000000000
        * 0x10000000000000000
}

/// The greatest 256-bit value.
pub open spec fn u256_max() -> nat {
    (u256_limit() - 1) as nat
}

impl U256 {
    /// The number this value denotes.
    pub open spec fn val(self) -> nat {
        self.w0 as nat + self.w1 as nat * b64() + self.w2 as nat * b128() + self.w3 as nat
            * b192()
    }

    pub proof fn lemma_val_bound(self)
        ensures
            self.val() < u256_limit(),
    {
        assert(self.val() < u256_limit()) by (nonlinear_arith)
            requires
                self.w0 < 0x10000000000000000,
                self.w1 < 0x10000000000000000,
                self.w2 < 0x10000000000000000,
                self.w3 < 0x10000000000000000,
                self.val() == self.w0 as nat + self.w1 as nat * b64() + self.w2 as nat * b128()
                    + self.w3 as nat * b192(),
        ;
    }

    pub fn zero() -> (r: U256)
        ensures
            r.val() == 0,
    {
        U256 { w0: 0, w1: 0, w2: 0, w3: 0 }
    }

    /// One step of decimal accumulation: ten times the value plus a digit,
    /// or `None` when that leaves 256 bits.
    fn mul10_add(&self, d: u64) -> (r: Option<U256>)
        requires
            d < 10,
        ensures
            match r {
                Some(y) => y.val() == self.val() * 10 + d,
                None => self.val() * 10 + d >= u256_limit(),
            },
    {
        let t0: u128 = self.w0 as u128 * 10 + d as u128;
        let y0: u64 = (t0 % 0x10000000000000000) as u64;
        let c0: u64 = (t0 / 0x10000000000000000) as u64;
        let t1: u128 = self.w1 as u128 * 10 + c0 as u128;
        let y1: u64 = (t1 % 0x10000000000000000) as u64;
        let c1: u64 = (t1 / 0x10000000000000000) as u64;
        let t2: u128 = self.w2 as u128 * 10 + c1 as u128;
        let y2: u64 = (t2 % 0x10000000000000000) as u64;
        let c2: u64 = (t2 / 0x10000000000000000) as u64;
        let t3: u128 = self.w3 as u128 * 10 + c2 as u128;
        let y3: u64 = (t3 % 0x10000000000000000) as u64;
        let c3: u64 = (t3 / 0x10000000000000000) as u64;
        proof {
            lemma_multiply_divide_lt(t0 as int, 0x10000000000000000, 0x10000000000000000);
            lemma_multiply_divide_lt(t1 as int, 0x10000000000000000, 0x10000000000000000);
            lemma_multiply_divide_lt(t2 as int, 0x10000000000000000, 0x10000000000000000);
            lemma_multiply_divide_lt(t3 as int, 0x10000000000000000, 0x10000000000000000);
            lemma_fundamental_div_mod(t0 as int, 0x10000000000000000);
            lemma_fundamental_div_mod(t1 as int, 0x10000000000000000);
            lemma_fundamental_div_mod(t2 as int, 0x10000000000000000);
            lemma_fundamental_div_mod(t3 as int, 0x10000000000000000);
            assert(self.val() * 10 + d == y0 as nat + y1 as nat * b64() + y2 as nat * b128()
                + y3 as nat * b192() + c3 as nat * u256_limit()) by (nonlinear_arith)
                requires
                    t0 as int == self.w0 * 10 + d,
                    t1 as int == self.w1 * 10 + c0,
                    t2 as int == self.w2 * 10 + c1,
                    t3 as int == self.w3 * 10 + c2,
                    t0 as int == 0x10000000000000000 * (c0 as int) + y0,
                    t1 as int == 0x10000000000000000 * (c1 as int) + y1,
                    t2 as int == 0x10000000000000000 * (c2 as int) + y2,
                    t3 as int == 0x10000000000000000 * (c3 as int) + y3,
                    self.val() == self.w0 as nat + self.w1 as nat * b64() + self.w2 as nat
                        * b128() + self.w3 as nat * b192(),
            ;
            assert(c3 >= 1 ==> c3 as nat * u256_limit() >= u256_limit()) by (nonlinear_arith);
            assert(c3 == 0 ==> c3 as nat * u256_limit() == 0) by (nonlinear_arith);
        }
        if c3 != 0 {
            None
        } else {
            Some(U256 { w0: y0, w1: y1, w2: y2, w3: y3 })
        }
    }

    /// Parses a decimal string into a 256-bit value, the encoding the
    /// explorer uses for monetary and gas quantities. Fails with
    /// `MalformedNumber` on empty input, a non-digit, or overflow.
    pub fn from_dec_str(s: &str) -> (r: Result<U256, FieldError>)
        ensures
            match r {
                Ok(v) => valid_dec(s@, u256_max()) && v.val() == dec_val(s@),
                Err(e) => e == FieldError::MalformedNumber && !valid_dec(s@, u256_max()),
            },
    {
        let n = s.unicode_len();
        if n == 0 {
            return Err(FieldError::MalformedNumber);
        }
        let mut acc = U256::zero();
        let mut i: usize = 0;
        while i < n
            invariant
                n == s@.len(),
                0 < n,
                i <= n,
                all_digits(s@.subrange(0, i as int)),
                acc.val() == dec_val(s@.subrange(0, i as int)),
            decreases n - i,
        {
            let c = s.get_char(i);
            let code: u32 = c as u32;
            proof {
                assert(s@.subrange(0, i + 1).drop_last() =~= s@.subrange(0, i as int));
                assert(s@.subrange(0, i + 1).last() == s@[i as int]);
            }
            if code < 48 || code > 57 {
                proof {
                    assert(!is_digit(s@[i as int]));
                }
                return Err(FieldError::MalformedNumber);
            }
            let d: u64 = (code - 48) as u64;
            match acc.mul10_add(d) {
                Some(next) => {
                    acc = next;
                },
                None => {
                    proof {
                        lemma_dec_val_prefix_le(s@, i + 1);
                        assert(dec_val(s@.subrange(0, i + 1)) > u256_max());
                    }
                    return Err(FieldError::MalformedNumber);
                },
            }
            i = i + 1;
        }
        proof {
            assert(s@.subrange(0, n as int) =~= s@);
            acc.lemma_val_bound();
        }
        Ok(acc)
    }

    /// Truncates to the low 64 bits. A value above 64 bits wraps silently:
    /// a documented, deliberately lossy step of the gas aggregation.
    pub fn as_u64(&self) -> (r: u64)
        ensures
            r == self.val() % 0x10000000000000000,
    {
        proof {
            assert(self.val() as int == (self.w1 + self.w2 * b64() + self.w3 * b128())
                * 0x10000000000000000 + self.w0) by (nonlinear_arith)
                requires
                    self.val() == self.w0 as nat + self.w1 as nat * b64() + self.w2 as nat
                        * b128() + self.w3 as nat * b192(),
            ;
            lemma_fundamental_div_mod_converse(
                self.val() as int,
                0x10000000000000000,
                self.w1 + self.w2 * b64() + self.w3 * b128(),
                self.w0 as int,
            );
        }
        self.w0
    }

    /// Floor division by a nonzero 64-bit divisor, by schoolbook long
    /// division over the limbs.
    pub fn div_u64(&self, d: u64) -> (r: U256)
        requires
            d > 0,
        ensures
            r.val() == self.val() / (d as nat),
    {
        let dd: u128 = d as u128;
        let c3: u128 = self.w3 as u128;
        let q3: u64 = (c3 / dd) as u64;
        let r3: u64 = (c3 % dd) as u64;
        let c2: u128 = r3 as u128 * 0x10000000000000000 + self.w2 as u128;
        let q2: u64 = (c2 / dd) as u64;
        let r2: u64 = (c2 % dd) as u64;
        let c1: u128 = r2 as u128 * 0x10000000000000000 + self.w1 as u128;
        let q1: u64 = (c1 / dd) as u64;
        let r1: u64 = (c1 % dd) as u64;
        let c0: u128 = r1 as u128 * 0x10000000000000000 + self.w0 as u128;
        let q0: u64 = (c0 / dd) as u64;
        let r0: u64 = (c0 % dd) as u64;
        let res = U256 { w0: q0, w1: q1, w2: q2, w3: q3 };
        proof {
            lemma_multiply_divide_lt(c3 as int, dd as int, 0x10000000000000000);
            lemma_fundamental_div_mod(c3 as int, dd as int);
            lemma_multiply_divide_lt(c2 as int, dd as int, 0x10000000000000000);
            lemma_fundamental_div_mod(c2 as int, dd as int);
            lemma_multiply_divide_lt(c1 as int, dd as int, 0x10000000000000000);
            lemma_fundamental_div_mod(c1 as int, dd as int);
            lemma_multiply_divide_lt(c0 as int, dd as int, 0x10000000000000000);
            lemma_fundamental_div_mod(c0 as int, dd as int);
            assert(self.w3 as int == d as int * (q3 as int) + r3 as int);
            assert(self.w3 as int * 0x10000000000000000 + self.w2 as int == d as int * (
            q3 as int * 0x10000000000000000 + q2 as int) + r2 as int) by (nonlinear_arith)
                requires
                    self.w3 as int == d as int * (q3 as int) + r3 as int,
                    c2 as int == r3 as int * 0x10000000000000000 + self.w2 as int,
                    c2 as int == d as int * (q2 as int) + r2 as int,
            ;
            assert(self.w3 as int * (0x10000000000000000 * 0x10000000000000000) + self.w2 as int
                * 0x10000000000000000 + self.w1 as int == d as int * (q3 as int
                * (0x10000000000000000 * 0x10000000000000000) + q2 as int * 0x10000000000000000
                + q1 as int) + r1 as int) by (nonlinear_arith)
                requires
                    self.w3 as int * 0x10000000000000000 + self.w2 as int == d as int * (
                    q3 as int * 0x10000000000000000 + q2 as int) + r2 as int,
                    c1 as int == r2 as int * 0x10000000000000000 + self.w1 as int,
                    c1 as int == d as int * (q1 as int) + r1 as int,
            ;
            assert(self.w3 as int * (0x10000000000000000 * 0x10000000000000000
                * 0x10000000000000000) + self.w2 as int * (0x10000000000000000
                * 0x10000000000000000) + self.w1 as int * 0x10000000000000000 + self.w0 as int
                == (q3 as int * (0x10000000000000000 * 0x10000000000000000
                * 0x10000000000000000) + q2 as int * (0x10000000000000000
                * 0x10000000000000000) + q1 as int * 0x10000000000000000 + q0 as int) * d as int
                + r0 as int) by (nonlinear_arith)
                requires
                    self.w3 as int * (0x10000000000000000 * 0x10000000000000000)
                        + self.w2 as int * 0x10000000000000000 + self.w1 as int == d as int * (
                    q3 as int * (0x10000000000000000 * 0x10000000000000000) + q2 as int
                        * 0x10000000000000000 + q1 as int) + r1 as int,
                    c0 as int == r1 as int * 0x10000000000000000 + self.w0 as int,
                    c0 as int == d as int * (q0 as int) + r0 as int,
            ;
            lemma_fundamental_div_mod_converse(
                self.val() as int,
                d as int,
                q3 * b192() + q2 * b128() + q1 * b64() + q0,
                r0 as int,
            );
        }
        res
    }
}

// ---------------------------------------------------------------------------
// Powers of ten
// ---------------------------------------------------------------------------

pub open spec fn pow10(e: nat) -> nat
    decreases e,
{
    if e == 0 {
        1
    } else {
        10 * pow10((e - 1) as nat)
    }
}

pub proof fn lemma_pow10_pos(e: nat)
    ensures
        pow10(e) >= 1,
    decreases e,
{
    if e > 0 {
        lemma_pow10_pos((e - 1) as nat);
    }
}

pub proof fn lemma_pow10_monotone(a: nat, b: nat)
    requires
        a <= b,
    ensures
        pow10(a) <= pow10(b),
    decreases b,
{
    if a < b {
        lemma_pow10_monotone(a, (b - 1) as nat);
        lemma_pow10_pos((b - 1) as nat);
    }
}

pub proof fn lemma_pow10_adds(a: nat, b: nat)
    ensures
        pow10(a + b) == pow10(a) * pow10(b),
    decreases a,
{
    if a == 0 {
        assert(pow10(a) == 1);
        assert(pow10(a + b) == pow10(b));
        assert(pow10(a) * pow10(b) == pow10(b));
    } else {
        lemma_pow10_adds((a - 1) as nat, b);
        assert((a + b - 1) as nat == (a - 1) as nat + b);
        assert(pow10(a + b) == 10 * pow10((a - 1) as nat + b));
        assert(pow10(a + b) == 10 * (pow10((a - 1) as nat) * pow10(b)));
        lemma_pow10_pos(a);
        lemma_pow10_pos(b);
        lemma_pow10_pos((a - 1) as nat);
        assert(pow10(a) * pow10(b) == 10 * (pow10((a - 1) as nat) * pow10(b))
            && pow10(a) * pow10(b) >= 1) by (nonlinear_arith)
            requires
                pow10(a) == 10 * pow10((a - 1) as nat),
                pow10(a) >= 1,
                pow10(b) >= 1,
        ;
    }
}

pub proof fn lemma_pow10_19()
    ensures
        pow10(19) == 10000000000000000000,
{
    reveal_with_fuel(pow10, 20);
}

/// Ten to the given power, for exponents that fit a 64-bit result.
pub fn pow10_u64(e: u64) -> (r: u64)
    requires
        e <= 19,
    ensures
        r == pow10(e as nat),
{
    let mut acc: u64 = 1;
    let mut i: u64 = 0;
    while i < e
        invariant
            i <= e <= 19,
            acc == pow10(i as nat),
        decreases e - i,
    {
        proof {
            lemma_pow10_monotone(i as nat, 18);
            lemma_pow10_19();
        }
        acc = acc * 10;
        i = i + 1;
    }
    acc
}

/// Floor division by a power of ten split across two 64-bit divisors, so
/// that any exponent up to 38 is covered.
pub fn div_pow10(amount: U256, decimals: u64) -> (r: U256)
    requires
        decimals <= 38,
    ensures
        r.val() == amount.val() / pow10(decimals as nat),
{
    let (e1, e2): (u64, u64) = if decimals > 19 {
        (19, decimals - 19)
    } else {
        (decimals, 0)
    };
    let d1 = pow10_u64(e1);
    let d2 = pow10_u64(e2);
    proof {
        lemma_pow10_pos(e1 as nat);
        lemma_pow10_pos(e2 as nat);
    }
    let q = amount.div_u64(d1).div_u64(d2);
    proof {
        lemma_div_denominator(amount.val() as int, d1 as int, d2 as int);
        lemma_pow10_adds(e1 as nat, e2 as nat);
    }
    q
}

// ---------------------------------------------------------------------------
// Decimal rendering
// ---------------------------------------------------------------------------

pub open spec fn digit_char(d: nat) -> char {
    if d == 0 {
        '0'
    } else if d == 1 {
        '1'
    } else if d == 2 {
        '2'
    } else if d == 3 {
        '3'
    } else if d == 4 {
        '4'
    } else if d == 5 {
        '5'
    } else if d == 6 {
        '6'
    } else if d == 7 {
        '7'
    } else if d == 8 {
        '8'
    } else {
        '9'
    }
}

/// The canonical decimal rendering of a number: no sign, no leading
/// zeros; zero renders as a single `0`.
pub open spec fn dec_text_of(n: nat) -> Seq<char>
    decreases n,
{
    if n < 10 {
        seq![digit_char(n)]
    } else {
        dec_text_of(n / 10).push(digit_char(n % 10))
    }
}

/// Leading zeros removed, keeping the last character so that `0` itself
/// survives.
pub open spec fn strip_leading_zeros(s: Seq<char>) -> Seq<char>
    decreases s.len(),
{
    if s.len() <= 1 {
        s
    } else if s[0] == '0' {
        strip_leading_zeros(s.drop_first())
    } else {
        s
    }
}

proof fn lemma_digit_nonzero(c: char)
    requires
        is_digit(c),
        c != '0',
    ensures
        digit_val(c) >= 1,
{
}

proof fn lemma_digit_char_inverse(c: char)
    requires
        is_digit(c),
    ensures
        digit_char(digit_val(c)) == c,
{
}

proof fn lemma_dec_val_drop_leading_zero(s: Seq<char>)
    requires
        s.len() >= 1,
        s[0] == '0',
    ensures
        dec_val(s.drop_first()) == dec_val(s),
    decreases s.len(),
{
    if s.len() == 1 {
        assert(dec_val(Seq::<char>::empty()) == 0);
        assert(s.drop_first() =~= Seq::<char>::empty());
        assert(s.drop_last() =~= Seq::<char>::empty());
    } else {
        let t = s.drop_last();
        lemma_dec_val_drop_leading_zero(t);
        assert(s.drop_first().drop_last() =~= t.drop_first());
        assert(s.drop_first().last() == s.last());
    }
}

proof fn lemma_render_exact(s: Seq<char>)
    requires
        s.len() > 0,
        all_digits(s),
        s.len() > 1 ==> s[0] != '0',
    ensures
        dec_text_of(dec_val(s)) == s,
    decreases s.len(),
{
    assert(dec_val(Seq::<char>::empty()) == 0);
    if s.len() == 1 {
        assert(s.drop_last() =~= Seq::<char>::empty());
        assert(dec_val(s) == digit_val(s[0]));
        lemma_digit_char_inverse(s[0]);
        assert(seq![digit_char(digit_val(s[0]))] =~= s);
    } else {
        let t = s.drop_last();
        assert forall|i: int| 0 <= i < t.len() implies is_digit(#[trigger] t[i]) by {
            assert(t[i] == s[i]);
        }
        lemma_dec_val_prefix_le(t, 1);
        assert(t.subrange(0, 1) =~= seq![t[0]]);
        assert(seq![t[0]].drop_last() =~= Seq::<char>::empty());
        assert(t[0] == s[0]);
        assert(is_digit(t[0]));
        lemma_digit_nonzero(t[0]);
        lemma_digit_char_inverse(s.last());
        lemma_fundamental_div_mod_converse(
            dec_val(s) as int,
            10,
            dec_val(t) as int,
            digit_val(s.last()) as int,
        );
        lemma_render_exact(t);
        assert(dec_text_of(dec_val(s)) =~= s);
    }
}

/// Rendering a parsed decimal string yields the input with its leading
/// zeros stripped: the decimal parse round-trips, whatever the width the
/// value was parsed for.
pub proof fn lemma_dec_round_trip(s: Seq<char>)
    requires
        s.len() > 0,
        all_digits(s),
    ensures
        dec_text_of(dec_val(s)) == strip_leading_zeros(s),
    decreases s.len(),
{
    if s.len() == 1 || s[0] != '0' {
        lemma_render_exact(s);
    } else {
        lemma_dec_val_drop_leading_zero(s);
        assert forall|i: int| 0 <= i < s.drop_first().len() implies is_digit(
            #[trigger] s.drop_first()[i],
        ) by {
            assert(s.drop_first()[i] == s[i + 1]);
        }
        lemma_dec_round_trip(s.drop_first());
    }
}

/// Renders a `u64` as decimal text, the inverse of the decimal parser on
/// canonical input.
pub fn u64_to_dec_text(v: u64) -> (r: String)
    ensures
        r@ == dec_text_of(v as nat),
    decreases v,
{
    if v < 10 {
        let mut s = String::new();
        push_char(&mut s, digit_char_exec(v));
        proof {
            assert(s@ =~= seq![digit_char(v as nat)]);
        }
        s
    } else {
        let mut s = u64_to_dec_text(v / 10);
        push_char(&mut s, digit_char_exec(v % 10));
        proof {
            assert(s@ =~= dec_text_of((v / 10) as nat).push(digit_char((v % 10) as nat)));
        }
        s
    }
}

fn digit_char_exec(d: u64) -> (c: char)
    requires
        d < 10,
    ensures
        c == digit_char(d as nat),
{
    if d == 0 {
        '0'
    } else if d == 1 {
        '1'
    } else if d == 2 {
        '2'
    } else if d == 3 {
        '3'
    } else if d == 4 {
        '4'
    } else if d == 5 {
        '5'
    } else if d == 6 {
        '6'
    } else if d == 7 {
        '7'
    } else if d == 8 {
        '8'
    } else {
        '9'
    }
}

} // verus!
