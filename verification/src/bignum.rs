use vstd::prelude::*;

verus! {

/// Base of one limb: 2^32.
pub open spec fn limb_base() -> int {
    0x1_0000_0000
}

/// Value of a little-endian sequence of base-2^32 limbs.
pub open spec fn limbs_val(s: Seq<u32>) -> int
    decreases s.len(),
{
    if s.len() == 0 {
        0
    } else {
        s[0] + limb_base() * limbs_val(s.subrange(1, s.len() as int))
    }
}

/// limb_base() to the power n.
pub open spec fn limb_pow(n: nat) -> int
    decreases n,
{
    if n == 0 {
        1
    } else {
        limb_base() * limb_pow((n - 1) as nat)
    }
}

/// Truncated (round-toward-zero) integer division, the convention of
/// the `div` arithmetic builtin.
pub open spec fn trunc_div(a: int, b: int) -> int {
    let q = abs_int(a) / abs_int(b);
    if (a < 0) == (b < 0) {
        q
    } else {
        -q
    }
}

pub open spec fn abs_int(a: int) -> int {
    if a < 0 {
        -a
    } else {
        a
    }
}

/// An arbitrary-precision signed integer: sign and magnitude in
/// little-endian base-2^32 limbs. Canonical form: no trailing zero
/// limb, and the zero value is never marked negative.
#[derive(Debug, Clone)]
pub struct BigNum {
    neg: bool,
    limbs: Vec<u32>,
}

impl View for BigNum {
    type V = int;

    closed spec fn view(&self) -> int {
        if self.neg {
            -limbs_val(self.limbs@)
        } else {
            limbs_val(self.limbs@)
        }
    }
}

pub proof fn lemma_limbs_val_nonneg(s: Seq<u32>)
    ensures
        0 <= limbs_val(s),
    decreases s.len(),
{
    if s.len() > 0 {
        lemma_limbs_val_nonneg(s.subrange(1, s.len() as int));
    }
}

pub proof fn lemma_limbs_val_push(s: Seq<u32>, w: u32)
    ensures
        limbs_val(s.push(w)) == limbs_val(s) + limb_pow(s.len()) * w,
    decreases s.len(),
{
    if s.len() == 0 {
        assert(s.push(w) =~= seq![w]);
        assert(seq![w].subrange(1, 1) =~= Seq::<u32>::empty());
        assert(limbs_val(seq![w]) == w + limb_base() * limbs_val(Seq::<u32>::empty()));
    } else {
        let t = s.subrange(1, s.len() as int);
        assert(s.push(w).subrange(1, s.push(w).len() as int) =~= t.push(w));
        lemma_limbs_val_push(t, w);
        assert(limbs_val(s.push(w)) == s[0] + limb_base() * (limbs_val(t) + limb_pow(t.len())
            * w));
        assert(limb_base() * (limbs_val(t) + limb_pow(t.len()) * w) == limb_base() * limbs_val(t)
            + limb_base() * limb_pow(t.len()) * w) by (nonlinear_arith);
        assert(limb_pow(s.len()) == limb_base() * limb_pow(t.len()));
        assert(limb_base() * limb_pow(t.len()) * w == limb_pow(s.len()) * w) by (nonlinear_arith)
            requires
                limb_pow(s.len()) == limb_base() * limb_pow(t.len()),
        ;
        assert(limbs_val(s) == s[0] + limb_base() * limbs_val(t));
    }
}

/// A sequence of at most four limbs has a value below 2^128.
pub proof fn lemma_limbs_val_small(s: Seq<u32>)
    requires
        s.len() <= 4,
    ensures
        limbs_val(s) < limb_pow(s.len()),
        limbs_val(s) <= u128::MAX,
    decreases s.len(),
{
    lemma_limbs_val_nonneg(s);
    if s.len() > 0 {
        let t = s.subrange(1, s.len() as int);
        lemma_limbs_val_small(t);
        assert(limbs_val(s) == s[0] + limb_base() * limbs_val(t));
        assert(limb_base() * limbs_val(t) <= limb_base() * (limb_pow(t.len()) - 1))
            by (nonlinear_arith)
            requires
                limbs_val(t) <= limb_pow(t.len()) - 1,
        ;
    }
    lemma_limb_pow_increases(s.len(), 4);
    lemma_limb_pow4();
}

pub proof fn lemma_limb_pow_pos(m: nat)
    ensures
        0 < limb_pow(m),
    decreases m,
{
    if m > 0 {
        lemma_limb_pow_pos((m - 1) as nat);
        assert(limb_base() * limb_pow((m - 1) as nat) > 0) by (nonlinear_arith)
            requires
                limb_pow((m - 1) as nat) > 0,
        ;
    }
}

pub proof fn lemma_limb_pow_increases(m: nat, n: nat)
    requires
        m <= n,
    ensures
        limb_pow(m) <= limb_pow(n),
        0 < limb_pow(m),
    decreases n - m,
{
    lemma_limb_pow_pos(m);
    if m < n {
        lemma_limb_pow_increases(m, (n - 1) as nat);
        lemma_limb_pow_pos((n - 1) as nat);
        assert(limb_base() * limb_pow((n - 1) as nat) >= limb_pow((n - 1) as nat))
            by (nonlinear_arith)
            requires
                limb_pow((n - 1) as nat) > 0,
        ;
    }
}

pub proof fn lemma_limb_pow4()
    ensures
        limb_pow(4) == 0x1_0000_0000_0000_0000_0000_0000_0000_0000,
{
    assert(limb_pow(0) == 1);
    assert(limb_pow(1) == 0x1_0000_0000);
    assert(limb_pow(2) == 0x1_0000_0000_0000_0000);
    assert(limb_pow(3) == 0x1_0000_0000_0000_0000_0000_0000);
}

impl BigNum {
    /// Canonical-form invariant.
    pub closed spec fn wf(&self) -> bool {
        &&& (self.limbs@.len() > 0 ==> self.limbs@.last() != 0)
        &&& (self.neg ==> self.limbs@.len() > 0)
    }

    /// The magnitude, as a mathematical integer.
    pub open spec fn abs_val(&self) -> int {
        abs_int(self@)
    }

    pub fn zero() -> (r: BigNum)
        ensures
            r@ == 0,
            r.wf(),
    {
        BigNum { neg: false, limbs: Vec::new() }
    }

    /// Builds the canonical representation of `mag`, negated when `neg`.
    pub fn from_parts(neg: bool, mag: u128) -> (r: BigNum)
        ensures
            r@ == if neg {
                -(mag as int)
            } else {
                mag as int
            },
            r.wf(),
    {
        let mut limbs: Vec<u32> = Vec::new();
        let mut m: u128 = mag;
        proof {
            assert(limbs_val(limbs@) == 0);
        }
        while m > 0
            invariant
                limbs_val(limbs@) + limb_pow(limbs@.len()) * m == mag,
            0 <= limbs_val(limbs@),
                m == 0 && limbs@.len() > 0 ==> limbs@.last() != 0,
            decreases m,
        {
            let w: u32 = (m % 0x1_0000_0000) as u32;
            let ghost old_limbs = limbs@;
            let ghost old_m = m as int;
            limbs.push(w);
            m = m / 0x1_0000_0000;
            proof {
                lemma_limbs_val_push(old_limbs, w);
                lemma_limb_pow_increases(0, old_limbs.len());
                assert(old_m == w + limb_base() * (m as int));
                assert(limb_pow(old_limbs.len()) * old_m == limb_pow(old_limbs.len()) * w
                    + (limb_pow(old_limbs.len()) * limb_base()) * (m as int))
                    by (nonlinear_arith)
                    requires
                        old_m == w + limb_base() * (m as int),
                ;
                assert(limb_pow(limbs@.len()) == limb_pow(old_limbs.len()) * limb_base()) by {
                    assert(limb_pow(old_limbs.len() + 1) == limb_base() * limb_pow(
                        old_limbs.len()));
                    assert(limb_base() * limb_pow(old_limbs.len()) == limb_pow(old_limbs.len())
                        * limb_base()) by (nonlinear_arith);
                }
            }
        }
        let is_neg = neg && limbs.len() > 0;
        proof {
            lemma_limbs_val_nonneg(limbs@);
            assert(limb_pow(limbs@.len()) * 0 == 0) by (nonlinear_arith);
        }
        BigNum { neg: is_neg, limbs }
    }

    pub fn from_u128(n: u128) -> (r: BigNum)
        ensures
            r@ == n as int,
            r.wf(),
    {
        BigNum::from_parts(false, n)
    }

    pub fn from_i128(n: i128) -> (r: BigNum)
        ensures
            r@ == n as int,
            r.wf(),
    {
        if n < 0 {
            if n == i128::MIN {
                BigNum::from_parts(true, 0x8000_0000_0000_0000_0000_0000_0000_0000u128)
            } else {
                BigNum::from_parts(true, (-n) as u128)
            }
        } else {
            BigNum::from_parts(false, n as u128)
        }
    }

    /// Recovers sign and magnitude when the magnitude fits in 128 bits;
    /// `None` otherwise. Tolerates non-canonical trailing zero limbs.
    pub fn to_parts(&self) -> (r: Option<(bool, u128)>)
        ensures
            match r {
                Some((neg, mag)) => self@ == if neg {
                    -(mag as int)
                } else {
                    mag as int
                },
                None => self.abs_val() > u128::MAX,
            },
    {
        let n = self.limbs.len();
        let mut k: usize = 4;
        if n > 4 {
            while k < n
                invariant
                    4 <= k <= n,
                    n == self.limbs@.len(),
                    forall|i: int| 4 <= i < k ==> self.limbs@[i] == 0,
                decreases n - k,
            {
                if self.limbs[k] != 0 {
                    proof {
                        lemma_limbs_val_lower_bound(self.limbs@, k as int);
                        lemma_limb_pow_increases(4, k as nat);
                        lemma_limb_pow4();
                        lemma_limbs_val_nonneg(self.limbs@);
                    }
                    return None;
                }
                k += 1;
            }
        }
        let l0: u128 = if n > 0 {
            self.limbs[0] as u128
        } else {
            0
        };
        let l1: u128 = if n > 1 {
            self.limbs[1] as u128
        } else {
            0
        };
        let l2: u128 = if n > 2 {
            self.limbs[2] as u128
        } else {
            0
        };
        let l3: u128 = if n > 3 {
            self.limbs[3] as u128
        } else {
            0
        };
        let mag: u128 = l0 + 0x1_0000_0000u128 * (l1 + 0x1_0000_0000u128 * (l2
            + 0x1_0000_0000u128 * l3));
        proof {
            let s = self.limbs@;
            let front = if s.len() > 4 {
                s.subrange(0, 4)
            } else {
                s
            };
            if s.len() > 4 {
                lemma_limbs_val_high_zero(s, 4);
            } else {
                assert(s.subrange(0, s.len() as int) =~= s);
            }
            lemma_limbs_val4(front, l0, l1, l2, l3);
        }
        Some((self.neg, mag))
    }
}

/// Direct formula for the value of at most four limbs.
proof fn lemma_limbs_val4(s: Seq<u32>, l0: u128, l1: u128, l2: u128, l3: u128)
    requires
        s.len() <= 4,
        l0 == if s.len() > 0 {
            s[0] as u128
        } else {
            0
        },
        l1 == if s.len() > 1 {
            s[1] as u128
        } else {
            0
        },
        l2 == if s.len() > 2 {
            s[2] as u128
        } else {
            0
        },
        l3 == if s.len() > 3 {
            s[3] as u128
        } else {
            0
        },
    ensures
        limbs_val(s) == l0 + limb_base() * (l1 + limb_base() * (l2 + limb_base() * l3)),
{
    if s.len() == 0 {
    } else {
        let t1 = s.subrange(1, s.len() as int);
        assert(limbs_val(s) == s[0] + limb_base() * limbs_val(t1));
        if t1.len() == 0 {
        } else {
            let t2 = t1.subrange(1, t1.len() as int);
            assert(limbs_val(t1) == t1[0] + limb_base() * limbs_val(t2));
            assert(t1[0] == s[1]);
            if t2.len() == 0 {
            } else {
                let t3 = t2.subrange(1, t2.len() as int);
                assert(limbs_val(t2) == t2[0] + limb_base() * limbs_val(t3));
                assert(t2[0] == s[2]);
                if t3.len() == 0 {
                } else {
                    let t4 = t3.subrange(1, t3.len() as int);
                    assert(t4 =~= Seq::<u32>::empty());
                    assert(limbs_val(t3) == t3[0] + limb_base() * limbs_val(t4));
                    assert(t3[0] == s[3]);
                }
            }
        }
    }
}

/// If some limb at or beyond position k is nonzero, the value is at
/// least limb_pow(k).
pub proof fn lemma_limbs_val_lower_bound(s: Seq<u32>, k: int)
    requires
        0 <= k < s.len(),
        s[k] != 0,
    ensures
        limbs_val(s) >= limb_pow(k as nat),
    decreases k,
{
    lemma_limbs_val_nonneg(s);
    let t = s.subrange(1, s.len() as int);
    if k == 0 {
        lemma_limbs_val_nonneg(t);
        assert(limb_base() * limbs_val(t) >= 0) by (nonlinear_arith)
            requires
                limbs_val(t) >= 0,
        ;
    } else {
        lemma_limbs_val_lower_bound(t, k - 1);
        assert(limb_base() * limbs_val(t) >= limb_base() * limb_pow((k - 1) as nat))
            by (nonlinear_arith)
            requires
                limbs_val(t) >= limb_pow((k - 1) as nat),
        ;
    }
}

/// When all limbs at or beyond position k are zero, only the first k
/// limbs contribute.
pub proof fn lemma_limbs_val_high_zero(s: Seq<u32>, k: int)
    requires
        0 <= k <= s.len(),
        forall|i: int| k <= i < s.len() ==> s[i] == 0,
    ensures
        limbs_val(s) == limbs_val(s.subrange(0, k)),
    decreases s.len(),
{
    if s.len() == 0 {
        assert(s.subrange(0, k) =~= s);
    } else if k == 0 {
        let t = s.subrange(1, s.len() as int);
        lemma_limbs_val_high_zero(t, 0);
        assert(t.subrange(0, 0) =~= Seq::<u32>::empty());
        assert(limb_base() * 0 == 0) by (nonlinear_arith);
        assert(s.subrange(0, 0) =~= Seq::<u32>::empty());
    } else {
        let t = s.subrange(1, s.len() as int);
        lemma_limbs_val_high_zero(t, k - 1);
        assert(s.subrange(0, k).subrange(1, k) =~= t.subrange(0, k - 1));
        assert(limbs_val(s.subrange(0, k)) == s[0] + limb_base() * limbs_val(
            t.subrange(0, k - 1)));
    }
}

} // verus!

verus! {

pub open spec fn is_dec_digit(c: char) -> bool {
    48 <= c as u32 <= 57
}

pub open spec fn dec_digit_val(c: char) -> int {
    c as u32 - 48
}

/// Value of a big-endian sequence of decimal digit characters.
pub open spec fn dec_val(s: Seq<char>) -> int
    decreases s.len(),
{
    if s.len() == 0 {
        0
    } else {
        10 * dec_val(s.drop_last()) + dec_digit_val(s.last())
    }
}

/// The sign handling of num_bigint's `FromStr`: a leading `-` is
/// stripped unless a `+` follows it.
pub open spec fn dec_strip_minus(s: Seq<char>) -> (bool, Seq<char>) {
    if s.len() >= 1 && s[0] == '-' && !(s.len() >= 2 && s[1] == '+') {
        (true, s.subrange(1, s.len() as int))
    } else {
        (false, s)
    }
}

/// The plus handling of num_bigint's unsigned parser: a leading `+` is
/// stripped unless another `+` follows it.
pub open spec fn dec_strip_plus(s: Seq<char>) -> Seq<char> {
    if s.len() >= 1 && s[0] == '+' && !(s.len() >= 2 && s[1] == '+') {
        s.subrange(1, s.len() as int)
    } else {
        s
    }
}

/// What num_bigint accepts after the signs: a nonempty run of decimal
/// digits and `_` separators that does not begin with `_`.
pub open spec fn dec_body_valid(u: Seq<char>) -> bool {
    &&& u.len() > 0
    &&& u[0] != '_'
    &&& forall|i: int| 0 <= i < u.len() ==> is_dec_digit(u[i]) || u[i] == '_'
}

/// The exact result of parsing `s` as a base-10 integer the way
/// num_bigint's `FromStr` does.
pub open spec fn spec_parse_int(s: Seq<char>) -> Option<int> {
    let (neg, t) = dec_strip_minus(s);
    let u = dec_strip_plus(t);
    if dec_body_valid(u) {
        let v = dec_val(u.filter(|c: char| is_dec_digit(c)));
        Some(
            if neg {
                -v
            } else {
                v
            },
        )
    } else {
        None
    }
}

pub open spec fn spec_digit_char(d: int) -> char {
    ((48 + d) as u8) as char
}

/// Decimal rendering of a nonnegative integer, without leading zeros.
pub open spec fn spec_dec_repr_nat(n: nat) -> Seq<char>
    decreases n,
{
    if n < 10 {
        seq![spec_digit_char(n as int)]
    } else {
        spec_dec_repr_nat(n / 10).push(spec_digit_char((n % 10) as int))
    }
}

/// Decimal rendering of an integer, `-` prefixed when negative.
pub open spec fn spec_dec_repr(v: int) -> Seq<char> {
    if v < 0 {
        seq!['-'] + spec_dec_repr_nat((-v) as nat)
    } else {
        spec_dec_repr_nat(v as nat)
    }
}

/// Relies on num_bigint::BigInt: `new` builds the integer named by a
/// sign and little-endian base-2^32 digits, `+` computes the exact sum,
/// and `to_u32_digits` returns the sign and the canonical digits.
#[verifier::external_body]
pub(crate) fn big_add(a: &BigNum, b: &BigNum) -> (r: BigNum)
    ensures
        r@ == a@ + b@,
        r.wf(),
{
    let x = num_bigint::BigInt::new(if a.neg { num_bigint::Sign::Minus } else { num_bigint::Sign::Plus }, a.limbs.clone());
    let y = num_bigint::BigInt::new(if b.neg { num_bigint::Sign::Minus } else { num_bigint::Sign::Plus }, b.limbs.clone());
    let (s, digits) = (x + y).to_u32_digits();
    BigNum { neg: matches!(s, num_bigint::Sign::Minus), limbs: digits }
}

/// Relies on num_bigint::BigInt: as `big_add`, with `-` computing the
/// exact difference.
#[verifier::external_body]
pub(crate) fn big_sub(a: &BigNum, b: &BigNum) -> (r: BigNum)
    ensures
        r@ == a@ - b@,
        r.wf(),
{
    let x = num_bigint::BigInt::new(if a.neg { num_bigint::Sign::Minus } else { num_bigint::Sign::Plus }, a.limbs.clone());
    let y = num_bigint::BigInt::new(if b.neg { num_bigint::Sign::Minus } else { num_bigint::Sign::Plus }, b.limbs.clone());
    let (s, digits) = (x - y).to_u32_digits();
    BigNum { neg: matches!(s, num_bigint::Sign::Minus), limbs: digits }
}

/// Relies on num_bigint::BigInt: as `big_add`, with `*` computing the
/// exact product.
#[verifier::external_body]
pub(crate) fn big_mul(a: &BigNum, b: &BigNum) -> (r: BigNum)
    ensures
        r@ == a@ * b@,
        r.wf(),
{
    let x = num_bigint::BigInt::new(if a.neg { num_bigint::Sign::Minus } else { num_bigint::Sign::Plus }, a.limbs.clone());
    let y = num_bigint::BigInt::new(if b.neg { num_bigint::Sign::Minus } else { num_bigint::Sign::Plus }, b.limbs.clone());
    let (s, digits) = (x * y).to_u32_digits();
    BigNum { neg: matches!(s, num_bigint::Sign::Minus), limbs: digits }
}

/// Relies on num_bigint::BigInt: as `big_add`, with `/` computing the
/// quotient truncated toward zero; division by zero would panic, so it
/// is excluded here.
#[verifier::external_body]
pub(crate) fn big_div(a: &BigNum, b: &BigNum) -> (r: BigNum)
    requires
        b@ != 0,
    ensures
        r@ == trunc_div(a@, b@),
        r.wf(),
{
    let x = num_bigint::BigInt::new(if a.neg { num_bigint::Sign::Minus } else { num_bigint::Sign::Plus }, a.limbs.clone());
    let y = num_bigint::BigInt::new(if b.neg { num_bigint::Sign::Minus } else { num_bigint::Sign::Plus }, b.limbs.clone());
    let (s, digits) = (x / y).to_u32_digits();
    BigNum { neg: matches!(s, num_bigint::Sign::Minus), limbs: digits }
}

/// Relies on num_bigint::BigInt's `FromStr`: base-10 parsing of an
/// optional sign followed by digits with `_` separators.
#[verifier::external_body]
pub(crate) fn big_from_decimal(s: &str) -> (r: Option<BigNum>)
    ensures
        match r {
            Some(b) => spec_parse_int(s@) == Some(b@) && b.wf(),
            None => spec_parse_int(s@) is None,
        },
{
    let parsed: Result<num_bigint::BigInt, _> = s.parse();
    match parsed {
        Ok(x) => {
            let (sg, digits) = x.to_u32_digits();
            Some(BigNum { neg: matches!(sg, num_bigint::Sign::Minus), limbs: digits })
        },
        Err(_) => None,
    }
}

/// Relies on num_bigint::BigInt's `to_str_radix`: base-10 rendering,
/// minus-prefixed when negative, without leading zeros.
#[verifier::external_body]
pub(crate) fn big_to_decimal(a: &BigNum) -> (r: String)
    ensures
        r@ == spec_dec_repr(a@),
{
    let x = num_bigint::BigInt::new(if a.neg { num_bigint::Sign::Minus } else { num_bigint::Sign::Plus }, a.limbs.clone());
    x.to_str_radix(10)
}

} // verus!

verus! {

impl BigNum {
    /// Field-for-field equality of representations. On canonical
    /// values this coincides with equality of the numbers.
    pub closed spec fn same_repr(&self, o: &BigNum) -> bool {
        self.neg == o.neg && self.limbs@ == o.limbs@
    }

    pub fn eq_repr(&self, o: &BigNum) -> (r: bool)
        ensures
            r == self.same_repr(o),
            r ==> self@ == o@,
    {
        if self.neg != o.neg {
            return false;
        }
        if self.limbs.len() != o.limbs.len() {
            proof {
                assert(self.limbs@.len() != o.limbs@.len());
            }
            return false;
        }
        let n = self.limbs.len();
        let mut i: usize = 0;
        while i < n
            invariant
                i <= n,
                n == self.limbs@.len(),
                n == o.limbs@.len(),
                forall|k: int| 0 <= k < i ==> self.limbs@[k] == o.limbs@[k],
            decreases n - i,
        {
            if self.limbs[i] != o.limbs[i] {
                return false;
            }
            i += 1;
        }
        proof {
            assert(self.limbs@ =~= o.limbs@);
        }
        true
    }
}

} // verus!

verus! {

impl BigNum {
    /// Whether the value is zero, whatever the representation.
    pub fn is_zero(&self) -> (r: bool)
        ensures
            r == (self@ == 0),
    {
        let n = self.limbs.len();
        let mut i: usize = 0;
        while i < n
            invariant
                i <= n,
                n == self.limbs@.len(),
                forall|k: int| 0 <= k < i ==> self.limbs@[k] == 0,
            decreases n - i,
        {
            if self.limbs[i] != 0 {
                proof {
                    lemma_limbs_val_lower_bound(self.limbs@, i as int);
                    lemma_limb_pow_pos(i as nat);
                }
                return false;
            }
            i += 1;
        }
        proof {
            lemma_limbs_val_high_zero(self.limbs@, 0);
            assert(self.limbs@.subrange(0, 0) =~= Seq::<u32>::empty());
        }
        true
    }
}

} // verus!

use vstd::arithmetic::power2::{lemma2_to64, lemma_pow2_pos, lemma_pow2_unfold, pow2};

verus! {

impl BigNum {
    /// The same magnitude with the opposite sign.
    pub fn negated(self) -> (r: BigNum)
        ensures
            r@ == -self@,
            self.wf() ==> r.wf(),
    {
        if self.limbs.len() == 0 {
            proof {
                lemma_limbs_val_nonneg(self.limbs@);
            }
            self
        } else {
            BigNum { neg: !self.neg, limbs: self.limbs }
        }
    }
}

/// The value scaled by two to the k, exactly.
pub(crate) fn times_pow2(b: BigNum, k: u64) -> (r: BigNum)
    requires
        b.wf(),
    ensures
        r@ == b@ * pow2(k as nat),
        r.wf(),
{
    let mut acc = b;
    let mut i: u64 = 0;
    let two = BigNum::from_u128(2);
    proof {
        assert(pow2(0) == 1) by {
            lemma2_to64();
        }
        assert(b@ * pow2(0) == b@) by (nonlinear_arith)
            requires
                pow2(0) == 1,
        ;
    }
    while i < k
        invariant
            i <= k,
            two@ == 2,
            acc@ == b@ * pow2(i as nat),
            acc.wf(),
        decreases k - i,
    {
        let ghost old_acc = acc@;
        acc = big_mul(&acc, &two);
        i += 1;
        proof {
            lemma_pow2_unfold(i as nat);
            assert(acc@ == (b@ * pow2((i - 1) as nat)) * 2);
            assert((b@ * pow2((i - 1) as nat)) * 2 == b@ * (2 * pow2((i - 1) as nat)))
                by (nonlinear_arith);
        }
    }
    acc
}

} // verus!
