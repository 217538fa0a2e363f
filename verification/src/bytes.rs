//! Tri-state byte containers.
//!
//! A [`Bytes`] value is a little-endian container of tri-state bytes: each
//! byte is either a known 8-bit value (`Some`) or unknown (`None`). Byte 0 is
//! the least significant. Every net and register of the simulated datapath
//! carries such a container, so a net that has never been driven, or a
//! computation fed by one, is represented in the value itself rather than as
//! an error.
//!
//! Arithmetic is two's-complement and wraps modulo `2^(8*len)`. An unknown
//! operand byte makes the result bytes that depend on it unknown; the
//! bitwise operations additionally propagate known bytes across unknowns
//! through their absorbing elements (`x AND 00 == 00`, `x OR FF == FF`).

use vstd::arithmetic::div_mod::{lemma_mul_mod_noop_right, lemma_small_mod};
use vstd::arithmetic::power2::{lemma_pow2_adds, lemma_pow2_pos, pow2};
use vstd::prelude::*;

verus! {

/// Value of one tri-state byte when it is known; an unknown byte counts as 0.
/// Used together with [`all_known`], which says whether any byte is unknown.
pub open spec fn known_byte(t: Option<u8>) -> nat {
    match t {
        Some(v) => v as nat,
        None => 0,
    }
}

/// Every byte of the container holds a known value.
pub open spec fn all_known(s: Seq<Option<u8>>) -> bool {
    forall|i: int| 0 <= i < s.len() ==> s[i] is Some
}

/// The unsigned integer value of a little-endian byte sequence
/// (meaningful when `all_known(s)`; unknown bytes count as 0).
pub open spec fn le_val(s: Seq<Option<u8>>) -> nat
    decreases s.len(),
{
    if s.len() == 0 {
        0
    } else {
        known_byte(s[0]) + 256 * le_val(s.skip(1))
    }
}

/// The signed (two's-complement) integer value of a non-empty little-endian
/// byte sequence: the sign is the top bit of the most significant byte.
pub open spec fn le_val_signed(s: Seq<Option<u8>>) -> int {
    if known_byte(s[s.len() - 1]) >= 128 {
        le_val(s) - pow2(8 * s.len())
    } else {
        le_val(s) as int
    }
}

/// An all-unknown sequence of length `n`.
pub open spec fn unknown_seq(n: nat) -> Seq<Option<u8>> {
    Seq::new(n, |i: int| None::<u8>)
}

/// An all-zero (known) sequence of length `n`.
pub open spec fn zero_seq(n: nat) -> Seq<Option<u8>> {
    Seq::new(n, |i: int| Some(0u8))
}

/// The little-endian byte sequence of length `n` holding `v mod 2^(8n)`.
pub open spec fn from_nat(n: nat, v: nat) -> Seq<Option<u8>> {
    Seq::new(n, |i: int| Some((((v / pow2(8 * i as nat)) % 256) as u8)))
}

/// A control net counts as asserted when its value is fully known and
/// non-zero; an unknown or zero net asserts nothing.
pub open spec fn asserted(s: Seq<Option<u8>>) -> bool {
    all_known(s) && le_val(s) != 0
}

/// A tri-state byte container; byte 0 is the least significant.
#[derive(Debug)]
pub struct Bytes {
    /// The bytes, least significant first; `None` marks an unknown byte.
    pub data: Vec<Option<u8>>,
}

impl View for Bytes {
    type V = Seq<Option<u8>>;

    open spec fn view(&self) -> Seq<Option<u8>> {
        self.data@
    }
}

impl PartialEq for Bytes {
    fn eq(&self, other: &Bytes) -> (r: bool) {
        self.same_as(other)
    }
}

impl Eq for Bytes {

}

impl vstd::std_specs::cmp::PartialEqSpecImpl for Bytes {
    open spec fn obeys_eq_spec() -> bool {
        true
    }

    open spec fn eq_spec(&self, other: &Bytes) -> bool {
        self@ == other@
    }
}

impl Clone for Bytes {
    fn clone(&self) -> (r: Self)
        ensures
            r@ == self@,
    {
        Bytes { data: self.data.clone() }
    }
}

impl Bytes {
    /// A container of `n` unknown bytes: the initial value of every net.
    pub fn unknown(n: usize) -> (r: Bytes)
        ensures
            r@ == unknown_seq(n as nat),
    {
        let data: Vec<Option<u8>> = vec![None; n];
        proof {
            assert(data@ =~= unknown_seq(n as nat));
        }
        Bytes { data }
    }

    /// A container of `n` known zero bytes.
    pub fn zeros(n: usize) -> (r: Bytes)
        ensures
            r@ == zero_seq(n as nat),
    {
        let data: Vec<Option<u8>> = vec![Some(0u8); n];
        proof {
            assert(data@ =~= zero_seq(n as nat));
        }
        Bytes { data }
    }

    /// The number of bytes in the container.
    pub fn len(&self) -> (n: usize)
        ensures
            n == self@.len(),
    {
        self.data.len()
    }

    /// The byte at `index` (`None` if unknown).
    pub fn get(&self, index: usize) -> (r: Option<u8>)
        requires
            index < self@.len(),
        ensures
            r == self@[index as int],
    {
        self.data[index]
    }

    /// Replaces the byte at `index`.
    pub fn set(&mut self, index: usize, value: Option<u8>)
        requires
            index < old(self)@.len(),
        ensures
            final(self)@ == old(self)@.update(index as int, value),
    {
        self.data[index] = value;
    }

    /// True if any byte is unknown.
    pub fn has_unknown(&self) -> (r: bool)
        ensures
            r == !all_known(self@),
    {
        let n = self.data.len();
        for i in 0..n
            invariant
                n == self@.len(),
                forall|j: int| 0 <= j < i ==> self@[j] is Some,
        {
            if self.data[i].is_none() {
                return true;
            }
        }
        false
    }

    /// True if no byte is known to be non-zero (an unknown byte passes).
    pub fn is_zero(&self) -> (r: bool)
        ensures
            r == (forall|j: int| 0 <= j < self@.len() ==> known_byte(self@[j]) == 0),
    {
        let n = self.data.len();
        for i in 0..n
            invariant
                n == self@.len(),
                forall|j: int| 0 <= j < i ==> known_byte(self@[j]) == 0,
        {
            match self.data[i] {
                Some(v) => {
                    if v != 0 {
                        return false;
                    }
                },
                None => {},
            }
        }
        true
    }

    /// True if the value is fully known and non-zero: the condition under
    /// which a control signal or a memory response counts as asserted.
    pub fn is_something_nonzero(&self) -> (r: bool)
        ensures
            r == (all_known(self@) && le_val(self@) != 0),
    {
        proof {
            lemma_le_val_zero_iff(self@);
        }
        !self.has_unknown() && !self.is_zero()
    }
}

/// `le_val(s) == 0` exactly when every byte counts as zero.
pub proof fn lemma_le_val_zero_iff(s: Seq<Option<u8>>)
    ensures
        (le_val(s) == 0) == (forall|j: int| 0 <= j < s.len() ==> known_byte(s[j]) == 0),
    decreases s.len(),
{
    if s.len() > 0 {
        lemma_le_val_zero_iff(s.skip(1));
        assert(forall|j: int| 0 <= j < s.skip(1).len() ==> s.skip(1)[j] == s[j + 1]);
        if le_val(s) == 0 {
            assert(forall|j: int| 0 <= j < s.len() ==> known_byte(s[j]) == 0) by {
                assert(forall|j: int|
                    1 <= j < s.len() ==> known_byte(s[j]) == known_byte(s.skip(1)[j - 1]));
            }
        } else {
            if known_byte(s[0]) == 0 {
                assert(le_val(s.skip(1)) != 0);
                let j = choose|j: int|
                    0 <= j < s.skip(1).len() && known_byte(s.skip(1)[j]) != 0;
                assert(known_byte(s[j + 1]) != 0);
            }
        }
    }
}

/// Splitting a byte sequence at `i` splits its value:
/// the prefix holds the low `8*i` bits, the suffix the rest.
#[verifier::spinoff_prover]
pub proof fn lemma_le_val_split(s: Seq<Option<u8>>, i: int)
    requires
        0 <= i <= s.len(),
    ensures
        le_val(s) == le_val(s.take(i)) + pow2(8 * i as nat) * le_val(s.skip(i)),
    decreases i,
{
    if i == 0 {
        assert(s.take(0) =~= Seq::<Option<u8>>::empty());
        assert(s.skip(0) =~= s);
        assert(le_val(Seq::<Option<u8>>::empty()) == 0);
        assert(pow2(0) == 1) by {
            vstd::arithmetic::power2::lemma2_to64();
        }
        assert(pow2(0) * le_val(s) == le_val(s)) by (nonlinear_arith)
            requires
                pow2(0) == 1,
        ;
    } else {
        let t = s.skip(1);
        lemma_le_val_split(t, i - 1);
        assert(t.take(i - 1) =~= s.take(i).skip(1));
        assert(t.skip(i - 1) =~= s.skip(i));
        lemma_pow2_adds(8, 8 * (i - 1) as nat);
        assert(pow2(8) == 256) by {
            vstd::arithmetic::power2::lemma2_to64();
        }
        let a = known_byte(s[0]);
        let q = le_val(s.take(i).skip(1));
        let w = le_val(s.skip(i));
        let p1 = pow2(8 * (i - 1) as nat);
        assert(le_val(t) == q + p1 * w);
        assert(s.take(i)[0] == s[0]);
        assert(le_val(s.take(i)) == a + 256 * q);
        assert(le_val(s) == a + 256 * (q + p1 * w));
        assert(256 * (q + p1 * w) == 256 * q + (256 * p1) * w) by (nonlinear_arith);
        assert(pow2(8 * i as nat) == 256 * p1);
        assert(le_val(s) == a + 256 * q + (256 * p1) * w);
        assert(pow2(8 * i as nat) * w == (256 * p1) * w);
        assert(le_val(s) == le_val(s.take(i)) + pow2(8 * i as nat) * w);
    }
}

/// Appending one byte adds its value at the top.
pub proof fn lemma_le_val_push(s: Seq<Option<u8>>, x: Option<u8>)
    ensures
        le_val(s.push(x)) == le_val(s) + known_byte(x) * pow2(8 * s.len()),
{
    let p = s.push(x);
    lemma_le_val_split(p, s.len() as int);
    assert(p.take(s.len() as int) =~= s);
    assert(p.skip(s.len() as int) =~= seq![x]);
    let single = seq![x];
    assert(single.skip(1) =~= Seq::<Option<u8>>::empty());
    assert(le_val(Seq::<Option<u8>>::empty()) == 0);
    assert(le_val(single) == known_byte(x) + 256 * le_val(single.skip(1)));
    assert(pow2(8 * s.len()) * known_byte(x) == known_byte(x) * pow2(8 * s.len()));
}

/// The value of a byte sequence is below `2^(8*len)`.
pub proof fn lemma_le_val_bound(s: Seq<Option<u8>>)
    ensures
        le_val(s) < pow2(8 * s.len()),
    decreases s.len(),
{
    if s.len() == 0 {
        assert(pow2(0) == 1) by {
            vstd::arithmetic::power2::lemma2_to64();
        }
    } else {
        lemma_le_val_bound(s.skip(1));
        lemma_pow2_adds(8, 8 * (s.len() - 1) as nat);
        assert(pow2(8) == 256) by {
            vstd::arithmetic::power2::lemma2_to64();
        }
        assert(known_byte(s[0]) < 256);
        assert(le_val(s) <= 255 + 256 * le_val(s.skip(1)));
        assert(256 * le_val(s.skip(1)) <= 256 * (pow2(8 * (s.len() - 1) as nat) - 1)) by {
            vstd::arithmetic::mul::lemma_mul_inequality(
                le_val(s.skip(1)) as int,
                pow2(8 * (s.len() - 1) as nat) - 1,
                256,
            );
        }
    }
}

impl Bytes {
    /// The low `8*n` bits of `v` as `n` known little-endian bytes.
    fn le_bytes_of(v: u128, n: usize) -> (r: Bytes)
        requires
            n <= 16,
        ensures
            r@.len() == n,
            all_known(r@),
            le_val(r@) == (v as nat) % pow2(8 * n as nat),
    {
        let mut data: Vec<Option<u8>> = Vec::new();
        let mut i: usize = 0;
        proof {
            vstd::arithmetic::power2::lemma2_to64();
            assert((v as nat) % 1 == 0) by (nonlinear_arith);
        }
        while i < n
            invariant
                i <= n,
                n <= 16,
                data@.len() == i,
                all_known(data@),
                le_val(data@) == (v as nat) % pow2(8 * i as nat),
            decreases n - i,
        {
            let sh: u128 = 8 * (i as u128);
            let b: u8 = ((v >> sh) & 0xFF) as u8;
            proof {
                let p = pow2(8 * i as nat);
                lemma_pow2_pos(8 * i as nat);
                assert(v >> sh == v as nat / p) by {
                    vstd::bits::lemma_u128_shr_is_div(v, sh);
                }
                assert((v >> sh) & 0xFF == (v >> sh) % 256 && (v >> sh) & 0xFF < 256)
                    by (bit_vector);
                assert(pow2(8 * (i + 1) as nat) == p * 256) by {
                    lemma_pow2_adds(8 * i as nat, 8);
                    vstd::arithmetic::power2::lemma2_to64();
                }
                vstd::arithmetic::div_mod::lemma_breakdown(v as int, p as int, 256);
                lemma_le_val_push(data@, Some(b));
                assert(b as nat == (v as nat / p) % 256);
                assert(le_val(data@.push(Some(b))) == (v as nat) % p + (b as nat) * p);
                assert((v as nat) % (p * 256) == p * ((v as nat / p) % 256) + (v as nat) % p);
                assert((b as nat) * p == p * ((v as nat / p) % 256)) by (nonlinear_arith)
                    requires
                        b as nat == (v as nat / p) % 256,
                ;
                assert(le_val(data@.push(Some(b))) == (v as nat) % pow2(8 * (i + 1) as nat));
            }
            data.push(Some(b));
            i = i + 1;
        }
        Bytes { data }
    }

    /// A 1-byte container holding `v`.
    pub fn from_u8(v: u8) -> (r: Bytes)
        ensures
            r@.len() == 1,
            all_known(r@),
            le_val(r@) == v as nat,
            r@ == from_nat(1, v as nat),
    {
        proof {
            vstd::arithmetic::power2::lemma2_to64();
            lemma_small_mod(v as nat, pow2(8));
        }
        let r = Self::le_bytes_of(v as u128, 1);
        proof {
            lemma_le_val_round_trip(r@);
        }
        r
    }

    /// The single known byte `v`, as the value control signals carry.
    pub fn of_byte(v: u8) -> (r: Bytes)
        ensures
            r@ == seq![Some(v)],
    {
        let r = Self::from_u8(v);
        proof {
            assert(r@.skip(1) =~= Seq::<Option<u8>>::empty());
            assert(le_val(r@) == known_byte(r@[0]));
            assert(r@ =~= seq![Some(v)]);
        }
        r
    }

    /// A 2-byte container holding `v`, least significant byte first.
    pub fn from_u16(v: u16) -> (r: Bytes)
        ensures
            r@.len() == 2,
            all_known(r@),
            le_val(r@) == v as nat,
            r@ == from_nat(2, v as nat),
    {
        proof {
            vstd::arithmetic::power2::lemma2_to64();
            lemma_small_mod(v as nat, pow2(16));
        }
        let r = Self::le_bytes_of(v as u128, 2);
        proof {
            lemma_le_val_round_trip(r@);
        }
        r
    }

    /// A 4-byte container (a machine word) holding `v`.
    pub fn from_u32(v: u32) -> (r: Bytes)
        ensures
            r@.len() == 4,
            all_known(r@),
            le_val(r@) == v as nat,
            r@ == from_nat(4, v as nat),
    {
        proof {
            vstd::arithmetic::power2::lemma2_to64();
            lemma_small_mod(v as nat, pow2(32));
        }
        let r = Self::le_bytes_of(v as u128, 4);
        proof {
            lemma_le_val_round_trip(r@);
        }
        r
    }

    /// An 8-byte container holding `v`.
    pub fn from_u64(v: u64) -> (r: Bytes)
        ensures
            r@.len() == 8,
            all_known(r@),
            le_val(r@) == v as nat,
            r@ == from_nat(8, v as nat),
    {
        proof {
            vstd::arithmetic::power2::lemma2_to64();
            lemma_small_mod(v as nat, pow2(64));
        }
        let r = Self::le_bytes_of(v as u128, 8);
        proof {
            lemma_le_val_round_trip(r@);
        }
        r
    }

    /// A 16-byte container holding `v`.
    pub fn from_u128(v: u128) -> (r: Bytes)
        ensures
            r@.len() == 16,
            all_known(r@),
            le_val(r@) == v as nat,
            r@ == from_nat(16, v as nat),
    {
        proof {
            vstd::arithmetic::power2::lemma2_to64();
            lemma_pow2_adds(64, 64);
            assert(v < pow2(64) * pow2(64)) by {
                vstd::arithmetic::mul::lemma_mul_strictly_increases(
                    pow2(64) as int,
                    pow2(64) as int,
                );
            }
            lemma_small_mod(v as nat, pow2(128));
        }
        let r = Self::le_bytes_of(v, 16);
        proof {
            lemma_le_val_round_trip(r@);
        }
        r
    }

    /// The value of the first `min(len, cap)` bytes, or `None` if any of
    /// them is unknown.
    fn prefix_val(&self, cap: usize) -> (r: Option<u128>)
        requires
            cap <= 16,
        ensures
            ({
                let m = if self@.len() < cap as nat { self@.len() as int } else { cap as int };
                r == if all_known(self@.take(m)) {
                    Some(le_val(self@.take(m)) as u128)
                } else {
                    None::<u128>
                }
            }),
    {
        let m: usize = if self.data.len() < cap {
            self.data.len()
        } else {
            cap
        };
        let mut acc: u128 = 0;
        let mut i: usize = m;
        while i > 0
            invariant
                i <= m,
                m <= 16,
                m <= self@.len(),
                m == if self@.len() < cap as nat {
                    self@.len() as int
                } else {
                    cap as int
                },
                acc == le_val(self@.subrange(i as int, m as int)),
                all_known(self@.subrange(i as int, m as int)),
            decreases i,
        {
            i = i - 1;
            match self.data[i] {
                Some(b) => {
                    proof {
                        let sub = self@.subrange(i as int, m as int);
                        assert(sub.skip(1) =~= self@.subrange(i + 1, m as int));
                        lemma_le_val_bound(sub);
                        lemma_pow2_le_max16(8 * sub.len());
                        assert(le_val(sub) == b as nat + 256 * acc);
                        assert(all_known(sub)) by {
                            assert(forall|j: int|
                                1 <= j < sub.len() ==> sub[j] == self@.subrange(
                                    i + 1,
                                    m as int,
                                )[j - 1]);
                        }
                    }
                    acc = b as u128 + 256 * acc;
                },
                None => {
                    proof {
                        let sub = self@.subrange(i as int, m as int);
                        assert(self@.take(m as int)[i as int] == sub[0]);
                    }
                    return None;
                },
            }
        }
        proof {
            assert(self@.subrange(0, m as int) =~= self@.take(m as int));
        }
        Some(acc)
    }

    /// The first byte, or `None` if it is unknown.
    pub fn to_u8(&self) -> (r: Option<u8>)
        requires
            self@.len() >= 1,
        ensures
            r == self@[0],
    {
        self.data[0]
    }

    /// The value of the first `min(len, 2)` bytes, or `None` if any of them
    /// is unknown.
    pub fn to_u16(&self) -> (r: Option<u16>)
        ensures
            ({
                let m = if self@.len() < 2 { self@.len() as int } else { 2int };
                r == if all_known(self@.take(m)) {
                    Some(le_val(self@.take(m)) as u16)
                } else {
                    None::<u16>
                }
            }),
    {
        proof {
            lemma_prefix_fits(self@, 2);
            vstd::arithmetic::power2::lemma2_to64();
        }
        match self.prefix_val(2) {
            Some(v) => Some(v as u16),
            None => None,
        }
    }

    /// The value of the first `min(len, 4)` bytes, or `None` if any of them
    /// is unknown.
    pub fn to_u32(&self) -> (r: Option<u32>)
        ensures
            ({
                let m = if self@.len() < 4 { self@.len() as int } else { 4int };
                r == if all_known(self@.take(m)) {
                    Some(le_val(self@.take(m)) as u32)
                } else {
                    None::<u32>
                }
            }),
    {
        proof {
            lemma_prefix_fits(self@, 4);
            vstd::arithmetic::power2::lemma2_to64();
        }
        match self.prefix_val(4) {
            Some(v) => Some(v as u32),
            None => None,
        }
    }

    /// The value of the first `min(len, 8)` bytes, or `None` if any of them
    /// is unknown.
    pub fn to_u64(&self) -> (r: Option<u64>)
        ensures
            ({
                let m = if self@.len() < 8 { self@.len() as int } else { 8int };
                r == if all_known(self@.take(m)) {
                    Some(le_val(self@.take(m)) as u64)
                } else {
                    None::<u64>
                }
            }),
    {
        proof {
            lemma_prefix_fits(self@, 8);
            vstd::arithmetic::power2::lemma2_to64();
        }
        match self.prefix_val(8) {
            Some(v) => Some(v as u64),
            None => None,
        }
    }

    /// The value of the first `min(len, 16)` bytes, or `None` if any of them
    /// is unknown.
    pub fn to_u128(&self) -> (r: Option<u128>)
        ensures
            ({
                let m = if self@.len() < 16 { self@.len() as int } else { 16int };
                r == if all_known(self@.take(m)) {
                    Some(le_val(self@.take(m)) as u128)
                } else {
                    None::<u128>
                }
            }),
    {
        self.prefix_val(16)
    }
}

/// `b` brought to length `n` for an operation whose left operand has `n`
/// bytes: missing high bytes read as known zero, extra bytes are dropped.
pub open spec fn bext(b: Seq<Option<u8>>, n: nat) -> Seq<Option<u8>> {
    Seq::new(n, |i: int| if i < b.len() { b[i] } else { Some(0u8) })
}

/// Bitwise complement of one tri-state byte.
pub open spec fn not_byte(x: Option<u8>) -> Option<u8> {
    match x {
        Some(v) => Some(!v),
        None => None,
    }
}

/// Pointwise complement.
pub open spec fn not_bytes(s: Seq<Option<u8>>) -> Seq<Option<u8>> {
    Seq::new(s.len(), |i: int| not_byte(s[i]))
}

/// Tri-state AND of two bytes: a known zero absorbs an unknown.
pub open spec fn and_byte(x: Option<u8>, y: Option<u8>) -> Option<u8> {
    if x == Some(0u8) || y == Some(0u8) {
        Some(0u8)
    } else {
        match (x, y) {
            (Some(a), Some(b)) => Some(a & b),
            _ => None,
        }
    }
}

/// Tri-state OR of two bytes: known all-ones absorbs an unknown.
pub open spec fn or_byte(x: Option<u8>, y: Option<u8>) -> Option<u8> {
    if x == Some(0xFFu8) || y == Some(0xFFu8) {
        Some(0xFFu8)
    } else {
        match (x, y) {
            (Some(a), Some(b)) => Some(a | b),
            _ => None,
        }
    }
}

/// Tri-state XOR of two bytes: any unknown operand gives unknown.
pub open spec fn xor_byte(x: Option<u8>, y: Option<u8>) -> Option<u8> {
    match (x, y) {
        (Some(a), Some(b)) => Some(a ^ b),
        _ => None,
    }
}

/// Pointwise AND; the right operand is zero-extended or truncated to the
/// left operand's width.
pub open spec fn and_bytes(a: Seq<Option<u8>>, b: Seq<Option<u8>>) -> Seq<Option<u8>> {
    Seq::new(a.len(), |i: int| and_byte(a[i], bext(b, a.len())[i]))
}

/// Pointwise OR; widths as in [`and_bytes`].
pub open spec fn or_bytes(a: Seq<Option<u8>>, b: Seq<Option<u8>>) -> Seq<Option<u8>> {
    Seq::new(a.len(), |i: int| or_byte(a[i], bext(b, a.len())[i]))
}

/// Pointwise XOR; widths as in [`and_bytes`].
pub open spec fn xor_bytes(a: Seq<Option<u8>>, b: Seq<Option<u8>>) -> Seq<Option<u8>> {
    Seq::new(a.len(), |i: int| xor_byte(a[i], bext(b, a.len())[i]))
}

/// The ripple carry into byte `i` of `a + b`. An unknown byte of `a` resets
/// the carry to zero; an unknown byte of `b` leaves it unchanged (the sum
/// byte is unknown either way).
pub open spec fn add_carry(a: Seq<Option<u8>>, b: Seq<Option<u8>>, i: nat) -> nat
    decreases i,
{
    if i == 0 {
        0
    } else {
        let x = a[i - 1];
        let y = bext(b, a.len())[i - 1];
        if x is None {
            0
        } else if y is None {
            add_carry(a, b, (i - 1) as nat)
        } else if known_byte(x) + known_byte(y) + add_carry(a, b, (i - 1) as nat) >= 256 {
            1
        } else {
            0
        }
    }
}

/// Ripple-carry sum; a byte is unknown when either operand byte is. The
/// right operand is zero-extended or truncated to the left operand's width.
pub open spec fn add_bytes(a: Seq<Option<u8>>, b: Seq<Option<u8>>) -> Seq<Option<u8>> {
    Seq::new(
        a.len(),
        |i: int|
            {
                let x = a[i];
                let y = bext(b, a.len())[i];
                if x is None || y is None {
                    None
                } else {
                    Some(
                        (((known_byte(x) + known_byte(y) + add_carry(a, b, i as nat))
                            % 256) as u8),
                    )
                }
            },
    )
}

/// Two's-complement difference: `a + NOT (bext b) + 1`.
pub open spec fn sub_bytes(a: Seq<Option<u8>>, b: Seq<Option<u8>>) -> Seq<Option<u8>> {
    add_bytes(add_bytes(a, not_bytes(bext(b, a.len()))), seq![Some(1u8)])
}

impl Bytes {
    /// Pointwise complement; unknown bytes stay unknown.
    pub fn not(&self) -> (r: Bytes)
        ensures
            r@ == not_bytes(self@),
    {
        let n = self.data.len();
        let mut data: Vec<Option<u8>> = Vec::new();
        for i in 0..n
            invariant
                n == self@.len(),
                data@ =~= not_bytes(self@).take(i as int),
        {
            match self.data[i] {
                Some(v) => data.push(Some(!v)),
                None => data.push(None),
            }
            proof {
                assert(data@ =~= not_bytes(self@).take(i + 1));
            }
        }
        proof {
            assert(not_bytes(self@).take(n as int) =~= not_bytes(self@));
        }
        Bytes { data }
    }

    /// The byte of `rhs` that takes part at position `i` of an operation on
    /// `self`: beyond `rhs`'s width a known zero.
    fn rhs_byte(&self, rhs: &Bytes, i: usize) -> (y: Option<u8>)
        requires
            i < self@.len(),
        ensures
            y == bext(rhs@, self@.len())[i as int],
    {
        if i < rhs.data.len() {
            rhs.data[i]
        } else {
            Some(0u8)
        }
    }

    /// Tri-state AND. A known zero byte in either operand gives a known zero
    /// result byte even when the other byte is unknown.
    pub fn and(&self, rhs: &Bytes) -> (r: Bytes)
        ensures
            r@ == and_bytes(self@, rhs@),
    {
        let n = self.data.len();
        let mut data: Vec<Option<u8>> = Vec::new();
        for i in 0..n
            invariant
                n == self@.len(),
                data@ =~= and_bytes(self@, rhs@).take(i as int),
        {
            let x = self.data[i];
            let y = self.rhs_byte(rhs, i);
            match (x, y) {
                (Some(0u8), _) => data.push(Some(0u8)),
                (_, Some(0u8)) => data.push(Some(0u8)),
                (Some(a), Some(b)) => data.push(Some(a & b)),
                _ => data.push(None),
            }
            proof {
                assert(data@ =~= and_bytes(self@, rhs@).take(i + 1));
            }
        }
        proof {
            assert(and_bytes(self@, rhs@).take(n as int) =~= and_bytes(self@, rhs@));
        }
        Bytes { data }
    }

    /// Tri-state OR. A known all-ones byte in either operand gives a known
    /// all-ones result byte even when the other byte is unknown.
    pub fn or(&self, rhs: &Bytes) -> (r: Bytes)
        ensures
            r@ == or_bytes(self@, rhs@),
    {
        let n = self.data.len();
        let mut data: Vec<Option<u8>> = Vec::new();
        for i in 0..n
            invariant
                n == self@.len(),
                data@ =~= or_bytes(self@, rhs@).take(i as int),
        {
            let x = self.data[i];
            let y = self.rhs_byte(rhs, i);
            match (x, y) {
                (Some(0xFFu8), _) => data.push(Some(0xFFu8)),
                (_, Some(0xFFu8)) => data.push(Some(0xFFu8)),
                (Some(a), Some(b)) => data.push(Some(a | b)),
                _ => data.push(None),
            }
            proof {
                assert(data@ =~= or_bytes(self@, rhs@).take(i + 1));
            }
        }
        proof {
            assert(or_bytes(self@, rhs@).take(n as int) =~= or_bytes(self@, rhs@));
        }
        Bytes { data }
    }

    /// Tri-state XOR; any unknown operand byte gives an unknown result byte.
    pub fn xor(&self, rhs: &Bytes) -> (r: Bytes)
        ensures
            r@ == xor_bytes(self@, rhs@),
    {
        let n = self.data.len();
        let mut data: Vec<Option<u8>> = Vec::new();
        for i in 0..n
            invariant
                n == self@.len(),
                data@ =~= xor_bytes(self@, rhs@).take(i as int),
        {
            let x = self.data[i];
            let y = self.rhs_byte(rhs, i);
            match (x, y) {
                (Some(a), Some(b)) => data.push(Some(a ^ b)),
                _ => data.push(None),
            }
            proof {
                assert(data@ =~= xor_bytes(self@, rhs@).take(i + 1));
            }
        }
        proof {
            assert(xor_bytes(self@, rhs@).take(n as int) =~= xor_bytes(self@, rhs@));
        }
        Bytes { data }
    }

    /// Ripple-carry addition, wrapping modulo `2^(8*len)` on known values.
    /// An unknown byte of `self` breaks the carry chain (the carry resumes
    /// as zero above it); an unknown byte of `rhs` keeps the running carry.
    pub fn add(&self, rhs: &Bytes) -> (r: Bytes)
        ensures
            r@ == add_bytes(self@, rhs@),
    {
        let n = self.data.len();
        let mut data: Vec<Option<u8>> = Vec::new();
        let mut cout: u8 = 0;
        for i in 0..n
            invariant
                n == self@.len(),
                data@ =~= add_bytes(self@, rhs@).take(i as int),
                cout as nat == add_carry(self@, rhs@, i as nat),
                cout <= 1,
        {
            let x = self.data[i];
            let y = self.rhs_byte(rhs, i);
            match (x, y) {
                (Some(xv), Some(yv)) => {
                    let s: u16 = xv as u16 + yv as u16 + cout as u16;
                    proof {
                        assert(s / 256 == if s >= 256 { 1u16 } else { 0u16 });
                        assert(s % 256 == (known_byte(self@[i as int]) + known_byte(
                            bext(rhs@, n as nat)[i as int],
                        ) + add_carry(self@, rhs@, i as nat)) % 256);
                    }
                    data.push(Some((s % 256) as u8));
                    cout = (s / 256) as u8;
                },
                (None, _) => {
                    data.push(None);
                    cout = 0;
                },
                (Some(_), None) => {
                    data.push(None);
                },
            }
            proof {
                assert(data@ =~= add_bytes(self@, rhs@).take(i + 1));
            }
        }
        proof {
            assert(add_bytes(self@, rhs@).take(n as int) =~= add_bytes(self@, rhs@));
        }
        Bytes { data }
    }

    /// Two's-complement subtraction: `self + NOT rhs + 1` after width
    /// adjustment of `rhs`.
    pub fn sub(&self, rhs: &Bytes) -> (r: Bytes)
        ensures
            r@ == sub_bytes(self@, rhs@),
    {
        let n = self.data.len();
        let mut ext: Vec<Option<u8>> = Vec::new();
        for i in 0..n
            invariant
                n == self@.len(),
                ext@ =~= bext(rhs@, n as nat).take(i as int),
        {
            let y = self.rhs_byte(rhs, i);
            ext.push(y);
            proof {
                assert(ext@ =~= bext(rhs@, n as nat).take(i + 1));
            }
        }
        proof {
            assert(bext(rhs@, n as nat).take(n as int) =~= bext(rhs@, n as nat));
        }
        let flipped = Bytes { data: ext }.not();
        let one = Bytes::from_u8(1);
        proof {
            assert(one@ =~= seq![Some(1u8)]);
        }
        self.add(&flipped).add(&one)
    }

    /// Structural equality of the two containers: lengths equal and every
    /// byte pair equal, unknowns matching unknowns.
    pub fn same_as(&self, rhs: &Bytes) -> (r: bool)
        ensures
            r == (self@ == rhs@),
    {
        if self.data.len() != rhs.data.len() {
            proof {
                assert(self@.len() != rhs@.len());
            }
            return false;
        }
        let n = self.data.len();
        for i in 0..n
            invariant
                n == self@.len(),
                n == rhs@.len(),
                forall|j: int| 0 <= j < i ==> self@[j] == rhs@[j],
        {
            let same = match (self.data[i], rhs.data[i]) {
                (Some(a), Some(b)) => a == b,
                (None, None) => true,
                _ => false,
            };
            if !same {
                proof {
                    assert(self@[i as int] != rhs@[i as int]);
                }
                return false;
            }
        }
        proof {
            assert(self@ =~= rhs@);
        }
        true
    }
}

/// The shift amount encoded by a shift operand: the value of its first 16
/// bytes (beyond 128 bits every shift of these containers saturates anyway).
pub open spec fn shift_amount(b: Seq<Option<u8>>) -> nat {
    if b.len() <= 16 {
        le_val(b)
    } else {
        le_val(b.take(16))
    }
}

impl Bytes {
    /// One-bit logical left shift of a fully known container.
    fn shl1(&self) -> (r: Bytes)
        requires
            all_known(self@),
        ensures
            r@.len() == self@.len(),
            all_known(r@),
            le_val(r@) == (2 * le_val(self@)) % pow2(8 * self@.len()),
    {
        let n = self.data.len();
        let mut data: Vec<Option<u8>> = Vec::new();
        let mut carry: u8 = 0;
        for i in 0..n
            invariant
                n == self@.len(),
                all_known(self@),
                data@.len() == i,
                all_known(data@),
                carry <= 1,
                2 * le_val(self@.take(i as int)) == le_val(data@) + (carry as nat) * pow2(
                    8 * i as nat,
                ),
        {
            let v: u8 = match self.data[i] {
                Some(v) => v,
                None => 0,
            };
            let s: u16 = 2 * (v as u16) + carry as u16;
            let b: u8 = (s % 256) as u8;
            proof {
                let p = pow2(8 * i as nat) as int;
                let pn = pow2(8 * (i + 1) as nat) as int;
                lemma_pow2_pos(8 * i as nat);
                assert(pn == 256 * p) by {
                    lemma_pow2_adds(8 * i as nat, 8);
                    vstd::arithmetic::power2::lemma2_to64();
                }
                assert(self@.take(i + 1) =~= self@.take(i as int).push(self@[i as int]));
                lemma_le_val_push(self@.take(i as int), self@[i as int]);
                lemma_le_val_push(data@, Some(b));
                let c2: int = (s / 256) as int;
                assert(c2 == if s >= 256 { 1int } else { 0int });
                assert(s as int == b + 256 * c2);
                assert(2 * le_val(self@.take(i + 1)) == le_val(data@.push(Some(b))) + c2 * pn)
                    by (nonlinear_arith)
                    requires
                        2 * le_val(self@.take(i as int)) == le_val(data@) + (carry as nat) * (
                        p as nat),
                        le_val(self@.take(i + 1)) == le_val(self@.take(i as int)) + known_byte(
                            self@[i as int],
                        ) * (p as nat),
                        le_val(data@.push(Some(b))) == le_val(data@) + (b as nat) * (p as nat),
                        s as int == 2 * known_byte(self@[i as int]) + carry,
                        s as int == b + 256 * c2,
                        pn == 256 * p,
                        p > 0,
                ;
            }
            data.push(Some(b));
            carry = (s / 256) as u8;
        }
        proof {
            assert(self@.take(n as int) =~= self@);
            let m = pow2(8 * n as nat);
            lemma_pow2_pos(8 * n as nat);
            lemma_le_val_bound(data@);
            if carry == 0 {
                lemma_small_mod(le_val(data@), m);
            } else {
                vstd::arithmetic::div_mod::lemma_mod_add_multiples_vanish(
                    le_val(data@) as int,
                    m as int,
                );
                lemma_small_mod(le_val(data@), m);
            }
        }
        Bytes { data }
    }

    /// Logical left shift. Any unknown byte in either operand makes the
    /// whole result unknown; on known values the result is the shifted value
    /// modulo `2^(8*len)` (so an amount of `8*len` or more gives zero).
    pub fn shl(&self, rhs: &Bytes) -> (r: Bytes)
        ensures
            r@.len() == self@.len(),
            !(all_known(self@) && all_known(rhs@)) ==> r@ == unknown_seq(self@.len()),
            all_known(self@) && all_known(rhs@) ==> all_known(r@) && le_val(r@) == (le_val(self@)
                * pow2(shift_amount(rhs@))) % pow2(8 * self@.len()),
            r@ == shl_bytes(self@, rhs@),
    {
        let n = self.data.len();
        if self.has_unknown() || rhs.has_unknown() {
            return Bytes::unknown(n);
        }
        proof {
            let m = if rhs@.len() < 16 { rhs@.len() as int } else { 16int };
            assert(all_known(rhs@.take(m))) by {
                assert(forall|j: int| 0 <= j < m ==> rhs@.take(m)[j] == rhs@[j]);
            }
            if rhs@.len() <= 16 {
                assert(rhs@.take(rhs@.len() as int) =~= rhs@);
            }
        }
        let amt: u128 = match rhs.to_u128() {
            Some(a) => a,
            None => 0,
        };
        proof {
            let m = if rhs@.len() < 16 { rhs@.len() as int } else { 16int };
            lemma_le_val_bound(rhs@.take(m));
            lemma_pow2_le_max16(8 * rhs@.take(m).len());
            assert(amt as nat == shift_amount(rhs@));
        }
        let bits: u128 = 8 * (n as u128);
        let steps: u128 = if amt < bits {
            amt
        } else {
            bits
        };
        let ghost v = le_val(self@);
        let mut cur = self.clone();
        let mut k: u128 = 0;
        proof {
            lemma_pow2_pos(8 * n as nat);
            assert(pow2(0) == 1) by {
                vstd::arithmetic::power2::lemma2_to64();
            }
            lemma_le_val_bound(self@);
            lemma_small_mod(v, pow2(8 * n as nat));
            assert(v * pow2(0) == v);
        }
        while k < steps
            invariant
                k <= steps,
                steps as nat <= 8 * n as nat,
                cur@.len() == n,
                all_known(cur@),
                v == le_val(self@),
                n == self@.len(),
                le_val(cur@) == (v * pow2(k as nat)) % pow2(8 * n as nat),
            decreases steps - k,
        {
            let prev = cur;
            cur = prev.shl1();
            proof {
                let m = pow2(8 * n as nat) as int;
                lemma_pow2_pos(8 * n as nat);
                lemma_mul_mod_noop_right(2, (v * pow2(k as nat)) as int, m);
                lemma_pow2_adds(k as nat, 1);
                vstd::arithmetic::power2::lemma2_to64();
                assert(pow2((k + 1) as nat) == 2 * pow2(k as nat));
                assert(2 * (v * pow2(k as nat)) == v * pow2((k + 1) as nat)) by (nonlinear_arith)
                    requires
                        pow2((k + 1) as nat) == 2 * pow2(k as nat),
                ;
            }
            k = k + 1;
        }
        proof {
            let m = pow2(8 * n as nat);
            lemma_pow2_pos(8 * n as nat);
            if steps < amt {
                assert(steps as nat == 8 * n as nat);
                assert(le_val(cur@) == (v * m) % m);
                vstd::arithmetic::div_mod::lemma_mod_multiples_basic(v as int, m as int);
                assert((v * pow2(amt as nat)) % m == 0) by {
                    lemma_pow2_adds(8 * n as nat, (amt as nat - 8 * n as nat) as nat);
                    let e = pow2((amt as nat - 8 * n as nat) as nat);
                    assert(v * (m * e) == (v * e) * m) by (nonlinear_arith);
                    vstd::arithmetic::div_mod::lemma_mod_multiples_basic(
                        (v * e) as int,
                        m as int,
                    );
                }
            }
            assert(amt as nat == shift_amount(rhs@));
            lemma_le_val_round_trip(cur@);
        }
        cur
    }
}

/// One-bit logical right shift of a fully known sequence, pointwise: each
/// byte takes its own high seven bits and the low bit of the byte above.
pub open spec fn shr1_known(s: Seq<Option<u8>>) -> Seq<Option<u8>> {
    Seq::new(
        s.len(),
        |i: int|
            Some(
                ((known_byte(s[i]) / 2 + 128 * (if i + 1 < s.len() {
                    known_byte(s[i + 1]) % 2
                } else {
                    0
                })) as u8),
            ),
    )
}

/// Dividing twice is dividing by the product: `(x / d) / 2 == x / (2 * d)`,
/// for any `x`, including negative ones (division rounds toward minus
/// infinity).
proof fn lemma_div_twice_half(x: int, d: int)
    requires
        d > 0,
    ensures
        (x / d) / 2 == x / (2 * d),
{
    let q = x / (2 * d);
    let r = x % (2 * d);
    vstd::arithmetic::div_mod::lemma_fundamental_div_mod(x, 2 * d);
    vstd::arithmetic::div_mod::lemma_mod_bound(x, 2 * d);
    assert(x == q * (2 * d) + r);
    assert(q * (2 * d) == (2 * q) * d) by (nonlinear_arith);
    vstd::arithmetic::div_mod::lemma_hoist_over_denominator(r, 2 * q, d as nat);
    assert(x / d == r / d + 2 * q);
    vstd::arithmetic::div_mod::lemma_div_pos_is_pos(r, d);
    assert(r / d < 2) by {
        if r / d >= 2 {
            vstd::arithmetic::div_mod::lemma_fundamental_div_mod(r, d);
            vstd::arithmetic::div_mod::lemma_mod_bound(r, d);
            assert(r == (r / d) * d + r % d);
            assert((r / d) * d >= 2 * d) by (nonlinear_arith)
                requires
                    r / d >= 2,
                    d > 0,
            ;
        }
    }
    let e = r / d;
    vstd::arithmetic::div_mod::lemma_fundamental_div_mod_converse(2 * q + e, 2, q, e);
}

/// Value of the one-bit logical right shift: the floor of half.
proof fn lemma_shr1_val(s: Seq<Option<u8>>)
    ensures
        le_val(shr1_known(s)) == le_val(s) / 2,
    decreases s.len(),
{
    if s.len() == 0 {
        assert(le_val(s) == 0);
        assert(0int / 2 == 0);
    } else {
        let t = s.skip(1);
        lemma_shr1_val(t);
        assert(shr1_known(s).skip(1) =~= shr1_known(t));
        let s0 = known_byte(s[0]) as int;
        let w = le_val(t) as int;
        let fill: int = if s.len() >= 2 { (known_byte(s[1]) % 2) as int } else { 0 };
        assert(le_val(shr1_known(s)) == s0 / 2 + 128 * fill + 256 * (w / 2));
        if s.len() >= 2 {
            let u = le_val(t.skip(1)) as int;
            assert(w == known_byte(s[1]) + 256 * u);
            assert(w % 2 == fill) by {
                vstd::arithmetic::div_mod::lemma_mod_multiples_vanish(
                    128 * u,
                    known_byte(s[1]) as int,
                    2,
                );
                assert(known_byte(s[1]) % 2 < 2) by {
                    vstd::arithmetic::div_mod::lemma_mod_bound(known_byte(s[1]) as int, 2);
                }
            }
        } else {
            assert(t.len() == 0);
            assert(w == 0);
            assert(w % 2 == fill);
        }
        vstd::arithmetic::div_mod::lemma_fundamental_div_mod(w, 2);
        assert(128 * fill + 256 * (w / 2) == 128 * w);
        vstd::arithmetic::div_mod::lemma_hoist_over_denominator(s0, 128 * w, 2);
        assert(s0 / 2 + 128 * w == (s0 + 256 * w) / 2);
        assert(le_val(s) == s0 + 256 * w);
    }
}

impl Bytes {
    /// One-bit logical right shift of a fully known container.
    fn shr1(&self) -> (r: Bytes)
        requires
            all_known(self@),
        ensures
            r@ == shr1_known(self@),
            r@.len() == self@.len(),
            all_known(r@),
            le_val(r@) == le_val(self@) / 2,
    {
        let n = self.data.len();
        let mut data: Vec<Option<u8>> = Vec::new();
        for i in 0..n
            invariant
                n == self@.len(),
                all_known(self@),
                data@ =~= shr1_known(self@).take(i as int),
        {
            let v: u8 = match self.data[i] {
                Some(v) => v,
                None => 0,
            };
            let fill: u8 = if i + 1 < n {
                match self.data[i + 1] {
                    Some(w) => w % 2,
                    None => 0,
                }
            } else {
                0
            };
            data.push(Some(v / 2 + 128 * fill));
            proof {
                assert(data@ =~= shr1_known(self@).take(i + 1));
            }
        }
        proof {
            assert(shr1_known(self@).take(n as int) =~= shr1_known(self@));
            lemma_shr1_val(self@);
        }
        Bytes { data }
    }

    /// Logical right shift. Any unknown byte in either operand makes the
    /// whole result unknown; on known values the result is the floor of
    /// `value / 2^amount` (so an amount of `8*len` or more gives zero).
    pub fn shr(&self, rhs: &Bytes) -> (r: Bytes)
        ensures
            r@.len() == self@.len(),
            !(all_known(self@) && all_known(rhs@)) ==> r@ == unknown_seq(self@.len()),
            all_known(self@) && all_known(rhs@) ==> all_known(r@) && le_val(r@) == le_val(self@)
                / pow2(shift_amount(rhs@)),
            r@ == shr_bytes(self@, rhs@),
    {
        let n = self.data.len();
        if self.has_unknown() || rhs.has_unknown() {
            return Bytes::unknown(n);
        }
        let amt: u128 = self.shift_operand(rhs);
        let bits: u128 = 8 * (n as u128);
        let steps: u128 = if amt < bits {
            amt
        } else {
            bits
        };
        let ghost v = le_val(self@);
        let mut cur = self.clone();
        let mut k: u128 = 0;
        proof {
            assert(pow2(0) == 1) by {
                vstd::arithmetic::power2::lemma2_to64();
            }
        }
        while k < steps
            invariant
                k <= steps,
                steps as nat <= 8 * n as nat,
                cur@.len() == n,
                all_known(cur@),
                v == le_val(self@),
                n == self@.len(),
                le_val(cur@) == v / pow2(k as nat),
            decreases steps - k,
        {
            let prev = cur;
            cur = prev.shr1();
            proof {
                lemma_pow2_pos(k as nat);
                lemma_div_twice_half(v as int, pow2(k as nat) as int);
                lemma_pow2_adds(k as nat, 1);
                vstd::arithmetic::power2::lemma2_to64();
                assert(pow2((k + 1) as nat) == 2 * pow2(k as nat));
            }
            k = k + 1;
        }
        proof {
            if steps < amt {
                assert(steps as nat == 8 * n as nat);
                lemma_le_val_bound(self@);
                lemma_pow2_pos(8 * n as nat);
                vstd::arithmetic::div_mod::lemma_basic_div(v as int, pow2(8 * n as nat) as int);
                vstd::arithmetic::power2::lemma_pow2_strictly_increases(8 * n as nat, amt as nat);
                vstd::arithmetic::div_mod::lemma_basic_div(v as int, pow2(amt as nat) as int);
            }
            lemma_le_val_round_trip(cur@);
        }
        cur
    }

    /// One-bit arithmetic right shift of a fully known, non-empty container:
    /// the top bit is kept as the fill.
    fn shra1(&self) -> (r: Bytes)
        requires
            all_known(self@),
            self@.len() >= 1,
        ensures
            r@.len() == self@.len(),
            all_known(r@),
            le_val_signed(r@) == le_val_signed(self@) / 2,
    {
        let n = self.data.len();
        let top: u8 = match self.data[n - 1] {
            Some(v) => v,
            None => 0,
        };
        let mut r = self.shr1();
        let ghost m = pow2(8 * n as nat);
        let ghost p = pow2(8 * (n - 1) as nat);
        proof {
            assert(m == 256 * p) by {
                lemma_pow2_adds(8 * (n - 1) as nat, 8);
                vstd::arithmetic::power2::lemma2_to64();
            }
            assert(r@ =~= r@.take(n - 1).push(r@[n - 1]));
            lemma_le_val_push(r@.take(n - 1), r@[n - 1]);
            assert(known_byte(r@[n - 1]) == top / 2);
        }
        if top >= 128 {
            let newtop: u8 = top / 2 + 128;
            proof {
                assert(r@.update(n - 1, Some(newtop)) =~= r@.take(n - 1).push(Some(newtop)));
                lemma_le_val_push(r@.take(n - 1), Some(newtop));
                assert((top / 2 + 128) * p == (top / 2) * p + 128 * p) by (nonlinear_arith);
            }
            let ghost before = r@;
            r.set(n - 1, Some(newtop));
            proof {
                assert(le_val(r@) == le_val(self@) / 2 + 128 * p);
                assert(known_byte(r@[n - 1]) >= 128);
                assert(le_val_signed(r@) == le_val(self@) / 2 + 128 * p - m);
                assert(le_val_signed(self@) == le_val(self@) - m);
                vstd::arithmetic::div_mod::lemma_hoist_over_denominator(
                    le_val(self@) as int,
                    -128 * (p as int),
                    2,
                );
                assert((le_val(self@) + (-128 * (p as int)) * 2) == le_val(self@) - m);
                assert(all_known(r@)) by {
                    assert(forall|j: int|
                        0 <= j < n ==> r@[j] == if j == n - 1 {
                            Some(newtop)
                        } else {
                            before[j]
                        });
                }
            }
        } else {
            proof {
                assert(known_byte(self@[n - 1]) < 128);
                assert(known_byte(r@[n - 1]) < 128);
            }
        }
        r
    }

    /// The shift amount named by `rhs`, for a fully known `rhs`.
    fn shift_operand(&self, rhs: &Bytes) -> (amt: u128)
        requires
            all_known(rhs@),
        ensures
            amt as nat == shift_amount(rhs@),
    {
        proof {
            let m = if rhs@.len() < 16 { rhs@.len() as int } else { 16int };
            assert(all_known(rhs@.take(m))) by {
                assert(forall|j: int| 0 <= j < m ==> rhs@.take(m)[j] == rhs@[j]);
            }
            if rhs@.len() <= 16 {
                assert(rhs@.take(rhs@.len() as int) =~= rhs@);
            }
            lemma_le_val_bound(rhs@.take(m));
            lemma_pow2_le_max16(8 * rhs@.take(m).len());
        }
        match rhs.to_u128() {
            Some(a) => a,
            None => 0,
        }
    }

    /// Arithmetic right shift: the sign bit is the fill. Any unknown byte in
    /// either operand makes the whole result unknown; on known values the
    /// result is the floor of `signed value / 2^amount` (so an amount of
    /// `8*len` or more gives all-zeros or all-ones by sign).
    pub fn shra(&self, rhs: &Bytes) -> (r: Bytes)
        requires
            self@.len() >= 1,
        ensures
            r@.len() == self@.len(),
            !(all_known(self@) && all_known(rhs@)) ==> r@ == unknown_seq(self@.len()),
            all_known(self@) && all_known(rhs@) ==> all_known(r@) && le_val_signed(r@)
                == le_val_signed(self@) / pow2(shift_amount(rhs@)) as int,
            r@ == shra_bytes(self@, rhs@),
    {
        let n = self.data.len();
        if self.has_unknown() || rhs.has_unknown() {
            return Bytes::unknown(n);
        }
        let amt: u128 = self.shift_operand(rhs);
        let bits: u128 = 8 * (n as u128);
        let steps: u128 = if amt < bits {
            amt
        } else {
            bits
        };
        let ghost x = le_val_signed(self@);
        let mut cur = self.clone();
        let mut k: u128 = 0;
        proof {
            assert(pow2(0) == 1) by {
                vstd::arithmetic::power2::lemma2_to64();
            }
            assert(x / pow2(0) as int == x) by {
                vstd::arithmetic::div_mod::lemma_fundamental_div_mod_converse(x, 1, x, 0);
            }
        }
        while k < steps
            invariant
                k <= steps,
                steps as nat <= 8 * n as nat,
                cur@.len() == n,
                n >= 1,
                all_known(cur@),
                x == le_val_signed(self@),
                n == self@.len(),
                le_val_signed(cur@) == x / pow2(k as nat) as int,
            decreases steps - k,
        {
            let prev = cur;
            cur = prev.shra1();
            proof {
                lemma_pow2_pos(k as nat);
                lemma_div_twice_half(x, pow2(k as nat) as int);
                lemma_pow2_adds(k as nat, 1);
                vstd::arithmetic::power2::lemma2_to64();
                assert(pow2((k + 1) as nat) == 2 * pow2(k as nat));
            }
            k = k + 1;
        }
        proof {
            if steps < amt {
                assert(steps as nat == 8 * n as nat);
                let m = pow2(8 * n as nat) as int;
                let big = pow2(amt as nat) as int;
                lemma_le_val_bound(self@);
                lemma_pow2_pos(8 * n as nat);
                vstd::arithmetic::power2::lemma_pow2_strictly_increases(8 * n as nat, amt as nat);
                if x >= 0 {
                    vstd::arithmetic::div_mod::lemma_basic_div(x, m);
                    vstd::arithmetic::div_mod::lemma_basic_div(x, big);
                } else {
                    vstd::arithmetic::div_mod::lemma_fundamental_div_mod_converse(
                        x,
                        m,
                        -1,
                        x + m,
                    );
                    vstd::arithmetic::div_mod::lemma_fundamental_div_mod_converse(
                        x,
                        big,
                        -1,
                        x + big,
                    );
                }
            }
            let m = pow2(8 * n as nat) as int;
            lemma_pow2_pos(8 * n as nat);
            let q = le_val_signed(cur@);
            lemma_le_val_bound(cur@);
            assert(le_val(cur@) == q % m) by {
                if known_byte(cur@[n - 1]) >= 128 {
                    vstd::arithmetic::div_mod::lemma_fundamental_div_mod_converse(
                        q,
                        m,
                        -1,
                        q + m,
                    );
                } else {
                    lemma_small_mod(q as nat, m as nat);
                }
            }
            lemma_le_val_round_trip(cur@);
        }
        cur
    }
}

/// A sequence of known zero bytes has value zero.
pub proof fn lemma_zero_seq_val(n: nat)
    ensures
        le_val(zero_seq(n)) == 0,
{
    lemma_le_val_zero_iff(zero_seq(n));
}

/// Zero-extension keeps the value.
pub proof fn lemma_bext_extends(b: Seq<Option<u8>>, n: nat)
    requires
        n >= b.len(),
    ensures
        le_val(bext(b, n)) == le_val(b),
{
    let e = bext(b, n);
    lemma_le_val_split(e, b.len() as int);
    assert(e.take(b.len() as int) =~= b);
    assert(e.skip(b.len() as int) =~= zero_seq((n - b.len()) as nat));
    lemma_zero_seq_val((n - b.len()) as nat);
    assert(pow2(8 * b.len()) * 0 == 0);
}

/// Width adjustment takes the value modulo `2^(8n)`.
pub proof fn lemma_bext_val(b: Seq<Option<u8>>, n: nat)
    ensures
        le_val(bext(b, n)) == le_val(b) % pow2(8 * n),
{
    lemma_pow2_pos(8 * n);
    if n >= b.len() {
        lemma_bext_extends(b, n);
        lemma_le_val_bound(b);
        if 8 * b.len() < 8 * n {
            vstd::arithmetic::power2::lemma_pow2_strictly_increases(8 * b.len(), 8 * n);
        }
        lemma_small_mod(le_val(b), pow2(8 * n));
    } else {
        assert(bext(b, n) =~= b.take(n as int));
        lemma_le_val_split(b, n as int);
        lemma_le_val_bound(b.take(n as int));
        vstd::arithmetic::div_mod::lemma_mod_multiples_vanish(
            le_val(b.skip(n as int)) as int,
            le_val(b.take(n as int)) as int,
            pow2(8 * n) as int,
        );
        lemma_small_mod(le_val(b.take(n as int)), pow2(8 * n));
    }
}

/// Zero-extending a fully known sequence keeps it fully known.
pub proof fn lemma_bext_known(b: Seq<Option<u8>>, n: nat)
    requires
        all_known(b),
    ensures
        all_known(bext(b, n)),
{
    assert(forall|i: int| 0 <= i < n ==> bext(b, n)[i] is Some);
}

/// The ripple carry is a single bit.
pub proof fn lemma_add_carry_bound(a: Seq<Option<u8>>, b: Seq<Option<u8>>, i: nat)
    ensures
        add_carry(a, b, i) <= 1,
    decreases i,
{
    if i > 0 {
        lemma_add_carry_bound(a, b, (i - 1) as nat);
    }
}

/// Ripple-carry correctness on a prefix of known bytes: the sum of the
/// prefix values equals the result prefix value plus the outgoing carry.
proof fn lemma_add_prefix(a: Seq<Option<u8>>, b: Seq<Option<u8>>, i: int)
    requires
        all_known(a),
        all_known(bext(b, a.len())),
        0 <= i <= a.len(),
    ensures
        le_val(add_bytes(a, b).take(i)) + add_carry(a, b, i as nat) * pow2(8 * i as nat)
            == le_val(a.take(i)) + le_val(bext(b, a.len()).take(i)),
    decreases i,
{
    let n = a.len();
    let cb = bext(b, n);
    let r = add_bytes(a, b);
    if i == 0 {
        assert(r.take(0) =~= Seq::<Option<u8>>::empty());
        assert(a.take(0) =~= Seq::<Option<u8>>::empty());
        assert(cb.take(0) =~= Seq::<Option<u8>>::empty());
        assert(pow2(0) == 1) by {
            vstd::arithmetic::power2::lemma2_to64();
        }
    } else {
        lemma_add_prefix(a, b, i - 1);
        lemma_add_carry_bound(a, b, (i - 1) as nat);
        let p = pow2(8 * (i - 1) as nat);
        let pn = pow2(8 * i as nat);
        lemma_pow2_pos(8 * (i - 1) as nat);
        assert(pn == 256 * p) by {
            lemma_pow2_adds(8 * (i - 1) as nat, 8);
            vstd::arithmetic::power2::lemma2_to64();
        }
        let x = known_byte(a[i - 1]);
        let y = known_byte(cb[i - 1]);
        let c = add_carry(a, b, (i - 1) as nat);
        let c2 = add_carry(a, b, i as nat);
        let s = x + y + c;
        assert(a[i - 1] is Some && cb[i - 1] is Some);
        assert(c2 == if s >= 256 { 1nat } else { 0nat });
        assert(r[i - 1] == Some((s % 256) as u8));
        assert(s % 256 == s - 256 * c2) by {
            if s >= 256 {
                assert(s < 512);
                vstd::arithmetic::div_mod::lemma_mod_add_multiples_vanish(
                    s as int - 256,
                    256,
                );
                lemma_small_mod((s - 256) as nat, 256);
            } else {
                lemma_small_mod(s, 256);
            }
        }
        assert(r.take(i) =~= r.take(i - 1).push(r[i - 1]));
        assert(a.take(i) =~= a.take(i - 1).push(a[i - 1]));
        assert(cb.take(i) =~= cb.take(i - 1).push(cb[i - 1]));
        lemma_le_val_push(r.take(i - 1), r[i - 1]);
        lemma_le_val_push(a.take(i - 1), a[i - 1]);
        lemma_le_val_push(cb.take(i - 1), cb[i - 1]);
        assert(le_val(r.take(i)) + c2 * pn == le_val(a.take(i)) + le_val(cb.take(i)))
            by (nonlinear_arith)
            requires
                le_val(r.take(i - 1)) + c * p == le_val(a.take(i - 1)) + le_val(
                    cb.take(i - 1),
                ),
                le_val(r.take(i)) == le_val(r.take(i - 1)) + (s - 256 * c2) * p,
                le_val(a.take(i)) == le_val(a.take(i - 1)) + x * p,
                le_val(cb.take(i)) == le_val(cb.take(i - 1)) + y * p,
                s == x + y + c,
                pn == 256 * p,
        ;
    }
}

/// Addition of fully known containers wraps modulo `2^(8*len)`.
pub proof fn lemma_add_bytes_value(a: Seq<Option<u8>>, b: Seq<Option<u8>>)
    requires
        all_known(a),
        all_known(b),
    ensures
        all_known(add_bytes(a, b)),
        le_val(add_bytes(a, b)) == (le_val(a) + le_val(b)) % pow2(8 * a.len()),
{
    let n = a.len();
    let cb = bext(b, n);
    let r = add_bytes(a, b);
    let m = pow2(8 * n);
    lemma_pow2_pos(8 * n);
    lemma_bext_known(b, n);
    lemma_add_prefix(a, b, n as int);
    lemma_add_carry_bound(a, b, n);
    assert(r.take(n as int) =~= r);
    assert(a.take(n as int) =~= a);
    assert(cb.take(n as int) =~= cb);
    let c = add_carry(a, b, n);
    let sum = le_val(a) + le_val(cb);
    assert(le_val(r) + c * m == sum);
    assert(r.len() == n);
    lemma_le_val_bound(r);
    if c == 0 {
        assert(c * m == 0) by (nonlinear_arith)
            requires
                c == 0,
        ;
        lemma_small_mod(le_val(r), m);
        assert(le_val(r) == sum % m);
    } else {
        assert(c == 1);
        assert(c * m == m) by (nonlinear_arith)
            requires
                c == 1,
        ;
        assert(sum == m + le_val(r));
        vstd::arithmetic::div_mod::lemma_mod_add_multiples_vanish(le_val(r) as int, m as int);
        lemma_small_mod(le_val(r), m);
        assert(le_val(r) == sum % m);
    }
    lemma_bext_val(b, n);
    vstd::arithmetic::div_mod::lemma_add_mod_noop_right(
        le_val(a) as int,
        le_val(b) as int,
        m as int,
    );
}

/// Complement of a fully known container: `2^(8*len) - 1 - value`.
pub proof fn lemma_not_val(s: Seq<Option<u8>>)
    requires
        all_known(s),
    ensures
        all_known(not_bytes(s)),
        le_val(not_bytes(s)) == pow2(8 * s.len()) - 1 - le_val(s),
    decreases s.len(),
{
    let r = not_bytes(s);
    assert(forall|i: int| 0 <= i < s.len() ==> r[i] is Some);
    if s.len() == 0 {
        assert(pow2(0) == 1) by {
            vstd::arithmetic::power2::lemma2_to64();
        }
    } else {
        let t = s.skip(1);
        lemma_not_val(t);
        assert(not_bytes(s).skip(1) =~= not_bytes(t));
        assert(known_byte(not_byte(s[0])) == 255 - known_byte(s[0])) by {
            let v = s[0]->0;
            assert(!v == (255 - v) as u8) by (bit_vector);
        }
        let p1 = pow2(8 * (s.len() - 1) as nat);
        assert(pow2(8 * s.len()) == 256 * p1) by {
            lemma_pow2_adds(8 * (s.len() - 1) as nat, 8);
            vstd::arithmetic::power2::lemma2_to64();
        }
        assert(le_val(r) == 255 - known_byte(s[0]) + 256 * (p1 - 1 - le_val(t)));
    }
}

/// Subtraction of fully known containers: two's-complement difference,
/// wrapping modulo `2^(8*len)`.
pub proof fn lemma_sub_bytes_value(a: Seq<Option<u8>>, b: Seq<Option<u8>>)
    requires
        all_known(a),
        all_known(b),
        a.len() >= 1,
    ensures
        all_known(sub_bytes(a, b)),
        le_val(sub_bytes(a, b)) == ((le_val(a) + pow2(8 * a.len())) - (le_val(b) % pow2(
            8 * a.len(),
        ))) % (pow2(8 * a.len()) as int),
{
    let n = a.len();
    let m = pow2(8 * n);
    lemma_pow2_pos(8 * n);
    let cb = bext(b, n);
    let nb = not_bytes(cb);
    lemma_bext_known(b, n);
    lemma_bext_val(b, n);
    lemma_not_val(cb);
    let inner = add_bytes(a, nb);
    lemma_add_bytes_value(a, nb);
    let one = seq![Some(1u8)];
    assert(all_known(one));
    assert(le_val(one) == 1) by {
        assert(one.skip(1) =~= Seq::<Option<u8>>::empty());
        assert(le_val(Seq::<Option<u8>>::empty()) == 0);
    }
    lemma_add_bytes_value(inner, one);
    assert(inner.len() == n);
    let vb = le_val(b) % m;
    assert(le_val(inner) == (le_val(a) + (m - 1 - vb)) % (m as int));
    vstd::arithmetic::div_mod::lemma_add_mod_noop_right(
        le_val(inner) as int,
        1,
        m as int,
    );
    assert(le_val(sub_bytes(a, b)) == (le_val(inner) + 1) % m);
    vstd::arithmetic::div_mod::lemma_add_mod_noop_right(
        1,
        (le_val(a) + (m - 1 - vb)) as int,
        m as int,
    );
    assert((le_val(a) + (m - 1 - vb)) + 1 == (le_val(a) + m) - vb);
}

impl Bytes {
    /// The known byte that takes part at position `i` when `self` is
    /// zero-extended to width `n`; callable only on fully known containers.
    fn known_ext_byte(&self, i: usize) -> (x: u8)
        requires
            all_known(self@),
        ensures
            forall|n: nat| i < n ==> x as nat == known_byte(bext(self@, n)[i as int]),
    {
        if i < self.data.len() {
            match self.data[i] {
                Some(v) => v,
                None => 0,
            }
        } else {
            0
        }
    }

    /// Unsigned comparison of the two values, widths adjusted by zero
    /// extension. Any unknown byte gives `Equal`: unknowns compare as equal,
    /// so a branch keyed on a comparison result is suppressed downstream.
    pub fn byte_cmp(&self, rhs: &Bytes) -> (r: core::cmp::Ordering)
        ensures
            !(all_known(self@) && all_known(rhs@)) ==> r == core::cmp::Ordering::Equal,
            all_known(self@) && all_known(rhs@) ==> r == (if le_val(self@) < le_val(rhs@) {
                core::cmp::Ordering::Less
            } else if le_val(self@) > le_val(rhs@) {
                core::cmp::Ordering::Greater
            } else {
                core::cmp::Ordering::Equal
            }),
            r == byte_cmp_spec(self@, rhs@),
    {
        if self.has_unknown() || rhs.has_unknown() {
            return core::cmp::Ordering::Equal;
        }
        let n: usize = if self.data.len() < rhs.data.len() {
            rhs.data.len()
        } else {
            self.data.len()
        };
        let ghost ea = bext(self@, n as nat);
        let ghost eb = bext(rhs@, n as nat);
        proof {
            lemma_bext_extends(self@, n as nat);
            lemma_bext_extends(rhs@, n as nat);
            assert(ea.skip(n as int) =~= Seq::<Option<u8>>::empty());
            assert(eb.skip(n as int) =~= Seq::<Option<u8>>::empty());
        }
        let mut i: usize = n;
        while i > 0
            invariant
                i <= n,
                all_known(self@),
                all_known(rhs@),
                ea == bext(self@, n as nat),
                eb == bext(rhs@, n as nat),
                self@.len() <= n,
                rhs@.len() <= n,
                le_val(ea.skip(i as int)) == le_val(eb.skip(i as int)),
            decreases i,
        {
            i = i - 1;
            let x = self.known_ext_byte(i);
            let y = rhs.known_ext_byte(i);
            proof {
                assert(ea.skip(i as int).skip(1) =~= ea.skip(i + 1));
                assert(eb.skip(i as int).skip(1) =~= eb.skip(i + 1));
                assert(le_val(ea.skip(i as int)) == x as nat + 256 * le_val(ea.skip(i + 1)));
                assert(le_val(eb.skip(i as int)) == y as nat + 256 * le_val(eb.skip(i + 1)));
            }
            if x > y {
                proof {
                    lemma_cmp_at(ea, eb, i as int);
                    lemma_bext_extends(self@, n as nat);
                    lemma_bext_extends(rhs@, n as nat);
                }
                return core::cmp::Ordering::Greater;
            }
            if x < y {
                proof {
                    lemma_cmp_at(eb, ea, i as int);
                    lemma_bext_extends(self@, n as nat);
                    lemma_bext_extends(rhs@, n as nat);
                }
                return core::cmp::Ordering::Less;
            }
        }
        proof {
            assert(ea.skip(0) =~= ea);
            assert(eb.skip(0) =~= eb);
            lemma_bext_extends(self@, n as nat);
            lemma_bext_extends(rhs@, n as nat);
        }
        core::cmp::Ordering::Equal
    }

    /// Signed (two's-complement) comparison of two equally wide containers.
    /// Any unknown byte gives `Equal`, as in [`Bytes::byte_cmp`].
    pub fn signed_cmp(&self, rhs: &Bytes) -> (r: core::cmp::Ordering)
        requires
            self@.len() == rhs@.len(),
            self@.len() >= 1,
        ensures
            !(all_known(self@) && all_known(rhs@)) ==> r == core::cmp::Ordering::Equal,
            all_known(self@) && all_known(rhs@) ==> r == (if le_val_signed(self@) < le_val_signed(
                rhs@,
            ) {
                core::cmp::Ordering::Less
            } else if le_val_signed(self@) > le_val_signed(rhs@) {
                core::cmp::Ordering::Greater
            } else {
                core::cmp::Ordering::Equal
            }),
            r == signed_cmp_spec(self@, rhs@),
    {
        if self.has_unknown() || rhs.has_unknown() {
            return core::cmp::Ordering::Equal;
        }
        let n = self.data.len();
        let ta: u8 = match self.data[n - 1] {
            Some(v) => v,
            None => 0,
        };
        let tb: u8 = match rhs.data[n - 1] {
            Some(v) => v,
            None => 0,
        };
        proof {
            lemma_le_val_bound(self@);
            lemma_le_val_bound(rhs@);
        }
        if (ta >= 128) != (tb >= 128) {
            if ta >= 128 {
                core::cmp::Ordering::Less
            } else {
                core::cmp::Ordering::Greater
            }
        } else {
            self.byte_cmp(rhs)
        }
    }
}

/// If two equally long known sequences agree strictly above position `i`
/// and the byte of `hi` at `i` exceeds the byte of `lo`, then `hi`'s value
/// exceeds `lo`'s.
proof fn lemma_cmp_at(hi: Seq<Option<u8>>, lo: Seq<Option<u8>>, i: int)
    requires
        hi.len() == lo.len(),
        0 <= i < hi.len(),
        le_val(hi.skip(i + 1)) == le_val(lo.skip(i + 1)),
        known_byte(hi[i]) > known_byte(lo[i]),
    ensures
        le_val(hi) > le_val(lo),
{
    lemma_le_val_split(hi, i);
    lemma_le_val_split(lo, i);
    assert(hi.skip(i).skip(1) =~= hi.skip(i + 1));
    assert(lo.skip(i).skip(1) =~= lo.skip(i + 1));
    let w = le_val(hi.skip(i + 1));
    let x = known_byte(hi[i]);
    let y = known_byte(lo[i]);
    assert(le_val(hi.skip(i)) == x + 256 * w);
    assert(le_val(lo.skip(i)) == y + 256 * w);
    let p = pow2(8 * i as nat);
    lemma_pow2_pos(8 * i as nat);
    lemma_le_val_bound(lo.take(i));
    assert(p * (x + 256 * w) >= p * (y + 256 * w) + p) by (nonlinear_arith)
        requires
            x >= y + 1,
            p > 0,
    ;
}

/// The upper-case hexadecimal digit for a nibble value.
pub open spec fn hex_digit(n: nat) -> char {
    if n == 0 {
        '0'
    } else if n == 1 {
        '1'
    } else if n == 2 {
        '2'
    } else if n == 3 {
        '3'
    } else if n == 4 {
        '4'
    } else if n == 5 {
        '5'
    } else if n == 6 {
        '6'
    } else if n == 7 {
        '7'
    } else if n == 8 {
        '8'
    } else if n == 9 {
        '9'
    } else if n == 10 {
        'A'
    } else if n == 11 {
        'B'
    } else if n == 12 {
        'C'
    } else if n == 13 {
        'D'
    } else if n == 14 {
        'E'
    } else {
        'F'
    }
}

/// The two characters showing one tri-state byte: hex digits for a known
/// byte, `XX` for an unknown one.
pub open spec fn byte_chars(t: Option<u8>) -> Seq<char> {
    match t {
        Some(v) => seq![hex_digit(v as nat / 16), hex_digit(v as nat % 16)],
        None => seq!['X', 'X'],
    }
}

/// The characters of bytes `len-1` down to `i`, most significant first.
pub open spec fn display_down(s: Seq<Option<u8>>, i: int) -> Seq<char>
    decreases s.len() - i,
{
    if i < 0 || i >= s.len() {
        Seq::empty()
    } else {
        display_down(s, i + 1) + byte_chars(s[i])
    }
}

/// The display form of a container: `0x`, then each byte from most to least
/// significant as two upper-case hex digits, `XX` for an unknown byte.
pub open spec fn display_chars(s: Seq<Option<u8>>) -> Seq<char> {
    seq!['0', 'x'] + display_down(s, 0)
}

/// Appends one upper-case hexadecimal digit.
fn push_hex_digit(out: &mut String, d: u8)
    requires
        d < 16,
    ensures
        final(out)@ == old(out)@ + seq![hex_digit(d as nat)],
{
    proof {
        reveal_strlit("0");
        reveal_strlit("1");
        reveal_strlit("2");
        reveal_strlit("3");
        reveal_strlit("4");
        reveal_strlit("5");
        reveal_strlit("6");
        reveal_strlit("7");
        reveal_strlit("8");
        reveal_strlit("9");
        reveal_strlit("A");
        reveal_strlit("B");
        reveal_strlit("C");
        reveal_strlit("D");
        reveal_strlit("E");
        reveal_strlit("F");
    }
    match d {
        0 => out.append("0"),
        1 => out.append("1"),
        2 => out.append("2"),
        3 => out.append("3"),
        4 => out.append("4"),
        5 => out.append("5"),
        6 => out.append("6"),
        7 => out.append("7"),
        8 => out.append("8"),
        9 => out.append("9"),
        10 => out.append("A"),
        11 => out.append("B"),
        12 => out.append("C"),
        13 => out.append("D"),
        14 => out.append("E"),
        _ => out.append("F"),
    }
}

impl Bytes {
    /// The display form of the container (`0x` followed by the bytes from
    /// most to least significant, `XX` for unknown bytes), as the
    /// simulator's front ends show every net and register value.
    pub fn to_display_string(&self) -> (r: String)
        ensures
            r@ == display_chars(self@),
    {
        let mut out = String::new();
        proof {
            reveal_strlit("0x");
            reveal_strlit("XX");
        }
        out.append("0x");
        proof {
            assert(out@ =~= seq!['0', 'x']);
        }
        let n = self.data.len();
        let mut i: usize = n;
        while i > 0
            invariant
                i <= n,
                n == self@.len(),
                out@ == seq!['0', 'x'] + display_down(self@, i as int),
            decreases i,
        {
            i = i - 1;
            let ghost pre = out@;
            match self.data[i] {
                Some(v) => {
                    push_hex_digit(&mut out, v / 16);
                    push_hex_digit(&mut out, v % 16);
                    proof {
                        assert(out@ =~= pre + byte_chars(self@[i as int]));
                    }
                },
                None => {
                    out.append("XX");
                    proof {
                        reveal_strlit("XX");
                        assert("XX"@ =~= seq!['X', 'X']);
                        assert(out@ =~= pre + byte_chars(self@[i as int]));
                    }
                },
            }
            proof {
                assert(out@ =~= seq!['0', 'x'] + display_down(self@, i as int));
            }
        }
        out
    }
}

/// The byte container of length `n` holding a given value is unique: the
/// encoding of a known container's value is the container itself. With
/// [`lemma_from_nat_val`] this makes conversion to and from integers a
/// round trip.
pub proof fn lemma_le_val_round_trip(s: Seq<Option<u8>>)
    requires
        all_known(s),
    ensures
        from_nat(s.len(), le_val(s)) == s,
{
    let n = s.len();
    let v = le_val(s);
    assert forall|i: int| 0 <= i < n implies from_nat(n, v)[i] == s[i] by {
        let p = pow2(8 * i as nat);
        lemma_pow2_pos(8 * i as nat);
        lemma_le_val_split(s, i);
        lemma_le_val_bound(s.take(i));
        assert(v / p == le_val(s.skip(i))) by {
            vstd::arithmetic::div_mod::lemma_hoist_over_denominator(
                le_val(s.take(i)) as int,
                le_val(s.skip(i)) as int,
                p as nat,
            );
            vstd::arithmetic::div_mod::lemma_basic_div(le_val(s.take(i)) as int, p as int);
        }
        assert(s.skip(i).skip(1) =~= s.skip(i + 1));
        assert(le_val(s.skip(i)) == known_byte(s[i]) + 256 * le_val(s.skip(i + 1)));
        vstd::arithmetic::div_mod::lemma_mod_multiples_vanish(
            le_val(s.skip(i + 1)) as int,
            known_byte(s[i]) as int,
            256,
        );
        lemma_small_mod(known_byte(s[i]), 256);
        assert((v / p) % 256 == known_byte(s[i]));
    }
    assert(from_nat(n, v) =~= s);
}

/// The encoding of `v` in `n` bytes is fully known and holds `v mod 2^(8n)`.
pub proof fn lemma_from_nat_val(n: nat, v: nat)
    ensures
        all_known(from_nat(n, v)),
        le_val(from_nat(n, v)) == v % pow2(8 * n),
    decreases n,
{
    let s = from_nat(n, v);
    if n == 0 {
        assert(pow2(0) == 1) by {
            vstd::arithmetic::power2::lemma2_to64();
        }
        assert(v % 1 == 0) by (nonlinear_arith);
    } else {
        lemma_from_nat_val((n - 1) as nat, v / 256);
        assert(s.skip(1) =~= from_nat((n - 1) as nat, v / 256)) by {
            assert forall|j: int| 0 <= j < n - 1 implies s.skip(1)[j] == from_nat(
                (n - 1) as nat,
                v / 256,
            )[j] by {
                lemma_pow2_pos(8 * j as nat);
                vstd::arithmetic::div_mod::lemma_div_denominator(
                    v as int,
                    256,
                    pow2(8 * j as nat) as int,
                );
                assert(pow2(8 * (j + 1) as nat) == 256 * pow2(8 * j as nat)) by {
                    lemma_pow2_adds(8, 8 * j as nat);
                    vstd::arithmetic::power2::lemma2_to64();
                }
            }
        }
        let p1 = pow2(8 * (n - 1) as nat);
        lemma_pow2_pos(8 * (n - 1) as nat);
        assert(pow2(0) == 1) by {
            vstd::arithmetic::power2::lemma2_to64();
        }
        vstd::arithmetic::div_mod::lemma_div_basics(v as int);
        assert(known_byte(s[0]) == v % 256);
        assert(le_val(s) == v % 256 + 256 * ((v / 256) % p1));
        vstd::arithmetic::div_mod::lemma_breakdown(v as int, 256, p1 as int);
        assert(pow2(8 * n) == 256 * p1) by {
            lemma_pow2_adds(8, 8 * (n - 1) as nat);
            vstd::arithmetic::power2::lemma2_to64();
        }
    }
}

/// Unknown absorption for the wrapping arithmetic: a result byte of an
/// addition or subtraction is unknown whenever either byte it is computed
/// from is unknown. (The shifts make the whole result unknown on any
/// unknown input byte, and the comparisons yield `Equal`; those cases are
/// part of the respective operations' contracts.)
pub proof fn lemma_unknown_absorption(a: Seq<Option<u8>>, b: Seq<Option<u8>>, i: int)
    requires
        0 <= i < a.len(),
        a[i] is None || bext(b, a.len())[i] is None,
    ensures
        add_bytes(a, b)[i] is None,
        sub_bytes(a, b)[i] is None,
{
    let n = a.len();
    let inner = add_bytes(a, not_bytes(bext(b, n)));
    assert(not_bytes(bext(b, n))[i] is None <==> bext(b, n)[i] is None);
    assert(bext(not_bytes(bext(b, n)), n) =~= not_bytes(bext(b, n)));
    assert(inner[i] is None);
    assert(bext(seq![Some(1u8)], n)[i] is Some);
    assert(sub_bytes(a, b)[i] is None);
}

/// The whole result of a logical left shift, as a sequence.
pub open spec fn shl_bytes(a: Seq<Option<u8>>, b: Seq<Option<u8>>) -> Seq<Option<u8>> {
    if all_known(a) && all_known(b) {
        from_nat(a.len(), (le_val(a) * pow2(shift_amount(b))) % pow2(8 * a.len()))
    } else {
        unknown_seq(a.len())
    }
}

/// The whole result of a logical right shift, as a sequence.
pub open spec fn shr_bytes(a: Seq<Option<u8>>, b: Seq<Option<u8>>) -> Seq<Option<u8>> {
    if all_known(a) && all_known(b) {
        from_nat(a.len(), le_val(a) / pow2(shift_amount(b)))
    } else {
        unknown_seq(a.len())
    }
}

/// The whole result of an arithmetic right shift, as a sequence: the
/// two's-complement encoding of the floored quotient of the signed value.
pub open spec fn shra_bytes(a: Seq<Option<u8>>, b: Seq<Option<u8>>) -> Seq<Option<u8>> {
    if all_known(a) && all_known(b) {
        from_nat(
            a.len(),
            ((le_val_signed(a) / pow2(shift_amount(b)) as int) % (pow2(8 * a.len()) as int)) as nat,
        )
    } else {
        unknown_seq(a.len())
    }
}

/// The result of the unsigned comparison, as a function of the operands.
pub open spec fn byte_cmp_spec(a: Seq<Option<u8>>, b: Seq<Option<u8>>) -> core::cmp::Ordering {
    if !(all_known(a) && all_known(b)) {
        core::cmp::Ordering::Equal
    } else if le_val(a) < le_val(b) {
        core::cmp::Ordering::Less
    } else if le_val(a) > le_val(b) {
        core::cmp::Ordering::Greater
    } else {
        core::cmp::Ordering::Equal
    }
}

/// The result of the signed comparison, as a function of the operands.
pub open spec fn signed_cmp_spec(a: Seq<Option<u8>>, b: Seq<Option<u8>>) -> core::cmp::Ordering {
    if !(all_known(a) && all_known(b)) {
        core::cmp::Ordering::Equal
    } else if le_val_signed(a) < le_val_signed(b) {
        core::cmp::Ordering::Less
    } else if le_val_signed(a) > le_val_signed(b) {
        core::cmp::Ordering::Greater
    } else {
        core::cmp::Ordering::Equal
    }
}

/// The value the logical left shift of a known word computes is the value
/// the host machine's truncating shift computes: for any word value and
/// any shift amount below the width, `(v * 2^k) mod 2^32 == v << k`.
/// With [`Bytes::shl`]'s contract this makes the container shift and the
/// native shift agree on every known word.
pub proof fn lemma_shl_matches_native(v: u32, k: u32)
    requires
        k < 32,
    ensures
        (v as nat * pow2(k as nat)) % pow2(32) == (v << k) as nat,
{
    vstd::arithmetic::power2::lemma2_to64();
    let v64 = v as u64;
    assert(pow2(k as nat) <= pow2(31)) by {
        if (k as nat) < 31 {
            vstd::arithmetic::power2::lemma_pow2_strictly_increases(k as nat, 31);
        }
    }
    assert(v64 * pow2(k as nat) <= u64::MAX) by (nonlinear_arith)
        requires
            v64 < 0x1_0000_0000,
            pow2(k as nat) <= 0x8000_0000,
    ;
    vstd::bits::lemma_u64_shl_is_mul(v64, k as u64);
    assert(v << k == ((v64 << (k as u64)) % 0x1_0000_0000) as u32) by (bit_vector)
        requires
            k < 32,
            v64 == v as u64,
    ;
}

/// The value the logical right shift of a known word computes is the value
/// the host machine's shift computes: `v / 2^k == v >> k`. With
/// [`Bytes::shr`]'s contract this makes the container shift and the native
/// shift agree on every known word.
pub proof fn lemma_shr_matches_native(v: u32, k: u32)
    requires
        k < 32,
    ensures
        (v as nat) / pow2(k as nat) == (v >> k) as nat,
{
    vstd::bits::lemma_u32_shr_is_div(v, k);
}

/// An all-ones (known) sequence of length `n`.
pub open spec fn ones_seq(n: nat) -> Seq<Option<u8>> {
    Seq::new(n, |i: int| Some(0xFFu8))
}

/// The absorbing laws of the tri-state bitwise operations, unknowns
/// included: `a AND 0 == 0`, `a OR ones == ones`, and `a XOR ones == NOT a`.
pub proof fn lemma_bitwise_absorbing(a: Seq<Option<u8>>)
    ensures
        and_bytes(a, zero_seq(a.len())) == zero_seq(a.len()),
        or_bytes(a, ones_seq(a.len())) == ones_seq(a.len()),
        xor_bytes(a, ones_seq(a.len())) == not_bytes(a),
{
    let n = a.len();
    assert(bext(zero_seq(n), n) =~= zero_seq(n));
    assert(bext(ones_seq(n), n) =~= ones_seq(n));
    assert(and_bytes(a, zero_seq(n)) =~= zero_seq(n));
    assert(or_bytes(a, ones_seq(n)) =~= ones_seq(n));
    assert forall|i: int| 0 <= i < n implies xor_bytes(a, ones_seq(n))[i] == not_bytes(a)[i] by {
        match a[i] {
            Some(v) => {
                assert(v ^ 0xFF == !v) by (bit_vector);
            },
            None => {},
        }
    }
    assert(xor_bytes(a, ones_seq(n)) =~= not_bytes(a));
}

/// `pow2(k)` fits in a `u128` for `k <= 128`.
proof fn lemma_pow2_le_max16(k: nat)
    requires
        k <= 128,
    ensures
        pow2(k) <= 0x1_0000_0000_0000_0000_0000_0000_0000_0000,
    decreases 128 - k,
{
    if k == 128 {
        vstd::arithmetic::power2::lemma2_to64();
        lemma_pow2_adds(64, 64);
    } else {
        lemma_pow2_le_max16(k + 1);
        vstd::arithmetic::power2::lemma_pow2_strictly_increases(k, k + 1);
    }
}

/// The value of a prefix of at most `m` bytes fits in `8*m` bits.
proof fn lemma_prefix_fits(s: Seq<Option<u8>>, cap: int)
    requires
        0 <= cap <= 16,
    ensures
        ({
            let m = if s.len() < cap { s.len() as int } else { cap };
            le_val(s.take(m)) < pow2(8 * cap as nat)
        }),
{
    let m = if s.len() < cap { s.len() as int } else { cap };
    lemma_le_val_bound(s.take(m));
    if 8 * m < 8 * cap {
        vstd::arithmetic::power2::lemma_pow2_strictly_increases(8 * m as nat, 8 * cap as nat);
    }
}

} // verus!
