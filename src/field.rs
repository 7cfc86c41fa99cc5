//! Field elements and scalars held as their canonical little-endian encodings.
use ark_ff::{BigInteger, PrimeField};
use ark_serialize::CanonicalDeserialize;
use vstd::prelude::*;

verus! {

/// Number of bytes in the encoding of a field element or a scalar.
pub const ELEMENT_BYTES: usize = 32;

/// The integer that a little-endian byte string stands for.
pub open spec fn le_value(b: Seq<u8>) -> nat
    decreases b.len(),
{
    if b.len() == 0 {
        0
    } else {
        b[0] as nat + 256 * le_value(b.drop_first())
    }
}

/// Order of the BN254 scalar field, which is also the base field of the
/// twisted Edwards curve that the identities live on.
pub open spec fn base_modulus() -> nat {
    21888242871839275222246405745257275088548364400416034343698204186575808495617nat
}

/// Order of the prime-order subgroup of that Edwards curve (its scalar field).
pub open spec fn scalar_modulus() -> nat {
    2736030358979909402780800718157159386076813972158567259200215660948447373041nat
}

/// A byte string is a canonical encoding below `m`.
pub open spec fn canonical_below(b: Seq<u8>, m: nat) -> bool {
    b.len() == ELEMENT_BYTES && le_value(b) < m
}

/// An element of the base field, as 32 little-endian bytes.
#[derive(Clone, Debug, PartialEq, Eq)]
pub struct Fe {
    pub bytes: Vec<u8>,
}

/// An element of the curve's scalar field, as 32 little-endian bytes.
#[derive(Clone, Debug, PartialEq, Eq)]
pub struct Scalar {
    pub bytes: Vec<u8>,
}

impl View for Fe {
    type V = Seq<u8>;

    open spec fn view(&self) -> Seq<u8> {
        self.bytes@
    }
}

impl View for Scalar {
    type V = Seq<u8>;

    open spec fn view(&self) -> Seq<u8> {
        self.bytes@
    }
}

impl Fe {
    pub open spec fn wf(&self) -> bool {
        canonical_below(self@, base_modulus())
    }

    pub fn zero() -> (r: Fe)
        ensures
            r.wf(),
            r@ == Seq::new(32, |i: int| 0u8),
            le_value(r@) == 0,
    {
        let r = Fe { bytes: zero_bytes() };
        proof { lemma_zero_value(r@); }
        r
    }
}

impl Fe {
    /// An element with the same bytes.
    pub fn duplicate(&self) -> (r: Fe)
        ensures
            r@ == self@,
    {
        Fe { bytes: copy_bytes(&self.bytes) }
    }

    /// The element one.
    pub fn one() -> (r: Fe)
        ensures
            r.wf(),
            r@ == seq![1u8] + Seq::new(31, |i: int| 0u8),
            le_value(r@) == 1,
    {
        let mut bytes = zero_bytes();
        bytes.set(0, 1u8);
        let r = Fe { bytes };
        proof {
            assert(r@ =~= seq![1u8] + Seq::new(31, |i: int| 0u8));
            lemma_zero_value(r@.drop_first());
        }
        r
    }
}

impl Scalar {
    pub open spec fn wf(&self) -> bool {
        canonical_below(self@, scalar_modulus())
    }

    pub fn zero() -> (r: Scalar)
        ensures
            r.wf(),
            r@ == Seq::new(32, |i: int| 0u8),
    {
        let r = Scalar { bytes: zero_bytes() };
        proof { lemma_zero_value(r@); }
        r
    }
}

/// A copy of `b`.
pub(crate) fn copy_bytes(b: &Vec<u8>) -> (r: Vec<u8>)
    ensures
        r@ == b@,
{
    let mut r: Vec<u8> = Vec::new();
    let mut i: usize = 0;
    while i < b.len()
        invariant
            i <= b@.len(),
            r@ == b@.subrange(0, i as int),
        decreases b@.len() - i,
    {
        r.push(b[i]);
        i = i + 1;
        assert(r@ =~= b@.subrange(0, i as int));
    }
    assert(b@.subrange(0, b@.len() as int) =~= b@);
    r
}

fn zero_bytes() -> (r: Vec<u8>)
    ensures
        r@ == Seq::new(32, |i: int| 0u8),
{
    let mut r: Vec<u8> = Vec::new();
    let mut i: usize = 0;
    while i < ELEMENT_BYTES
        invariant
            i <= ELEMENT_BYTES,
            r@ == Seq::new(i as nat, |j: int| 0u8),
        decreases ELEMENT_BYTES - i,
    {
        r.push(0u8);
        i = i + 1;
    }
    r
}

pub(crate) proof fn lemma_zero_value(b: Seq<u8>)
    requires
        forall|i: int| 0 <= i < b.len() ==> b[i] == 0u8,
    ensures
        le_value(b) == 0,
    decreases b.len(),
{
    if b.len() > 0 {
        lemma_zero_value(b.drop_first());
    }
}

/// Relies on ark-bn254's `Fr::deserialize_uncompressed`, which reads 32
/// little-endian bytes and fails exactly when their value is not below the modulus.
#[verifier::external_body]
pub(crate) fn is_canonical_base(b: &Vec<u8>) -> (r: bool)
    requires
        b@.len() == ELEMENT_BYTES,
    ensures
        r == (le_value(b@) < base_modulus()),
{
    ark_bn254::Fr::deserialize_uncompressed(&b[..]).is_ok()
}

/// Relies on ark-ed-on-bn254's `Fr::deserialize_uncompressed`, which reads 32
/// little-endian bytes and fails exactly when their value is not below the modulus.
#[verifier::external_body]
pub(crate) fn is_canonical_scalar(b: &Vec<u8>) -> (r: bool)
    requires
        b@.len() == ELEMENT_BYTES,
    ensures
        r == (le_value(b@) < scalar_modulus()),
{
    ark_ed_on_bn254::Fr::deserialize_uncompressed(&b[..]).is_ok()
}

/// 256 to the power `k`.
pub open spec fn pow256(k: nat) -> nat
    decreases k,
{
    if k == 0 {
        1
    } else {
        256 * pow256((k - 1) as nat)
    }
}

proof fn lemma_pow256_positive(k: nat)
    ensures
        pow256(k) >= 1,
    decreases k,
{
    if k > 0 {
        lemma_pow256_positive((k - 1) as nat);
    }
}

proof fn lemma_pow256_grows(k: nat)
    requires
        k >= 8,
    ensures
        pow256(k) > u64::MAX,
    decreases k,
{
    if k == 8 {
        reveal_with_fuel(pow256, 9);
    } else {
        lemma_pow256_grows((k - 1) as nat);
    }
}

proof fn lemma_le_value_push(s: Seq<u8>, x: u8)
    ensures
        le_value(s.push(x)) == le_value(s) + pow256(s.len()) * x,
    decreases s.len(),
{
    let t = s.push(x);
    if s.len() == 0 {
        assert(t.drop_first() =~= Seq::<u8>::empty());
        assert(le_value(t) == t[0] as nat + 256 * le_value(t.drop_first()));
        assert(pow256(0) == 1);
    } else {
        lemma_le_value_push(s.drop_first(), x);
        assert(t.drop_first() =~= s.drop_first().push(x));
        let a = le_value(s.drop_first());
        let p = pow256((s.len() - 1) as nat);
        assert(le_value(t) == s[0] as nat + 256 * le_value(s.drop_first().push(x)));
        assert(le_value(s) == s[0] as nat + 256 * a);
        assert(pow256(s.len()) == 256 * p);
        assert(256 * (a + p * x) == 256 * a + (256 * p) * x) by (nonlinear_arith);
    }
}

proof fn lemma_le_value_split(s: Seq<u8>, k: int)
    requires
        0 <= k <= s.len(),
    ensures
        le_value(s) == le_value(s.subrange(0, k)) + pow256(k as nat) * le_value(s.subrange(k, s.len() as int)),
    decreases s.len() - k,
{
    if k == s.len() {
        assert(s.subrange(0, k) =~= s);
        let e = s.subrange(k, s.len() as int);
        assert(e.len() == 0);
        assert(le_value(e) == 0);
        assert(pow256(k as nat) * 0 == 0) by (nonlinear_arith);
    } else {
        lemma_le_value_split(s, k + 1);
        let head = s.subrange(0, k);
        let tail = s.subrange(k, s.len() as int);
        assert(s.subrange(0, k + 1) =~= head.push(s[k]));
        assert(tail.drop_first() =~= s.subrange(k + 1, s.len() as int));
        lemma_le_value_push(head, s[k]);
        let p = pow256(k as nat);
        let t = le_value(s.subrange(k + 1, s.len() as int));
        assert(le_value(tail) == s[k] as nat + 256 * t);
        assert(pow256((k + 1) as nat) == 256 * p);
        assert(p * s[k] + (256 * p) * t == p * (s[k] + 256 * t)) by (nonlinear_arith);
    }
}

impl Fe {
    /// The element that the integer `d` stands for.
    pub fn from_u64(d: u64) -> (r: Fe)
        ensures
            r.wf(),
            le_value(r@) == d,
    {
        let mut bytes: Vec<u8> = Vec::new();
        let mut v: u64 = d;
        let mut k: usize = 0;
        proof {
            assert(le_value(bytes@) == 0);
            assert(pow256(0) == 1);
            assert(pow256(0) * v == v) by (nonlinear_arith)
                requires
                    pow256(0) == 1,
            ;
        }
        while k < ELEMENT_BYTES
            invariant
                k <= ELEMENT_BYTES,
                bytes@.len() == k,
                d as nat == le_value(bytes@) + pow256(k as nat) * v,
            decreases ELEMENT_BYTES - k,
        {
            let byte = (v % 256) as u8;
            let next = v / 256;
            proof {
                lemma_le_value_push(bytes@, byte);
                let p = pow256(k as nat);
                assert(v == 256 * next + byte);
                assert(p * v == p * byte + (256 * p) * next) by (nonlinear_arith)
                    requires
                        v == 256 * next + byte,
                ;
            }
            bytes.push(byte);
            v = next;
            k = k + 1;
        }
        proof {
            lemma_pow256_grows(32);
            if v > 0 {
                assert(pow256(32) * v >= pow256(32)) by (nonlinear_arith)
                    requires
                        v > 0,
                ;
            }
        }
        Fe { bytes }
    }

    /// The integer that the element stands for, when it fits a `u64`.
    pub fn to_u64(&self) -> (r: Option<u64>)
        requires
            self@.len() == ELEMENT_BYTES,
        ensures
            r == (if le_value(self@) <= u64::MAX {
                Some(le_value(self@) as u64)
            } else {
                None
            }),
    {
        let ghost b = self@;
        let mut acc: u64 = 0;
        let mut k: usize = ELEMENT_BYTES;
        while k > 0
            invariant
                k <= ELEMENT_BYTES,
                b == self@,
                b.len() == ELEMENT_BYTES,
                acc as nat == le_value(b.subrange(k as int, 32)),
            decreases k,
        {
            let byte = self.bytes[k - 1];
            proof {
                assert(b.subrange(k - 1, 32).drop_first() =~= b.subrange(k as int, 32));
            }
            if acc > (u64::MAX - byte as u64) / 256 {
                proof {
                    lemma_le_value_split(b, k - 1);
                    lemma_pow256_positive((k - 1) as nat);
                    let x = le_value(b.subrange(k - 1, 32));
                    assert(x > u64::MAX);
                    assert(pow256((k - 1) as nat) * x >= x) by (nonlinear_arith)
                        requires
                            pow256((k - 1) as nat) >= 1,
                    ;
                }
                return None;
            }
            acc = acc * 256 + byte as u64;
            k = k - 1;
        }
        proof {
            assert(b.subrange(0, 32) =~= b);
        }
        Some(acc)
    }
}

/// Product in the base field.
pub open spec fn field_mul(a: nat, b: nat) -> nat {
    (a * b) % base_modulus()
}

/// Sum in the base field.
pub open spec fn field_add(a: nat, b: nat) -> nat {
    (a + b) % base_modulus()
}

/// Relies on ark-bn254's `Fr` multiplication: the product modulo the field's
/// order, as a canonical element.
#[verifier::external_body]
pub(crate) fn fe_mul(a: &Fe, b: &Fe) -> (r: Fe)
    requires
        a.wf(),
        b.wf(),
    ensures
        r.wf(),
        le_value(r@) == field_mul(le_value(a@), le_value(b@)),
{
    let p = ark_bn254::Fr::from_le_bytes_mod_order(&a.bytes) * ark_bn254::Fr::from_le_bytes_mod_order(&b.bytes);
    Fe { bytes: p.into_bigint().to_bytes_le() }
}

/// Relies on ark-bn254's `Fr` addition: the sum modulo the field's order, as
/// a canonical element.
#[verifier::external_body]
pub(crate) fn fe_add(a: &Fe, b: &Fe) -> (r: Fe)
    requires
        a.wf(),
        b.wf(),
    ensures
        r.wf(),
        le_value(r@) == field_add(le_value(a@), le_value(b@)),
{
    let p = ark_bn254::Fr::from_le_bytes_mod_order(&a.bytes) + ark_bn254::Fr::from_le_bytes_mod_order(&b.bytes);
    Fe { bytes: p.into_bigint().to_bytes_le() }
}

/// Two byte strings of one length with the same value are the same.
pub proof fn lemma_le_value_injective(a: Seq<u8>, b: Seq<u8>)
    requires
        a.len() == b.len(),
        le_value(a) == le_value(b),
    ensures
        a == b,
    decreases a.len(),
{
    if a.len() > 0 {
        let x = le_value(a.drop_first());
        let y = le_value(b.drop_first());
        let a0 = a[0] as int;
        let b0 = b[0] as int;
        assert(a0 == b0 && x == y) by (nonlinear_arith)
            requires
                a0 + 256 * x == b0 + 256 * y,
                0 <= a0 < 256,
                0 <= b0 < 256,
                x >= 0,
                y >= 0,
        ;
        lemma_le_value_injective(a.drop_first(), b.drop_first());
        assert(a =~= seq![a[0]] + a.drop_first());
        assert(b =~= seq![b[0]] + b.drop_first());
    } else {
        assert(a =~= b);
    }
}

impl Fe {
    /// Whether the two elements have the same bytes.
    pub fn equals(&self, o: &Fe) -> (r: bool)
        ensures
            r == (self@ == o@),
    {
        if self.bytes.len() != o.bytes.len() {
            return false;
        }
        let mut i: usize = 0;
        while i < self.bytes.len()
            invariant
                self@.len() == o@.len(),
                i <= self@.len(),
                forall|j: int| 0 <= j < i ==> self@[j] == o@[j],
            decreases self@.len() - i,
        {
            if self.bytes[i] != o.bytes[i] {
                return false;
            }
            i = i + 1;
        }
        assert(self@ =~= o@);
        true
    }
}

} // verus!
