//! Identities, signatures and attestations, their fixed byte layout, and the
//! construction of a linked chain of attestations.
use vstd::prelude::*;

use crate::field::{
    base_modulus, canonical_below, copy_bytes, fe_add, fe_mul, field_add, field_mul, is_canonical_base, le_value,
    lemma_le_value_injective, is_canonical_scalar, scalar_modulus, Fe, Scalar,
    ELEMENT_BYTES,
};
use crate::hash::{poseidon_of, poseidon_pair, HashConfig};

verus! {

/// Bytes of an uncompressed point: the x coordinate, then the y coordinate.
pub const POINT_BYTES: usize = 64;

/// Coefficient `a` of the curve a·x² + y² = 1 + d·x²·y² over the base field:
/// Baby Jubjub in the form that the signature scheme works on.
pub const CURVE_A: u64 = 168700;

/// Coefficient `d` of the same curve.
pub const CURVE_D: u64 = 168696;

/// Bytes of an encoded attestation: R, then s, then the public key.
pub const ATTESTATION_BYTES: usize = 160;

/// A point in affine coordinates, as its two coordinates.
pub type PointView = (Seq<u8>, Seq<u8>);

/// What an attestation holds: the signer's public key and the signature (R, s).
pub struct SigPkView {
    pub pk: PointView,
    pub r: PointView,
    pub s: Seq<u8>,
}

/// A point of the twisted Edwards curve in affine coordinates.
#[derive(Clone, Debug, PartialEq, Eq)]
pub struct Point {
    pub x: Fe,
    pub y: Fe,
}

/// A signature: the commitment point R and the response scalar s.
#[derive(Clone, Debug, PartialEq, Eq)]
pub struct Signature {
    pub r: Point,
    pub s: Scalar,
}

/// An attestation: the holder of `pk` signed the hash of the previous
/// identity's public key, giving `sig`.
#[derive(Clone, Debug, PartialEq, Eq)]
pub struct SigPk {
    pub pk: Point,
    pub sig: Signature,
}

/// Why a byte string is not an attestation.
#[derive(Clone, Copy, Debug, PartialEq, Eq)]
pub enum CodecError {
    /// Fewer bytes than an attestation takes.
    Truncated,
    /// R or the public key is not a curve point: a coordinate is not a
    /// canonical field element, or the two do not satisfy the curve equation.
    InvalidPoint,
    /// The scalar s is not a canonical element of the scalar field.
    InvalidScalar,
}

/// Chain construction produced an attestation that does not verify.
#[derive(Clone, Copy, Debug, PartialEq, Eq)]
pub enum ChainError {
    ConstructionInvariantViolation { step: usize },
}

impl View for Point {
    type V = PointView;

    open spec fn view(&self) -> PointView {
        (self.x@, self.y@)
    }
}

impl View for SigPk {
    type V = SigPkView;

    open spec fn view(&self) -> SigPkView {
        SigPkView { pk: self.pk@, r: self.sig.r@, s: self.sig.s@ }
    }
}

/// Both coordinates are canonical field elements.
pub open spec fn point_wf(p: PointView) -> bool {
    canonical_below(p.0, base_modulus()) && canonical_below(p.1, base_modulus())
}

/// The point satisfies a·x² + y² = 1 + d·x²·y² in the base field.
pub open spec fn on_curve(p: PointView) -> bool {
    let x = le_value(p.0);
    let y = le_value(p.1);
    let xx = field_mul(x, x);
    let yy = field_mul(y, y);
    field_add(field_mul(CURVE_A as nat, xx), yy) == field_add(1, field_mul(CURVE_D as nat, field_mul(xx, yy)))
}

/// Canonical coordinates of a point on the curve.
pub open spec fn curve_point(p: PointView) -> bool {
    point_wf(p) && on_curve(p)
}

pub open spec fn sig_pk_wf(a: SigPkView) -> bool {
    curve_point(a.pk) && curve_point(a.r) && canonical_below(a.s, scalar_modulus())
}

pub open spec fn point_bytes(p: PointView) -> Seq<u8> {
    p.0 + p.1
}

/// The byte layout of an attestation.
pub open spec fn sig_pk_bytes(a: SigPkView) -> Seq<u8> {
    point_bytes(a.r) + a.s + point_bytes(a.pk)
}

/// The attestation that the first bytes of `b` lay out.
pub open spec fn sig_pk_of_bytes(b: Seq<u8>) -> SigPkView {
    SigPkView {
        r: (b.subrange(0, 32), b.subrange(32, 64)),
        s: b.subrange(64, 96),
        pk: (b.subrange(96, 128), b.subrange(128, 160)),
    }
}

/// The first failure found when reading `b` as an attestation, in byte order.
pub open spec fn decode_error(b: Seq<u8>) -> Option<CodecError> {
    if b.len() < ATTESTATION_BYTES {
        Some(CodecError::Truncated)
    } else {
        let a = sig_pk_of_bytes(b);
        if !curve_point(a.r) {
            Some(CodecError::InvalidPoint)
        } else if !canonical_below(a.s, scalar_modulus()) {
            Some(CodecError::InvalidScalar)
        } else if !curve_point(a.pk) {
            Some(CodecError::InvalidPoint)
        } else {
            None
        }
    }
}

/// The hash of a public key: Poseidon over its two coordinates.
pub open spec fn hash_spec(p: PointView) -> Seq<u8> {
    poseidon_of(p.0, p.1)
}

/// The message that the `i`-th identity of a chain with keys `pks` signs: the
/// hash of the previous key, or of its own key when it opens the chain.
pub open spec fn link_message_spec(pks: Seq<PointView>, i: int) -> Seq<u8> {
    if i == 0 {
        hash_spec(pks[0])
    } else {
        hash_spec(pks[i - 1])
    }
}

fn copy_range(b: &Vec<u8>, start: usize, len: usize) -> (r: Vec<u8>)
    requires
        start + len <= b@.len(),
    ensures
        r@ == b@.subrange(start as int, start + len),
{
    let n = b.len();
    let mut r: Vec<u8> = Vec::new();
    let mut i: usize = 0;
    while i < len
        invariant
            i <= len,
            n == b@.len(),
            start + len <= n,
            r@ == b@.subrange(start as int, start + i),
        decreases len - i,
    {
        r.push(b[start + i]);
        i = i + 1;
        assert(r@ =~= b@.subrange(start as int, start + i));
    }
    r
}

fn append_bytes(out: &mut Vec<u8>, b: &Vec<u8>)
    ensures
        final(out)@ == old(out)@ + b@,
{
    let mut i: usize = 0;
    while i < b.len()
        invariant
            i <= b@.len(),
            out@ == old(out)@ + b@.subrange(0, i as int),
        decreases b@.len() - i,
    {
        out.push(b[i]);
        i = i + 1;
        assert(out@ =~= old(out)@ + b@.subrange(0, i as int));
    }
    assert(b@.subrange(0, b@.len() as int) =~= b@);
}

impl Point {
    pub open spec fn wf(&self) -> bool {
        point_wf(self@)
    }

    /// Whether both coordinates are canonical field elements.
    pub fn check(&self) -> (r: bool)
        ensures
            r == self.wf(),
    {
        self.x.bytes.len() == ELEMENT_BYTES && self.y.bytes.len() == ELEMENT_BYTES && is_canonical_base(&self.x.bytes)
            && is_canonical_base(&self.y.bytes)
    }

    /// Whether the point satisfies the curve equation.
    pub fn is_on_curve(&self) -> (r: bool)
        requires
            self.wf(),
        ensures
            r == on_curve(self@),
    {
        let xx = fe_mul(&self.x, &self.x);
        let yy = fe_mul(&self.y, &self.y);
        let lhs = fe_add(&fe_mul(&Fe::from_u64(CURVE_A), &xx), &yy);
        let rhs = fe_add(&Fe::one(), &fe_mul(&Fe::from_u64(CURVE_D), &fe_mul(&xx, &yy)));
        let r = lhs.equals(&rhs);
        proof {
            if le_value(lhs@) == le_value(rhs@) {
                lemma_le_value_injective(lhs@, rhs@);
            }
        }
        r
    }

    /// Whether this is the neutral point (0, 1).
    pub fn is_identity(&self) -> (r: bool)
        ensures
            r == (self@ == identity_point()),
    {
        self.x.equals(&Fe::zero()) && self.y.equals(&Fe::one())
    }

    /// A point with the same coordinates.
    pub fn duplicate(&self) -> (r: Point)
        ensures
            r@ == self@,
    {
        Point { x: self.x.duplicate(), y: self.y.duplicate() }
    }

    /// The uncompressed encoding: x, then y.
    pub fn to_bytes(&self) -> (r: Vec<u8>)
        ensures
            r@ == point_bytes(self@),
    {
        let mut r = copy_bytes(&self.x.bytes);
        append_bytes(&mut r, &self.y.bytes);
        r
    }
}

impl Signature {
    pub fn duplicate(&self) -> (r: Signature)
        ensures
            r.r@ == self.r@,
            r.s@ == self.s@,
    {
        Signature { r: self.r.duplicate(), s: Scalar { bytes: copy_bytes(&self.s.bytes) } }
    }
}

} // verus!

verus! {

impl SigPk {
    pub open spec fn wf(&self) -> bool {
        sig_pk_wf(self@)
    }

    /// An attestation with the same public key and signature.
    pub fn duplicate(&self) -> (r: SigPk)
        ensures
            r@ == self@,
    {
        SigPk { pk: self.pk.duplicate(), sig: self.sig.duplicate() }
    }

    /// The fixed layout: R uncompressed, then s, then the public key uncompressed.
    pub fn to_bytes(&self) -> (r: Vec<u8>)
        ensures
            r@ == sig_pk_bytes(self@),
    {
        let mut r = self.sig.r.to_bytes();
        append_bytes(&mut r, &self.sig.s.bytes);
        let pk = self.pk.to_bytes();
        append_bytes(&mut r, &pk);
        r
    }

    /// Reads an attestation from the first `ATTESTATION_BYTES` bytes of `b`,
    /// checking that every coordinate and the scalar are canonical and that
    /// both points lie on the curve.
    pub fn from_bytes(b: Vec<u8>) -> (r: Result<SigPk, CodecError>)
        ensures
            match decode_error(b@) {
                Some(e) => r == Err::<SigPk, CodecError>(e),
                None => r matches Ok(a) && a.wf() && a@ == sig_pk_of_bytes(b@),
            },
    {
        if b.len() < ATTESTATION_BYTES {
            return Err(CodecError::Truncated);
        }
        let rx = copy_range(&b, 0, ELEMENT_BYTES);
        let ry = copy_range(&b, 32, ELEMENT_BYTES);
        if !is_canonical_base(&rx) || !is_canonical_base(&ry) {
            return Err(CodecError::InvalidPoint);
        }
        let r = Point { x: Fe { bytes: rx }, y: Fe { bytes: ry } };
        if !r.is_on_curve() {
            return Err(CodecError::InvalidPoint);
        }
        let s = copy_range(&b, 64, ELEMENT_BYTES);
        if !is_canonical_scalar(&s) {
            return Err(CodecError::InvalidScalar);
        }
        let px = copy_range(&b, 96, ELEMENT_BYTES);
        let py = copy_range(&b, 128, ELEMENT_BYTES);
        if !is_canonical_base(&px) || !is_canonical_base(&py) {
            return Err(CodecError::InvalidPoint);
        }
        let pk = Point { x: Fe { bytes: px }, y: Fe { bytes: py } };
        if !pk.is_on_curve() {
            return Err(CodecError::InvalidPoint);
        }
        Ok(SigPk { pk, sig: Signature { r, s: Scalar { bytes: s } } })
    }
}

/// The neutral point (0, 1) of a twisted Edwards curve.
pub open spec fn identity_point() -> PointView {
    (Seq::new(32, |i: int| 0u8), seq![1u8] + Seq::new(31, |i: int| 0u8))
}

impl Default for SigPk {
    /// A placeholder: both points are the neutral point and s is zero. It is
    /// well formed as bytes, but the step transition never accepts it.
    fn default() -> (r: SigPk)
        ensures
            r.wf(),
            r@ == (SigPkView { pk: identity_point(), r: identity_point(), s: Seq::new(32, |i: int| 0u8) }),
    {
        proof {
            lemma_identity_on_curve();
        }
        SigPk {
            pk: Point { x: Fe::zero(), y: Fe::one() },
            sig: Signature { r: Point { x: Fe::zero(), y: Fe::one() }, s: Scalar::zero() },
        }
    }
}

proof fn lemma_identity_on_curve()
    ensures
        on_curve(identity_point()),
{
    let p = identity_point();
    crate::field::lemma_zero_value(p.0);
    crate::field::lemma_zero_value(p.1.drop_first());
    assert(p.1.drop_first() =~= Seq::new(31, |i: int| 0u8));
    assert(le_value(p.1) == 1);
    vstd::arithmetic::div_mod::lemma_small_mod(0, base_modulus());
    vstd::arithmetic::div_mod::lemma_small_mod(1, base_modulus());
    assert(field_mul(0, 0) == 0);
    assert(field_mul(1, 1) == 1);
    assert(field_mul(CURVE_A as nat, 0) == 0);
    assert(field_mul(0, 1) == 0);
    assert(field_mul(CURVE_D as nat, 0) == 0);
    assert(field_add(0, 1) == 1);
    assert(field_add(1, 0) == 1);
}

/// Every attestation that is well formed reads back from its own bytes.
pub proof fn lemma_round_trip(a: SigPkView)
    requires
        sig_pk_wf(a),
    ensures
        decode_error(sig_pk_bytes(a)) is None,
        sig_pk_of_bytes(sig_pk_bytes(a)) == a,
{
    let b = sig_pk_bytes(a);
    assert(b.subrange(0, 32) =~= a.r.0);
    assert(b.subrange(32, 64) =~= a.r.1);
    assert(b.subrange(64, 96) =~= a.s);
    assert(b.subrange(96, 128) =~= a.pk.0);
    assert(b.subrange(128, 160) =~= a.pk.1);
}

/// The hash of a public key: Poseidon over its two coordinates.
pub fn hash_pk(poseidon_config: &HashConfig, pk: &Point) -> (r: Fe)
    requires
        poseidon_config.wf(),
        pk.wf(),
    ensures
        r.wf(),
        r@ == hash_spec(pk@),
{
    poseidon_pair(poseidon_config, &pk.x, &pk.y)
}

/// The message that a fresh identity `pk` signs: the hash of `prev_pk`, or,
/// when there is none, the hash of `pk` itself.
pub fn link_message(poseidon_config: &HashConfig, prev_pk: Option<&Point>, pk: &Point) -> (r: Fe)
    requires
        poseidon_config.wf(),
        pk.wf(),
        prev_pk matches Some(p) ==> p.wf(),
    ensures
        r.wf(),
        r@ == hash_spec(
            match prev_pk {
                Some(p) => p@,
                None => pk@,
            },
        ),
{
    match prev_pk {
        Some(p) => hash_pk(poseidon_config, p),
        None => hash_pk(poseidon_config, pk),
    }
}

/// The public keys of a sequence of points.
pub open spec fn keys_of(pks: Seq<Point>) -> Seq<PointView> {
    pks.map_values(|p: Point| p@)
}

/// The message that each identity of a chain signs, in order: the first one
/// signs the hash of its own key, each later one the hash of the key before it.
pub fn chain_messages(poseidon_config: &HashConfig, pks: &Vec<Point>) -> (r: Vec<Fe>)
    requires
        poseidon_config.wf(),
        forall|i: int| 0 <= i < pks@.len() ==> (#[trigger] pks@[i]).wf(),
    ensures
        r@.len() == pks@.len(),
        forall|i: int| 0 <= i < r@.len() ==> (#[trigger] r@[i]).wf() && r@[i]@ == link_message_spec(keys_of(pks@), i),
{
    let mut r: Vec<Fe> = Vec::new();
    let mut i: usize = 0;
    while i < pks.len()
        invariant
            poseidon_config.wf(),
            forall|k: int| 0 <= k < pks@.len() ==> (#[trigger] pks@[k]).wf(),
            i <= pks@.len(),
            r@.len() == i,
            forall|k: int| 0 <= k < i ==> (#[trigger] r@[k]).wf() && r@[k]@ == link_message_spec(keys_of(pks@), k),
        decreases pks@.len() - i,
    {
        let m = if i == 0 {
            link_message(poseidon_config, None, &pks[i])
        } else {
            link_message(poseidon_config, Some(&pks[i - 1]), &pks[i])
        };
        r.push(m);
        i = i + 1;
    }
    r
}

/// Assembles the chain from each identity's key and signature, with the
/// verdict of checking that signature against the identity's message. The
/// first rejected signature aborts construction, and nothing is returned.
pub fn gen_signatures(pks: &Vec<Point>, sigs: &Vec<Signature>, accepted: &Vec<bool>) -> (r: Result<
    Vec<SigPk>,
    ChainError,
>)
    requires
        sigs@.len() == pks@.len(),
        accepted@.len() == pks@.len(),
    ensures
        r is Ok <==> forall|i: int| 0 <= i < accepted@.len() ==> accepted@[i],
        r matches Ok(v) ==> v@.len() == pks@.len() && forall|i: int|
            0 <= i < v@.len() ==> (#[trigger] v@[i]).pk@ == pks@[i]@ && v@[i].sig.r@ == sigs@[i].r@
                && v@[i].sig.s@ == sigs@[i].s@,
        r matches Err(ChainError::ConstructionInvariantViolation { step }) ==> step < accepted@.len()
            && !accepted@[step as int] && forall|j: int| 0 <= j < step ==> accepted@[j],
{
    let mut v: Vec<SigPk> = Vec::new();
    let mut i: usize = 0;
    while i < pks.len()
        invariant
            sigs@.len() == pks@.len(),
            accepted@.len() == pks@.len(),
            i <= pks@.len(),
            v@.len() == i,
            forall|j: int| 0 <= j < i ==> accepted@[j],
            forall|j: int|
                0 <= j < i ==> (#[trigger] v@[j]).pk@ == pks@[j]@ && v@[j].sig.r@ == sigs@[j].r@
                    && v@[j].sig.s@ == sigs@[j].s@,
        decreases pks@.len() - i,
    {
        if !accepted[i] {
            return Err(ChainError::ConstructionInvariantViolation { step: i });
        }
        v.push(SigPk { pk: pks[i].duplicate(), sig: sigs[i].duplicate() });
        i = i + 1;
    }
    Ok(v)
}

} // verus!
