//! The two-to-one algebraic hash shared by chain construction and the step transition.
use ark_crypto_primitives::sponge::poseidon::{find_poseidon_ark_and_mds, PoseidonConfig, PoseidonSponge};
use ark_crypto_primitives::sponge::CryptographicSponge;
use ark_ff::{BigInteger, PrimeField};
use vstd::prelude::*;

use crate::field::Fe;

verus! {

/// Poseidon parameters: the field's bit size, rounds, S-box exponent, rate,
/// capacity, and how many candidate MDS matrices to skip. Both sides of a chain must use the same value; the only one offered is
/// the canonical parameter set over the BN254 scalar field.
#[derive(Clone, Debug, PartialEq, Eq)]
pub struct HashConfig {
    prime_bits: u64,
    full_rounds: u64,
    partial_rounds: u64,
    alpha: u64,
    rate: u64,
    capacity: u64,
    skip_matrices: u64,
}

impl HashConfig {
    pub closed spec fn wf(&self) -> bool {
        &&& self.prime_bits == 254
        &&& self.full_rounds == 8
        &&& self.partial_rounds == 60
        &&& self.alpha == 5
        &&& self.rate == 4
        &&& self.capacity == 1
        &&& self.skip_matrices == 0
    }

    /// The canonical Poseidon parameters over the 254-bit BN254 scalar field:
    /// 8 full rounds, 60 partial rounds, exponent 5, rate 4, capacity 1, no
    /// MDS matrix skipped.
    pub fn canonical() -> (r: HashConfig)
        ensures
            r.wf(),
    {
        HashConfig { prime_bits: 254, full_rounds: 8, partial_rounds: 60, alpha: 5, rate: 4, capacity: 1, skip_matrices: 0 }
    }

    pub fn prime_bits(&self) -> (r: u64)
        requires
            self.wf(),
        ensures
            r == 254,
    {
        self.prime_bits
    }

    pub fn capacity(&self) -> (r: u64)
        requires
            self.wf(),
        ensures
            r == 1,
    {
        self.capacity
    }

    pub fn skip_matrices(&self) -> (r: u64)
        requires
            self.wf(),
        ensures
            r == 0,
    {
        self.skip_matrices
    }

    pub fn full_rounds(&self) -> (r: u64)
        requires
            self.wf(),
        ensures
            r == 8,
    {
        self.full_rounds
    }

    pub fn partial_rounds(&self) -> (r: u64)
        requires
            self.wf(),
        ensures
            r == 60,
    {
        self.partial_rounds
    }

    pub fn alpha(&self) -> (r: u64)
        requires
            self.wf(),
        ensures
            r == 5,
    {
        self.alpha
    }

    pub fn rate(&self) -> (r: u64)
        requires
            self.wf(),
        ensures
            r == 4,
    {
        self.rate
    }
}

/// The element that a Poseidon sponge with the canonical parameters squeezes
/// out first after absorbing the two elements `x` and `y`.
pub uninterp spec fn poseidon_of(x: Seq<u8>, y: Seq<u8>) -> Seq<u8>;

/// Relies on ark-crypto-primitives: `find_poseidon_ark_and_mds` expands the
/// parameters into round constants and the MDS matrix, and `PoseidonSponge`
/// absorbs the two elements and squeezes one. The result is a canonical
/// element that depends on the two inputs alone.
#[verifier::external_body]
pub(crate) fn poseidon_pair(cfg: &HashConfig, x: &Fe, y: &Fe) -> (r: Fe)
    requires
        cfg.wf(),
        x.wf(),
        y.wf(),
    ensures
        r.wf(),
        r@ == poseidon_of(x@, y@),
{
    let (ark, mds) = find_poseidon_ark_and_mds::<ark_bn254::Fr>(
        cfg.prime_bits, cfg.rate as usize, cfg.full_rounds, cfg.partial_rounds, cfg.skip_matrices);
    let params = PoseidonConfig::new(
        cfg.full_rounds as usize, cfg.partial_rounds as usize, cfg.alpha, mds, ark, cfg.rate as usize, cfg.capacity as usize);
    let mut sponge = PoseidonSponge::new(&params);
    sponge.absorb(&vec![ark_bn254::Fr::from_le_bytes_mod_order(&x.bytes), ark_bn254::Fr::from_le_bytes_mod_order(&y.bytes)]);
    let out: Vec<ark_bn254::Fr> = sponge.squeeze_field_elements(1);
    Fe { bytes: out[0].into_bigint().to_bytes_le() }
}

} // verus!
