use ark_crypto_primitives::sponge::poseidon::{find_poseidon_ark_and_mds, PoseidonConfig, PoseidonSponge};
use ark_crypto_primitives::sponge::CryptographicSponge;
use ark_ec::{AffineRepr, CurveGroup};
use ark_ff::{BigInteger, Field, PrimeField};

use ethdos_fold::fcircuit::{ChainState, EthDosCircuit, StepFailure, TransitionError};
use ethdos_fold::field::{Fe, Scalar};
use ethdos_fold::hash::HashConfig;
use ethdos_fold::signature::{
    chain_messages, gen_signatures, hash_pk, link_message, ChainError, Point, SigPk, Signature,
};

fn fe_of(v: ark_ed_on_bn254::Fq) -> Fe {
    Fe { bytes: v.into_bigint().to_bytes_le() }
}

/// The point k·G of Baby Jubjub, moved from the a = 1 form to the
/// a = 168700, d = 168696 form by x ↦ x / √168700.
fn point(k: u64) -> Point {
    let g = ark_ed_on_bn254::EdwardsAffine::generator();
    let p = (g * ark_ed_on_bn254::Fr::from(k)).into_affine();
    let root = ark_ed_on_bn254::Fq::from(168700u64).sqrt().unwrap();
    Point { x: fe_of(p.x / root), y: fe_of(p.y) }
}

fn sig(k: u64) -> Signature {
    let s = ark_ed_on_bn254::Fr::from(k * 7 + 3);
    Signature { r: point(k + 100), s: Scalar { bytes: s.into_bigint().to_bytes_le() } }
}

fn build_chain(n: u64) -> (Vec<Point>, Vec<SigPk>) {
    let pks: Vec<Point> = (1..=n).map(point).collect();
    let sigs: Vec<Signature> = (1..=n).map(sig).collect();
    let accepted = vec![true; n as usize];
    let chain = gen_signatures(&pks, &sigs, &accepted).unwrap();
    (pks, chain)
}

fn circuit() -> EthDosCircuit {
    EthDosCircuit::new(HashConfig::canonical())
}

#[test]
fn test_sig() {
    let cfg = HashConfig::canonical();
    let (pks, chain) = build_chain(1);
    let msgs = chain_messages(&cfg, &pks);
    let e = chain[0].clone();
    let msg = hash_pk(&cfg, &e.pk);
    assert_eq!(msgs.len(), 1);
    assert_eq!(msgs[0], msg);
    assert_eq!(e.pk, pks[0]);
}

#[test]
fn test_fcircuit() {
    let circuit = circuit();
    let (_, chain) = build_chain(1);
    let z_0 = ChainState::genesis(&chain[0].pk);
    assert_eq!(z_0.degree, 0);
    let z_1 = circuit.generate_step_constraints(0, &z_0, &chain[0], true).unwrap();
    assert_eq!(z_1.degree, 1);
    assert_eq!(z_1.origin, chain[0].pk);
    assert_eq!(z_1.current, chain[0].pk);
}

#[test]
fn full_flow() {
    const N_STEPS: usize = 10;
    let circuit = circuit();
    let (pks, chain) = build_chain(N_STEPS as u64);
    let z = circuit.replay_chain(&chain, &vec![true; N_STEPS]).unwrap();
    assert_eq!(z.degree, N_STEPS as u64);
    assert_eq!(z.origin, pks[0]);
    assert_eq!(z.current, pks[N_STEPS - 1]);
}

#[test]
fn test_full_flow() {
    const N_STEPS: usize = 10;
    let circuit = circuit();
    let (_, chain) = build_chain(N_STEPS as u64);
    let mut z = ChainState::genesis(&chain[0].pk);
    for i in 0..N_STEPS {
        z = circuit.generate_step_constraints(i, &z, &chain[i], true).unwrap();
        assert_eq!(z.degree, (i + 1) as u64);
        assert_eq!(z.origin, chain[0].pk);
    }
    assert_eq!(z.current, chain[N_STEPS - 1].pk);
}

#[test]
fn one_link_chain_replays() {
    let cfg = HashConfig::canonical();
    let circuit = circuit();
    let (pks, chain) = build_chain(1);
    let msgs = chain_messages(&cfg, &pks);
    let z_0 = ChainState::genesis(&chain[0].pk);
    assert_eq!(circuit.step_message(&z_0), msgs[0]);
    let z = circuit.generate_step_constraints(0, &z_0, &chain[0], true).unwrap();
    assert_eq!(z, ChainState { origin: pks[0].clone(), current: pks[0].clone(), degree: 1 });
}

#[test]
fn three_link_chain_replays() {
    let cfg = HashConfig::canonical();
    let circuit = circuit();
    let (pks, chain) = build_chain(3);
    let msgs = chain_messages(&cfg, &pks);
    let mut z = ChainState::genesis(&chain[0].pk);
    for i in 0..3 {
        assert_eq!(circuit.step_message(&z), msgs[i]);
        z = circuit.generate_step_constraints(i, &z, &chain[i], true).unwrap();
    }
    assert_eq!(z, ChainState { origin: pks[0].clone(), current: pks[2].clone(), degree: 3 });
}

#[test]
fn corrupted_second_signature_fails_second_step_only() {
    let circuit = circuit();
    let (_, chain) = build_chain(3);
    let z_0 = ChainState::genesis(&chain[0].pk);
    let z_1 = circuit.generate_step_constraints(0, &z_0, &chain[0], true).unwrap();
    let mut bad = chain[1].clone();
    bad.sig.s.bytes[0] ^= 1;
    assert_eq!(
        circuit.generate_step_constraints(1, &z_1, &bad, false),
        Err(TransitionError::Unsatisfiable)
    );
    let again = circuit.generate_step_constraints(0, &z_0, &chain[0], true).unwrap();
    assert_eq!(again, z_1);
    assert_eq!(
        circuit.replay_chain(&chain, &vec![true, false, true]),
        Err(StepFailure { step: 1, error: TransitionError::Unsatisfiable })
    );
}

#[test]
fn genesis_signs_hash_of_own_key() {
    let cfg = HashConfig::canonical();
    let pk0 = point(5);
    let pk1 = point(6);
    assert_eq!(link_message(&cfg, None, &pk0), hash_pk(&cfg, &pk0));
    assert_eq!(link_message(&cfg, Some(&pk0), &pk1), hash_pk(&cfg, &pk0));
    let msgs = chain_messages(&cfg, &vec![pk0.clone(), pk1.clone()]);
    assert_eq!(msgs[0], hash_pk(&cfg, &pk0));
    assert_eq!(msgs[1], hash_pk(&cfg, &pk0));
}

#[test]
fn hash_depends_on_the_key() {
    let cfg = HashConfig::canonical();
    let a = hash_pk(&cfg, &point(1));
    let b = hash_pk(&cfg, &point(2));
    assert_eq!(a.bytes.len(), 32);
    assert_ne!(a, b);
    assert_ne!(a, point(1).x);
    assert_ne!(a, point(1).y);
    assert_eq!(a, hash_pk(&cfg, &point(1)));
}

#[test]
fn hash_matches_poseidon_sponge() {
    let (ark, mds) = find_poseidon_ark_and_mds::<ark_bn254::Fr>(254, 4, 8, 60, 0);
    let params = PoseidonConfig::new(8, 60, 5, mds, ark, 4, 1);
    let p = point(1);
    let x = ark_bn254::Fr::from_le_bytes_mod_order(&p.x.bytes);
    let y = ark_bn254::Fr::from_le_bytes_mod_order(&p.y.bytes);
    let mut sponge = PoseidonSponge::new(&params);
    sponge.absorb(&vec![x, y]);
    let out: Vec<ark_bn254::Fr> = sponge.squeeze_field_elements(1);
    let cfg = HashConfig::canonical();
    let h = hash_pk(&cfg, &point(1));
    assert_eq!(h.bytes, out[0].into_bigint().to_bytes_le());
}

#[test]
fn failed_self_check_aborts_construction() {
    let pks = vec![point(1), point(2), point(3)];
    let sigs = vec![sig(1), sig(2), sig(3)];
    assert_eq!(
        gen_signatures(&pks, &sigs, &vec![true, false, true]),
        Err(ChainError::ConstructionInvariantViolation { step: 1 })
    );
    assert_eq!(
        gen_signatures(&pks, &sigs, &vec![false, false, false]),
        Err(ChainError::ConstructionInvariantViolation { step: 0 })
    );
    let chain = gen_signatures(&pks, &sigs, &vec![true, true, true]).unwrap();
    assert_eq!(chain.len(), 3);
    assert_eq!(chain[2].pk, pks[2]);
    assert_eq!(chain[2].sig, sigs[2]);
}

#[test]
fn empty_chain_has_no_messages() {
    let cfg = HashConfig::canonical();
    assert!(chain_messages(&cfg, &vec![]).is_empty());
    assert_eq!(gen_signatures(&vec![], &vec![], &vec![]), Ok(vec![]));
}

#[test]
fn state_has_five_elements() {
    assert_eq!(circuit().state_len(), 5);
}

#[test]
fn canonical_hash_parameters() {
    let cfg = HashConfig::canonical();
    assert_eq!(cfg.full_rounds(), 8);
    assert_eq!(cfg.partial_rounds(), 60);
    assert_eq!(cfg.alpha(), 5);
    assert_eq!(cfg.rate(), 4);
    assert_eq!(cfg.prime_bits(), 254);
    assert_eq!(cfg.capacity(), 1);
    assert_eq!(cfg.skip_matrices(), 0);
}

#[test]
fn placeholder_attestation_is_never_accepted() {
    let circuit = circuit();
    let (_, chain) = build_chain(1);
    let z_0 = ChainState::genesis(&chain[0].pk);
    assert_eq!(
        circuit.generate_step_constraints(0, &z_0, &SigPk::default(), true),
        Err(TransitionError::Unsatisfiable)
    );
    let (_, mut chain) = build_chain(3);
    chain[1].pk = SigPk::default().pk;
    assert_eq!(
        circuit.replay_chain(&chain, &vec![true, true, true]),
        Err(StepFailure { step: 1, error: TransitionError::Unsatisfiable })
    );
}

#[test]
fn state_elements_round_trip() {
    let (_, chain) = build_chain(2);
    let mut z = ChainState::genesis(&chain[0].pk);
    z = circuit().generate_step_constraints(0, &z, &chain[0], true).unwrap();
    z = circuit().generate_step_constraints(1, &z, &chain[1], true).unwrap();
    let e = z.to_elements();
    assert_eq!(e.len(), 5);
    assert_eq!(e[0], chain[0].pk.x);
    assert_eq!(e[1], chain[0].pk.y);
    assert_eq!(e[2], chain[1].pk.x);
    assert_eq!(e[3], chain[1].pk.y);
    let mut two = vec![0u8; 32];
    two[0] = 2;
    assert_eq!(e[4].bytes, two);
    assert_eq!(ChainState::from_elements(&e), Some(z));
}

#[test]
fn state_elements_rejected() {
    let (_, chain) = build_chain(1);
    let mut e = ChainState::genesis(&chain[0].pk).to_elements();
    e[4].bytes[8] = 1;
    assert_eq!(ChainState::from_elements(&e), None);
    e.pop();
    assert_eq!(ChainState::from_elements(&e), None);
}

#[test]
fn u64_elements() {
    let f = Fe::from_u64(0x0102030405060708);
    assert_eq!(f.bytes[..8], [8, 7, 6, 5, 4, 3, 2, 1]);
    assert!(f.bytes[8..].iter().all(|b| *b == 0));
    assert_eq!(f.to_u64(), Some(0x0102030405060708));
    assert_eq!(Fe::from_u64(u64::MAX).to_u64(), Some(u64::MAX));
    assert_eq!(Fe::from_u64(0), Fe::zero());
    assert_eq!(Fe::from_u64(1), Fe::one());
    let mut big = Fe::from_u64(u64::MAX);
    big.bytes[8] = 1;
    assert_eq!(big.to_u64(), None);
}
