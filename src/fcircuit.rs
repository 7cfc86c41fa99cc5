//! The state that the folding prover threads through a chain, and the step
//! transition that advances it by one attestation.
use vstd::prelude::*;

use crate::field::{le_value, Fe, ELEMENT_BYTES};
use crate::hash::HashConfig;
use crate::signature::{hash_pk, hash_spec, identity_point, keys_of, link_message_spec, Point, PointView, SigPk};

verus! {

/// What a chain state holds: the origin key, the latest key, and the number of
/// links verified so far.
pub struct ChainStateView {
    pub origin: PointView,
    pub current: PointView,
    pub degree: nat,
}

/// The running state: five field elements to the prover (two coordinates of
/// each key and the degree).
#[derive(Clone, Debug, PartialEq, Eq)]
pub struct ChainState {
    pub origin: Point,
    pub current: Point,
    pub degree: u64,
}

/// The attestation handed to a step does not carry a valid signature over the
/// step's message, or its key is the neutral point of the placeholder
/// attestation: the chain is broken at this link.
#[derive(Clone, Copy, Debug, PartialEq, Eq)]
pub enum TransitionError {
    Unsatisfiable,
}

/// A replay stopped at the link `step`.
#[derive(Clone, Copy, Debug, PartialEq, Eq)]
pub struct StepFailure {
    pub step: usize,
    pub error: TransitionError,
}

impl View for ChainState {
    type V = ChainStateView;

    open spec fn view(&self) -> ChainStateView {
        ChainStateView { origin: self.origin@, current: self.current@, degree: self.degree as nat }
    }
}

/// The state that a chain opened by the key `pk` starts from.
pub open spec fn genesis_spec(pk: PointView) -> ChainStateView {
    ChainStateView { origin: pk, current: pk, degree: 0 }
}

/// The message whose signature a step checks: the hash of the latest key.
pub open spec fn step_message_spec(s: ChainStateView) -> Seq<u8> {
    hash_spec(s.current)
}

/// The state after a link signed by `pk` is accepted.
pub open spec fn next_state_spec(s: ChainStateView, pk: PointView) -> ChainStateView {
    ChainStateView { origin: s.origin, current: pk, degree: s.degree + 1 }
}

/// Whether a step accepts a link, given the verdict on its signature: the
/// verdict must be positive and the key must not be the neutral point.
pub open spec fn link_accepted(a: SigPk, signature_accepted: bool) -> bool {
    signature_accepted && a.pk@ != identity_point()
}

/// The state after accepting the links signed by `pks`, in order.
pub open spec fn replay_spec(s: ChainStateView, pks: Seq<PointView>) -> ChainStateView
    decreases pks.len(),
{
    if pks.len() == 0 {
        s
    } else {
        next_state_spec(replay_spec(s, pks.drop_last()), pks.last())
    }
}

impl ChainState {
    pub open spec fn wf(&self) -> bool {
        self.origin.wf() && self.current.wf()
    }

    /// The state a chain starts from: origin and latest key are both the
    /// genesis key, and no link is counted yet.
    pub fn genesis(pk: &Point) -> (r: ChainState)
        ensures
            r@ == genesis_spec(pk@),
            pk.wf() ==> r.wf(),
    {
        ChainState { origin: pk.duplicate(), current: pk.duplicate(), degree: 0 }
    }

    /// The state as the prover holds it: origin x and y, latest key x and y,
    /// then the degree.
    pub fn to_elements(&self) -> (r: Vec<Fe>)
        ensures
            r@.len() == 5,
            r@[0]@ == self.origin.x@,
            r@[1]@ == self.origin.y@,
            r@[2]@ == self.current.x@,
            r@[3]@ == self.current.y@,
            r@[4].wf(),
            le_value(r@[4]@) == self.degree,
    {
        let o = self.origin.duplicate();
        let c = self.current.duplicate();
        let mut r: Vec<Fe> = Vec::new();
        r.push(o.x);
        r.push(o.y);
        r.push(c.x);
        r.push(c.y);
        r.push(Fe::from_u64(self.degree));
        r
    }

    /// Reads a state back from its five elements. There is none when the
    /// count is not five or the degree element does not hold a `u64`.
    pub fn from_elements(z: &Vec<Fe>) -> (r: Option<ChainState>)
        ensures
            r is Some <==> (z@.len() == 5 && z@[4]@.len() == ELEMENT_BYTES && le_value(z@[4]@) <= u64::MAX),
            r matches Some(s) ==> s.origin@ == (z@[0]@, z@[1]@) && s.current@ == (z@[2]@, z@[3]@)
                && s.degree == le_value(z@[4]@),
    {
        if z.len() != 5 || z[4].bytes.len() != ELEMENT_BYTES {
            return None;
        }
        match z[4].to_u64() {
            None => None,
            Some(degree) => {
                let origin = Point { x: z[0].duplicate(), y: z[1].duplicate() };
                let current = Point { x: z[2].duplicate(), y: z[3].duplicate() };
                Some(ChainState { origin, current, degree })
            },
        }
    }
}

/// The per-fold step over a chain of attestations.
#[derive(Clone, Debug, PartialEq, Eq)]
pub struct EthDosCircuit {
    pub config: HashConfig,
}

impl EthDosCircuit {
    pub open spec fn wf(&self) -> bool {
        self.config.wf()
    }

    pub fn new(config: HashConfig) -> (r: EthDosCircuit)
        requires
            config.wf(),
        ensures
            r.wf(),
            r.config == config,
    {
        EthDosCircuit { config }
    }

    /// Number of field elements in the state.
    pub fn state_len(&self) -> (r: usize)
        ensures
            r == 5,
    {
        5
    }

    /// The message whose signature the next step checks: the hash of the
    /// state's latest key.
    pub fn step_message(&self, z_i: &ChainState) -> (r: Fe)
        requires
            self.wf(),
            z_i.wf(),
        ensures
            r.wf(),
            r@ == step_message_spec(z_i@),
    {
        hash_pk(&self.config, &z_i.current)
    }

    /// Advances the state by one link. `signature_accepted` is the verdict of
    /// verifying the attestation's signature over `self.step_message(z_i)`
    /// under the attestation's public key. A rejected signature fails the step,
    /// and so does a key that is the neutral point (as in the placeholder
    /// attestation), whatever the verdict. Otherwise the step keeps the origin,
    /// makes the attestation's key the latest one and counts one more link.
    pub fn generate_step_constraints(
        &self,
        i: usize,
        z_i: &ChainState,
        external_inputs: &SigPk,
        signature_accepted: bool,
    ) -> (r: Result<ChainState, TransitionError>)
        requires
            z_i.degree < u64::MAX,
        ensures
            !link_accepted(*external_inputs, signature_accepted) ==> r == Err::<ChainState, TransitionError>(
                TransitionError::Unsatisfiable,
            ),
            link_accepted(*external_inputs, signature_accepted) ==> (r matches Ok(s) && s@ == next_state_spec(
                z_i@,
                external_inputs.pk@,
            )),
            r matches Ok(s) ==> (z_i.wf() && external_inputs.pk.wf() ==> s.wf()),
    {
        if !signature_accepted || external_inputs.pk.is_identity() {
            return Err(TransitionError::Unsatisfiable);
        }
        Ok(ChainState { origin: z_i.origin.duplicate(), current: external_inputs.pk.duplicate(), degree: z_i.degree + 1 })
    }

    /// Replays a whole chain from the state its first key opens. `accepted[i]`
    /// is the verdict on the signature of link `i` over the message of the
    /// step that link `i` is handed to. The first link that the step rejects
    /// stops the replay.
    pub fn replay_chain(&self, chain: &Vec<SigPk>, accepted: &Vec<bool>) -> (r: Result<ChainState, StepFailure>)
        requires
            chain@.len() >= 1,
            accepted@.len() == chain@.len(),
        ensures
            r is Ok <==> forall|i: int| 0 <= i < accepted@.len() ==> link_accepted(chain@[i], accepted@[i]),
            r matches Ok(s) ==> s@ == replay_spec(genesis_spec(chain@[0].pk@), sig_pk_keys(chain@)),
            r matches Err(f) ==> f.step < accepted@.len() && !link_accepted(chain@[f.step as int], accepted@[f.step as int])
                && f.error == TransitionError::Unsatisfiable && forall|j: int|
                0 <= j < f.step ==> link_accepted(chain@[j], accepted@[j]),
    {
        let ghost keys = sig_pk_keys(chain@);
        let ghost start = genesis_spec(chain@[0].pk@);
        let mut s = ChainState::genesis(&chain[0].pk);
        let mut i: usize = 0;
        while i < chain.len()
            invariant
                accepted@.len() == chain@.len(),
                keys == sig_pk_keys(chain@),
                start == genesis_spec(chain@[0].pk@),
                i <= chain@.len(),
                s.degree == i,
                s@ == replay_spec(start, keys.take(i as int)),
                forall|j: int| 0 <= j < i ==> link_accepted(chain@[j], accepted@[j]),
            decreases chain@.len() - i,
        {
            let n = self.generate_step_constraints(i, &s, &chain[i], accepted[i]);
            match n {
                Ok(next) => {
                    proof {
                        let t = keys.take(i + 1);
                        assert(t.drop_last() =~= keys.take(i as int));
                        assert(t.last() == chain@[i as int].pk@);
                    }
                    s = next;
                },
                Err(e) => {
                    return Err(StepFailure { step: i, error: e });
                },
            }
            i = i + 1;
        }
        proof {
            assert(keys.take(chain@.len() as int) =~= keys);
        }
        Ok(s)
    }
}

/// The public keys of a sequence of attestations.
pub open spec fn sig_pk_keys(chain: Seq<SigPk>) -> Seq<PointView> {
    chain.map_values(|a: SigPk| a.pk@)
}

proof fn lemma_replay_prefix(pks: Seq<PointView>, k: int)
    requires
        pks.len() >= 1,
        0 <= k <= pks.len(),
    ensures
        replay_spec(genesis_spec(pks[0]), pks.take(k)) == (if k == 0 {
            genesis_spec(pks[0])
        } else {
            ChainStateView { origin: pks[0], current: pks[k - 1], degree: k as nat }
        }),
    decreases k,
{
    if k > 0 {
        lemma_replay_prefix(pks, k - 1);
        assert(pks.take(k).drop_last() =~= pks.take(k - 1));
    }
}

/// Replaying the links signed by the keys `pks` (at least one), from the state
/// that the first key opens, ends at degree `pks.len()` with the first key as
/// origin and the last key as the latest one. The origin is the first key
/// after every prefix of the replay, and the degree is the prefix's length.
/// Each step checks a signature over exactly the message that the identity
/// of that link signed when the chain was built; the first step checks the
/// hash of the genesis key itself.
pub proof fn lemma_chain_replays(pks: Seq<PointView>)
    requires
        pks.len() >= 1,
    ensures
        replay_spec(genesis_spec(pks[0]), pks) == (ChainStateView {
            origin: pks[0],
            current: pks.last(),
            degree: pks.len(),
        }),
        forall|i: int|
            0 <= i <= pks.len() ==> (#[trigger] replay_spec(genesis_spec(pks[0]), pks.take(i))).origin == pks[0]
                && replay_spec(genesis_spec(pks[0]), pks.take(i)).degree == i,
        forall|i: int|
            0 <= i < pks.len() ==> step_message_spec(#[trigger] replay_spec(genesis_spec(pks[0]), pks.take(i)))
                == link_message_spec(pks, i),
{
    lemma_replay_prefix(pks, pks.len() as int);
    assert(pks.take(pks.len() as int) =~= pks);
    assert forall|i: int| 0 <= i <= pks.len() implies (#[trigger] replay_spec(
        genesis_spec(pks[0]),
        pks.take(i),
    )).origin == pks[0] && replay_spec(genesis_spec(pks[0]), pks.take(i)).degree == i by {
        lemma_replay_prefix(pks, i);
    }
    assert forall|i: int| 0 <= i < pks.len() implies step_message_spec(
        #[trigger] replay_spec(genesis_spec(pks[0]), pks.take(i)),
    ) == link_message_spec(pks, i) by {
        lemma_replay_prefix(pks, i);
    }
}

/// A chain assembled from the keys `pks` (at least one), as chain
/// construction returns it, replays from the state its first attestation opens
/// to degree `pks.len()`, with the first key as origin and the last key as the
/// latest one; each step checks exactly the message that `chain_messages`
/// gave that link's identity to sign.
pub proof fn lemma_built_chain_replays(pks: Seq<Point>, chain: Seq<SigPk>)
    requires
        pks.len() >= 1,
        chain.len() == pks.len(),
        forall|i: int| 0 <= i < chain.len() ==> (#[trigger] chain[i]).pk@ == pks[i]@,
    ensures
        replay_spec(genesis_spec(chain[0].pk@), sig_pk_keys(chain)) == (ChainStateView {
            origin: pks[0]@,
            current: pks.last()@,
            degree: pks.len(),
        }),
        forall|i: int|
            0 <= i < chain.len() ==> step_message_spec(
                #[trigger] replay_spec(genesis_spec(chain[0].pk@), sig_pk_keys(chain).take(i)),
            ) == link_message_spec(keys_of(pks), i),
{
    assert(sig_pk_keys(chain) =~= keys_of(pks));
    lemma_chain_replays(keys_of(pks));
}

} // verus!
