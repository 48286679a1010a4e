use vstd::prelude::*;
use std::marker::PhantomData;
use crate::curve::{g1_add, g1_add_of, g1_check, g1_mul, g1_mul_of, is_g1_point_of, is_scalar};
use crate::error::Error;
use crate::hashing::slice_bytes;
use crate::generators::{create_generators, generator_point, Generators};
use crate::suite::Ciphersuite;

verus! {

/// Marker of the BBS+ scheme.
#[derive(Clone, Copy, Debug, PartialEq, Eq)]
pub struct BBSplus;

/// Marker of the CL03 scheme.
#[derive(Clone, Copy, Debug, PartialEq, Eq)]
pub struct CL03;

/// A CL03 commitment `C = b^r · Π a_i^(m_i) mod N` and its randomness `r`, both
/// as big-endian integers.
#[derive(Clone, Debug, PartialEq, Eq)]
pub struct CL03Commitment {
    pub value: Vec<u8>,
    pub randomness: Vec<u8>,
}

/// A BBS+ commitment `C = r·Q1 + Σ m_j·H_(i_j)` (a compressed G1 point) and its
/// randomness `r` (a scalar).
#[derive(Clone, Debug, PartialEq, Eq)]
pub struct BBSplusCommitment {
    pub value: Vec<u8>,
    pub randomness: Vec<u8>,
}

/// A commitment to hidden messages under scheme `S`.
#[derive(Debug)]
pub enum Commitment<S> {
    BBSplus(BBSplusCommitment),
    CL03(CL03Commitment),
    _Unreachable(PhantomData<S>),
}

/// `Q1`: from the given generators, or the ciphersuite's own.
pub open spec fn commit_q1(cs: Ciphersuite, g: Option<&Generators>) -> Seq<u8> {
    match g {
        Some(g) => g.q1@,
        None => generator_point(cs, 0),
    }
}

/// `H_i`: from the given generators, or the ciphersuite's own.
pub open spec fn commit_h(cs: Ciphersuite, g: Option<&Generators>, i: int) -> Seq<u8> {
    match g {
        Some(g) => g.message_generators@[i]@,
        None => generator_point(cs, (i + 2) as nat),
    }
}

/// `r·Q1 + Σ_(j<k) m_j·H_(idx_j)`, added up in the order of `idx`.
pub open spec fn commit_acc(
    cs: Ciphersuite,
    g: Option<&Generators>,
    msgs: Seq<Vec<u8>>,
    idx: Seq<usize>,
    r: Seq<u8>,
    k: nat,
) -> Seq<u8>
    decreases k,
{
    if k == 0 {
        g1_mul_of(commit_q1(cs, g), r)
    } else {
        g1_add_of(
            commit_acc(cs, g, msgs, idx, r, (k - 1) as nat),
            g1_mul_of(commit_h(cs, g, idx[k - 1] as int), msgs[k - 1]@),
        )
    }
}

/// The largest index that the ciphersuite's own generators are derived for.
pub const MAX_DERIVED_INDEX: usize = 0xffff_0000;

/// Whether the index list asks for no generator that is not there.
pub open spec fn indexes_in_range(g: Option<&Generators>, idx: Seq<usize>) -> bool {
    forall|j: int|
        0 <= j < idx.len() ==> match g {
            Some(g) => #[trigger] idx[j] < g.message_generators@.len(),
            None => idx[j] < MAX_DERIVED_INDEX,
        }
}

/// Whether `Q1` and every generator that the index list refers to pass the
/// subgroup check.
pub open spec fn referenced_points_valid(
    cs: Ciphersuite,
    g: Option<&Generators>,
    idx: Seq<usize>,
) -> bool {
    &&& commit_q1(cs, g).len() == 48 && is_g1_point_of(commit_q1(cs, g))
    &&& forall|j: int|
        0 <= j < idx.len() ==> #[trigger] commit_h(cs, g, idx[j] as int).len() == 48
            && is_g1_point_of(commit_h(cs, g, idx[j] as int))
}

impl Commitment<BBSplus> {
    /// Whether this is the BBS+ variant.
    pub open spec fn is_bbsplus(&self) -> bool {
        self is BBSplus
    }

    /// Commits to hidden messages: `C = r·Q1 + Σ_j messages[j]·H_(unrevealed[j])`,
    /// with `r` the caller's fresh random scalar. Without generators, those of
    /// the ciphersuite are derived, and then the commitment always succeeds
    /// for indexes in range. An empty index list, a message count other than
    /// the index count, or an index past the given generators is an invalid
    /// argument;
    /// an index past the derivable range lacks generators; `Q1` or a
    /// referenced generator outside the subgroup is an invalid point.
    pub fn commit(
        cs: Ciphersuite,
        messages: &[Vec<u8>],
        generators: Option<&Generators>,
        unrevealed_message_indexes: &[usize],
        randomness: &[u8],
    ) -> (r: Result<Self, Error>)
        requires
            forall|j: int| 0 <= j < messages@.len() ==> is_scalar(#[trigger] messages@[j]@),
            is_scalar(randomness@),
        ensures
            (unrevealed_message_indexes@.len() == 0 || messages@.len()
                != unrevealed_message_indexes@.len() || (generators is Some && !indexes_in_range(
                generators,
                unrevealed_message_indexes@,
            ))) ==> r == Err::<Self, Error>(Error::InvalidArgument),
            (unrevealed_message_indexes@.len() > 0 && messages@.len()
                == unrevealed_message_indexes@.len() && generators is None && !indexes_in_range(
                generators,
                unrevealed_message_indexes@,
            )) ==> r == Err::<Self, Error>(Error::InsufficientGenerators),
            (unrevealed_message_indexes@.len() > 0 && messages@.len()
                == unrevealed_message_indexes@.len() && indexes_in_range(
                generators,
                unrevealed_message_indexes@,
            )) ==> if referenced_points_valid(cs, generators, unrevealed_message_indexes@) {
                r matches Ok(Commitment::BBSplus(c)) && c.value@ == commit_acc(
                    cs,
                    generators,
                    messages@,
                    unrevealed_message_indexes@,
                    randomness@,
                    unrevealed_message_indexes@.len() as nat,
                ) && c.randomness@ == randomness@
            } else {
                r == Err::<Self, Error>(Error::InvalidPoint)
            },
            (unrevealed_message_indexes@.len() > 0 && messages@.len()
                == unrevealed_message_indexes@.len() && generators is None && indexes_in_range(
                generators,
                unrevealed_message_indexes@,
            )) ==> r is Ok,
    {
        let idx = unrevealed_message_indexes;
        if idx.len() == 0 || messages.len() != idx.len() {
            return Err(Error::InvalidArgument);
        }
        let mut max: usize = 0;
        let mut k: usize = 0;
        while k < idx.len()
            invariant
                idx@ == unrevealed_message_indexes@,
                k <= idx@.len(),
                forall|j: int| 0 <= j < k ==> #[trigger] idx@[j] <= max,
                k > 0 ==> exists|j: int| 0 <= j < k && idx@[j] == max,
                k == 0 ==> max == 0,
            decreases idx@.len() - k,
        {
            if idx[k] > max || k == 0 {
                max = idx[k];
            }
            k = k + 1;
        }
        let derived: Generators;
        let gens: &Generators = match generators {
            Some(g) => {
                if max >= g.message_generators.len() {
                    return Err(Error::InvalidArgument);
                }
                g
            },
            None => {
                if max >= MAX_DERIVED_INDEX {
                    return Err(Error::InsufficientGenerators);
                }
                derived = create_generators(cs, max + 1);
                assert(derived.all_valid());
                &derived
            },
        };
        assert(indexes_in_range(generators, idx@));
        assert forall|j: int| 0 <= j < idx@.len() implies #[trigger] idx@[j]
            < gens.message_generators@.len() && gens.message_generators@[idx@[j] as int]@
            == commit_h(cs, generators, idx@[j] as int) by {
            assert(idx@[j] <= max);
        }
        assert(generators is None ==> gens.all_valid());
        assert(generators is None ==> referenced_points_valid(cs, generators, idx@)) by {
            if generators is None {
                assert forall|j: int| 0 <= j < idx@.len() implies #[trigger] commit_h(
                    cs,
                    generators,
                    idx@[j] as int,
                ).len() == 48 && is_g1_point_of(commit_h(cs, generators, idx@[j] as int)) by {
                    assert(idx@[j] < gens.message_generators@.len());
                    assert(gens.message_generators@[idx@[j] as int]@.len() == 48);
                }
            }
        }
        if !g1_check(gens.q1.as_slice()) {
            return Err(Error::InvalidPoint);
        }
        let mut k: usize = 0;
        while k < idx.len()
            invariant
                idx@ == unrevealed_message_indexes@,
                k <= idx@.len(),
                0 < idx@.len() <= messages@.len(),
                idx@.len() == messages@.len(),
                generators is None ==> referenced_points_valid(cs, generators, idx@),
                indexes_in_range(generators, idx@),
                gens.q1@ == commit_q1(cs, generators),
                gens.q1@.len() == 48 && is_g1_point_of(gens.q1@),
                forall|j: int|
                    #![trigger idx@[j]]
                    0 <= j < idx@.len() ==> idx@[j] < gens.message_generators@.len()
                        && gens.message_generators@[idx@[j] as int]@ == commit_h(
                        cs,
                        generators,
                        idx@[j] as int,
                    ),
                forall|j: int|
                    0 <= j < k ==> #[trigger] commit_h(cs, generators, idx@[j] as int).len() == 48
                        && is_g1_point_of(commit_h(cs, generators, idx@[j] as int)),
            decreases idx@.len() - k,
        {
            if !g1_check(gens.message_generators[idx[k]].as_slice()) {
                return Err(Error::InvalidPoint);
            }
            k = k + 1;
        }
        let mut acc = g1_mul(gens.q1.as_slice(), randomness);
        let mut k: usize = 0;
        while k < idx.len()
            invariant
                idx@ == unrevealed_message_indexes@,
                k <= idx@.len(),
                idx@.len() <= messages@.len(),
                forall|j: int| 0 <= j < messages@.len() ==> is_scalar(#[trigger] messages@[j]@),
                forall|j: int|
                    #![trigger idx@[j]]
                    0 <= j < idx@.len() ==> idx@[j] < gens.message_generators@.len()
                        && gens.message_generators@[idx@[j] as int]@ == commit_h(
                        cs,
                        generators,
                        idx@[j] as int,
                    ),
                referenced_points_valid(cs, generators, idx@),
                acc@ == commit_acc(cs, generators, messages@, idx@, randomness@, k as nat),
                acc@.len() == 48,
                is_g1_point_of(acc@),
            decreases idx@.len() - k,
        {
            let h = &gens.message_generators[idx[k]];
            assert(h@ == commit_h(cs, generators, idx@[k as int] as int));
            let term = g1_mul(h.as_slice(), messages[k].as_slice());
            acc = g1_add(acc.as_slice(), term.as_slice());
            k = k + 1;
        }
        let copy = slice_bytes(randomness, 0, randomness.len());
        assert(copy@ =~= randomness@);
        Ok(Commitment::BBSplus(BBSplusCommitment { value: acc, randomness: copy }))
    }

    /// The BBS+ commitment held.
    pub fn bbsplus_commitment(&self) -> (r: &BBSplusCommitment)
        requires
            self.is_bbsplus(),
        ensures
            r == self->BBSplus_0,
    {
        match self {
            Commitment::BBSplus(inner) => inner,
            _ => vstd::pervasive::unreached(),
        }
    }

    /// The committed point `C`.
    pub fn value(&self) -> (r: &Vec<u8>)
        requires
            self.is_bbsplus(),
        ensures
            r == self->BBSplus_0.value,
    {
        match self {
            Commitment::BBSplus(inner) => &inner.value,
            _ => vstd::pervasive::unreached(),
        }
    }

    /// The randomness `r` of the commitment.
    pub fn randomness(&self) -> (r: &Vec<u8>)
        requires
            self.is_bbsplus(),
        ensures
            r == self->BBSplus_0.randomness,
    {
        match self {
            Commitment::BBSplus(inner) => &inner.randomness,
            _ => vstd::pervasive::unreached(),
        }
    }
}

impl Commitment<CL03> {
    /// Whether this is the CL03 variant.
    pub open spec fn is_cl03(&self) -> bool {
        self is CL03
    }

    /// The committed integer `C`.
    pub fn value(&self) -> (r: &Vec<u8>)
        requires
            self.is_cl03(),
        ensures
            r == self->CL03_0.value,
    {
        match self {
            Commitment::CL03(inner) => &inner.value,
            _ => vstd::pervasive::unreached(),
        }
    }

    /// The randomness `r` of the commitment.
    pub fn randomness(&self) -> (r: &Vec<u8>)
        requires
            self.is_cl03(),
        ensures
            r == self->CL03_0.randomness,
    {
        match self {
            Commitment::CL03(inner) => &inner.randomness,
            _ => vstd::pervasive::unreached(),
        }
    }
}

/// A CL03 public key: the modulus `N`, the bases `a_1..a_L`, `b` and `c`, as
/// big-endian integers.
#[derive(Clone, Debug)]
pub struct CL03PublicKey {
    pub n: Vec<u8>,
    pub a_bases: Vec<Vec<u8>>,
    pub b: Vec<u8>,
    pub c: Vec<u8>,
}

/// Whether every index names both a base of the key and one of `n_messages`
/// messages, as a CL03 commitment or its extension needs.
pub fn cl03_indexes_valid(pk: &CL03PublicKey, n_messages: usize, indexes: &[usize]) -> (r: bool)
    ensures
        r == forall|j: int|
            0 <= j < indexes@.len() ==> #[trigger] indexes@[j] < pk.a_bases@.len() && indexes@[j]
                < n_messages,
{
    let mut k: usize = 0;
    while k < indexes.len()
        invariant
            k <= indexes@.len(),
            forall|j: int|
                0 <= j < k ==> #[trigger] indexes@[j] < pk.a_bases@.len() && indexes@[j] < n_messages,
        decreases indexes@.len() - k,
    {
        if indexes[k] >= pk.a_bases.len() || indexes[k] >= n_messages {
            return false;
        }
        k = k + 1;
    }
    true
}

} // verus!
