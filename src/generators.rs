use vstd::prelude::*;
use crate::bytes::{be8, extend_bytes, u64_be_bytes};
use crate::curve::{hash_g1_xmd, hash_g1_xmd_of, hash_g1_xof, hash_g1_xof_of, is_g1_point_of};
use crate::hashing::{expand_message, expand_spec, EXPAND_LEN};
use crate::suite::{dst_spec, Ciphersuite, Purpose};

verus! {

/// Hash-to-curve in G1 under the ciphersuite's expander.
pub open spec fn hash_g1_spec(cs: Ciphersuite, msg: Seq<u8>, dst: Seq<u8>) -> Seq<u8> {
    match cs {
        Ciphersuite::Sha256 => hash_g1_xmd_of(msg, dst),
        Ciphersuite::Shake256 => hash_g1_xof_of(msg, dst),
    }
}

/// The chained seed state: `v_0 = expand(seed)`, `v_i = expand(v_(i-1) || I2OSP(i, 8))`.
pub open spec fn seed_state(cs: Ciphersuite, seed: Seq<u8>, i: nat) -> Seq<u8>
    decreases i,
{
    let sdst = dst_spec(cs, Purpose::GeneratorSeedDst);
    if i == 0 {
        expand_spec(cs, seed, sdst, 48)
    } else {
        expand_spec(cs, seed_state(cs, seed, (i - 1) as nat) + be8(i), sdst, 48)
    }
}

/// The `i`-th point (from 0) of the sequence that `seed` determines.
pub open spec fn seeded_point(cs: Ciphersuite, seed: Seq<u8>, i: nat) -> Seq<u8> {
    hash_g1_spec(cs, seed_state(cs, seed, i + 1), dst_spec(cs, Purpose::GeneratorDst))
}

/// The `i`-th point (from 0) of the generator sequence `Q1, Q2, H1, H2, ...`.
pub open spec fn generator_point(cs: Ciphersuite, i: nat) -> Seq<u8> {
    seeded_point(cs, dst_spec(cs, Purpose::GeneratorSeed), i)
}

/// The base point `P1`.
pub open spec fn base_point_spec(cs: Ciphersuite) -> Seq<u8> {
    seeded_point(cs, dst_spec(cs, Purpose::BasePointSeed), 0)
}

/// Hash-to-curve in G1 under the ciphersuite's expander.
pub fn hash_to_g1(cs: Ciphersuite, msg: &[u8], dst: &[u8]) -> (r: Vec<u8>)
    ensures
        r@ == hash_g1_spec(cs, msg@, dst@),
        r@.len() == 48,
        is_g1_point_of(r@),
{
    match cs {
        Ciphersuite::Sha256 => hash_g1_xmd(msg, dst),
        Ciphersuite::Shake256 => hash_g1_xof(msg, dst),
    }
}

/// The first `n` points of the sequence that `seed` determines.
pub fn seeded_points(cs: Ciphersuite, seed: &[u8], n: usize) -> (r: Vec<Vec<u8>>)
    requires
        n < 0xffff_ffff,
    ensures
        r@.len() == n,
        forall|i: int|
            0 <= i < n ==> #[trigger] r@[i]@ == seeded_point(cs, seed@, i as nat) && r@[i]@.len()
                == 48 && is_g1_point_of(r@[i]@),
{
    let sdst = cs.dst(Purpose::GeneratorSeedDst);
    let gdst = cs.dst(Purpose::GeneratorDst);
    let mut v = expand_message(cs, seed, sdst.as_slice(), EXPAND_LEN);
    let mut out: Vec<Vec<u8>> = Vec::new();
    let mut i: usize = 0;
    while i < n
        invariant
            i <= n,
            n < 0xffff_ffff,
            sdst@ == dst_spec(cs, Purpose::GeneratorSeedDst),
            gdst@ == dst_spec(cs, Purpose::GeneratorDst),
            v@ == seed_state(cs, seed@, i as nat),
            out@.len() == i,
            forall|j: int|
                0 <= j < i ==> #[trigger] out@[j]@ == seeded_point(cs, seed@, j as nat)
                    && out@[j]@.len() == 48 && is_g1_point_of(out@[j]@),
        decreases n - i,
    {
        let mut input = v.clone();
        let ctr = u64_be_bytes((i + 1) as u64);
        extend_bytes(&mut input, ctr.as_slice());
        v = expand_message(cs, input.as_slice(), sdst.as_slice(), EXPAND_LEN);
        let p = hash_to_g1(cs, v.as_slice(), gdst.as_slice());
        out.push(p);
        i = i + 1;
    }
    out
}

/// The generators of a ciphersuite: the base point `P1`, then `Q1`, `Q2` and
/// the message generators `H1, ..., HL`.
#[derive(Clone, Debug)]
pub struct Generators {
    pub base_point: Vec<u8>,
    pub q1: Vec<u8>,
    pub q2: Vec<u8>,
    pub message_generators: Vec<Vec<u8>>,
}

impl Generators {
    /// Whether these are the ciphersuite's generators, with `count` message
    /// generators.
    pub open spec fn is_derived(&self, cs: Ciphersuite, count: nat) -> bool {
        &&& self.base_point@ == base_point_spec(cs)
        &&& self.q1@ == generator_point(cs, 0)
        &&& self.q2@ == generator_point(cs, 1)
        &&& self.message_generators@.len() == count
        &&& forall|i: int|
            0 <= i < count ==> #[trigger] self.message_generators@[i]@ == generator_point(
                cs,
                (i + 2) as nat,
            )
    }

    /// Whether every point is a valid point of the G1 subgroup.
    pub open spec fn all_valid(&self) -> bool {
        &&& self.base_point@.len() == 48 && is_g1_point_of(self.base_point@)
        &&& self.q1@.len() == 48 && is_g1_point_of(self.q1@)
        &&& self.q2@.len() == 48 && is_g1_point_of(self.q2@)
        &&& forall|i: int|
            0 <= i < self.message_generators@.len() ==> #[trigger] self.message_generators@[i]@.len()
                == 48 && is_g1_point_of(self.message_generators@[i]@)
    }
}

/// Derives the generators for `count` messages. The result depends on the
/// ciphersuite and `count` alone.
pub fn create_generators(cs: Ciphersuite, count: usize) -> (r: Generators)
    requires
        count < 0xffff_fff0,
    ensures
        r.is_derived(cs, count as nat),
        r.all_valid(),
{
    let seed = cs.dst(Purpose::GeneratorSeed);
    let pts = seeded_points(cs, seed.as_slice(), count + 2);
    let bseed = cs.dst(Purpose::BasePointSeed);
    let bp = seeded_points(cs, bseed.as_slice(), 1);
    let mut hs: Vec<Vec<u8>> = Vec::new();
    let mut i: usize = 0;
    while i < count
        invariant
            i <= count,
            count < 0xffff_fff0,
            pts@.len() == count + 2,
            forall|j: int|
                0 <= j < count + 2 ==> #[trigger] pts@[j]@ == seeded_point(cs, seed@, j as nat)
                    && pts@[j]@.len() == 48 && is_g1_point_of(pts@[j]@),
            hs@.len() == i,
            forall|j: int|
                0 <= j < i ==> #[trigger] hs@[j]@ == pts@[j + 2]@,
        decreases count - i,
    {
        hs.push(pts[i + 2].clone());
        i = i + 1;
    }
    let r = Generators {
        base_point: bp[0].clone(),
        q1: pts[0].clone(),
        q2: pts[1].clone(),
        message_generators: hs,
    };
    assert forall|j: int| 0 <= j < count implies #[trigger] r.message_generators@[j]@
        == generator_point(cs, (j + 2) as nat) && r.message_generators@[j]@.len() == 48
        && is_g1_point_of(r.message_generators@[j]@) by {
        assert(pts@[j + 2]@ == seeded_point(cs, seed@, (j + 2) as nat));
    }
    r
}

impl Generators {
    /// Grows the generators to at least `count` message generators. Those
    /// already held keep their place and value.
    pub fn extend(&mut self, cs: Ciphersuite, count: usize)
        requires
            old(self).is_derived(cs, old(self).message_generators@.len()),
            old(self).all_valid(),
            count < 0xffff_fff0,
        ensures
            final(self).is_derived(cs, final(self).message_generators@.len()),
            final(self).all_valid(),
            final(self).message_generators@.len() == if count > old(self).message_generators@.len() {
                count as nat
            } else {
                old(self).message_generators@.len()
            },
            final(self).base_point@ == old(self).base_point@,
            final(self).q1@ == old(self).q1@,
            final(self).q2@ == old(self).q2@,
            forall|i: int|
                0 <= i < old(self).message_generators@.len() ==> #[trigger] final(self).message_generators@[i]@
                    == old(self).message_generators@[i]@,
    {
        if count > self.message_generators.len() {
            *self = create_generators(cs, count);
        }
    }
}

} // verus!
