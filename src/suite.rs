use vstd::prelude::*;
use crate::bytes::extend_bytes;

verus! {

/// The two BBS+ ciphersuites over BLS12-381: the expand-message variant and
/// the domain separation tags that every hash input is framed with.
#[derive(Clone, Copy, Debug, PartialEq, Eq)]
pub enum Ciphersuite {
    /// `expand_message_xmd` with SHA-256.
    Sha256,
    /// `expand_message_xof` with SHAKE-256.
    Shake256,
}

/// The ciphersuite identifier, as ASCII bytes.
pub open spec fn suite_id(cs: Ciphersuite) -> Seq<u8> {
    match cs {
        Ciphersuite::Sha256 => seq![66, 66, 83, 95, 66, 76, 83, 49, 50, 51, 56, 49, 71, 49, 95, 88, 77, 68, 58, 83, 72, 65, 45, 50, 53, 54, 95, 83, 83, 87, 85, 95, 82, 79, 95],
        Ciphersuite::Shake256 => seq![66, 66, 83, 95, 66, 76, 83, 49, 50, 51, 56, 49, 71, 49, 95, 88, 79, 70, 58, 83, 72, 65, 75, 69, 45, 50, 53, 54, 95, 83, 83, 87, 85, 95, 82, 79, 95],
    }
}

/// The purposes that each get a distinct domain separation tag.
#[derive(Clone, Copy, Debug, PartialEq, Eq)]
pub enum Purpose {
    /// Mapping a message to a scalar.
    MapMessage,
    /// Hashing to scalars.
    HashToScalar,
    /// Hashing a generator seed onto the curve.
    GeneratorDst,
    /// Expanding the generator seeds.
    GeneratorSeedDst,
    /// The seed of the message generators.
    GeneratorSeed,
    /// The seed of the base point `P1`.
    BasePointSeed,
}

/// The suffix that follows the identifier in the tag of a purpose.
pub open spec fn purpose_suffix(p: Purpose) -> Seq<u8> {
    match p {
        Purpose::MapMessage => seq![77, 65, 80, 95, 77, 83, 71, 95, 84, 79, 95, 83, 67, 65, 76, 65, 82, 95, 65, 83, 95, 72, 65, 83, 72, 95],
        Purpose::HashToScalar => seq![72, 50, 83, 95],
        Purpose::GeneratorDst => seq![83, 73, 71, 95, 71, 69, 78, 69, 82, 65, 84, 79, 82, 95, 68, 83, 84, 95],
        Purpose::GeneratorSeedDst => seq![83, 73, 71, 95, 71, 69, 78, 69, 82, 65, 84, 79, 82, 95, 83, 69, 69, 68, 95],
        Purpose::GeneratorSeed => seq![77, 69, 83, 83, 65, 71, 69, 95, 71, 69, 78, 69, 82, 65, 84, 79, 82, 95, 83, 69, 69, 68],
        Purpose::BasePointSeed => seq![66, 80, 95, 77, 69, 83, 83, 65, 71, 69, 95, 71, 69, 78, 69, 82, 65, 84, 79, 82, 95, 83, 69, 69, 68],
    }
}

/// The domain separation tag of a purpose: the identifier, then the suffix.
pub open spec fn dst_spec(cs: Ciphersuite, p: Purpose) -> Seq<u8> {
    suite_id(cs) + purpose_suffix(p)
}

impl Ciphersuite {
    /// The identifier of the ciphersuite.
    pub fn id(&self) -> (r: Vec<u8>)
        ensures
            r@ == suite_id(*self),
    {
        let r: Vec<u8> = match self {
            Ciphersuite::Sha256 => vec![66, 66, 83, 95, 66, 76, 83, 49, 50, 51, 56, 49, 71, 49, 95, 88, 77, 68, 58, 83, 72, 65, 45, 50, 53, 54, 95, 83, 83, 87, 85, 95, 82, 79, 95],
            Ciphersuite::Shake256 => vec![66, 66, 83, 95, 66, 76, 83, 49, 50, 51, 56, 49, 71, 49, 95, 88, 79, 70, 58, 83, 72, 65, 75, 69, 45, 50, 53, 54, 95, 83, 83, 87, 85, 95, 82, 79, 95],
        };
        assert(r@ =~= suite_id(*self));
        r
    }

    /// The domain separation tag for `p`.
    pub fn dst(&self, p: Purpose) -> (r: Vec<u8>)
        ensures
            r@ == dst_spec(*self, p),
            r@.len() <= 255,
    {
        let mut r = self.id();
        let sfx: Vec<u8> = match p {
            Purpose::MapMessage => vec![77, 65, 80, 95, 77, 83, 71, 95, 84, 79, 95, 83, 67, 65, 76, 65, 82, 95, 65, 83, 95, 72, 65, 83, 72, 95],
            Purpose::HashToScalar => vec![72, 50, 83, 95],
            Purpose::GeneratorDst => vec![83, 73, 71, 95, 71, 69, 78, 69, 82, 65, 84, 79, 82, 95, 68, 83, 84, 95],
            Purpose::GeneratorSeedDst => vec![83, 73, 71, 95, 71, 69, 78, 69, 82, 65, 84, 79, 82, 95, 83, 69, 69, 68, 95],
            Purpose::GeneratorSeed => vec![77, 69, 83, 83, 65, 71, 69, 95, 71, 69, 78, 69, 82, 65, 84, 79, 82, 95, 83, 69, 69, 68],
            Purpose::BasePointSeed => vec![66, 80, 95, 77, 69, 83, 83, 65, 71, 69, 95, 71, 69, 78, 69, 82, 65, 84, 79, 82, 95, 83, 69, 69, 68],
        };
        assert(sfx@ =~= purpose_suffix(p));
        extend_bytes(&mut r, sfx.as_slice());
        r
    }
}

} // verus!
