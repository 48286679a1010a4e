use vstd::prelude::*;
use crate::bytes::{be_int, lemma_be_int_injective};
use crate::curve::{
    g2_add_of, g2_generator_spec, g2_pub_of, is_g1_point_of, is_g2_point_of, is_scalar, pairing_eq_of,
};
use crate::generators::{generator_point, Generators};
use crate::hashing::{is_h2s_output, map_value};
use crate::knowledge::{
    challenge_input, challenge_value, disclosed_count, disclosed_of, proof_elements_valid,
    proof_verify_spec, verify_c1, verify_c2, identity_g1, BBSplusPoKSignature,
};
use crate::signature::{all_scalars, b_value, domain_value, verify_spec, BBSplusSignature};
use crate::bytes::bytes32_of;
use crate::suite::Ciphersuite;

verus! {

/// Generator determinism: two derivations of generators for the same
/// ciphersuite agree on every generator that both hold, whatever was derived
/// before and however many were asked for.
pub proof fn lemma_generators_agree(cs: Ciphersuite, a: Generators, n: nat, b: Generators, m: nat)
    requires
        a.is_derived(cs, n),
        b.is_derived(cs, m),
    ensures
        a.base_point@ == b.base_point@,
        a.q1@ == b.q1@,
        a.q2@ == b.q2@,
        forall|i: int|
            0 <= i < n && i < m ==> #[trigger] a.message_generators@[i]@
                == b.message_generators@[i]@,
{
    assert forall|i: int| 0 <= i < n && i < m implies #[trigger] a.message_generators@[i]@
        == b.message_generators@[i]@ by {
        assert(a.message_generators@[i]@ == generator_point(cs, (i + 2) as nat));
        assert(b.message_generators@[i]@ == generator_point(cs, (i + 2) as nat));
    }
}

/// Message mapping determinism: two scalars that the same message maps to
/// under the same tag are the same bytes.
pub proof fn lemma_map_message_deterministic(
    cs: Ciphersuite,
    msg: Seq<u8>,
    dst: Seq<u8>,
    a: Seq<u8>,
    b: Seq<u8>,
)
    requires
        is_scalar(a),
        be_int(a) == map_value(cs, msg, dst),
        is_scalar(b),
        be_int(b) == map_value(cs, msg, dst),
    ensures
        a == b,
{
    lemma_be_int_injective(a, b);
}

/// Hash-to-scalar determinism: two outputs for the same input, tag and count
/// hold the same scalars, byte for byte.
pub proof fn lemma_hash_to_scalar_deterministic(
    cs: Ciphersuite,
    msg: Seq<u8>,
    dst: Seq<u8>,
    count: nat,
    a: Seq<Vec<u8>>,
    b: Seq<Vec<u8>>,
)
    requires
        is_h2s_output(cs, msg, dst, count, a),
        is_h2s_output(cs, msg, dst, count, b),
    ensures
        a.len() == b.len(),
        forall|i: int| 0 <= i < a.len() ==> #[trigger] a[i]@ == b[i]@,
{
    assert forall|i: int| 0 <= i < a.len() implies #[trigger] a[i]@ == b[i]@ by {
        lemma_be_int_injective(a[i]@, b[i]@);
    }
}

/// A signature that signing produced passes every check of verification but
/// the pairing equation, whose `B` is the one that signing used: verification
/// accepts it exactly when that equation holds.
pub proof fn lemma_signature_checks_reduce_to_pairing(
    cs: Ciphersuite,
    w: Seq<u8>,
    sig: BBSplusSignature,
    header: Seq<u8>,
    msgs: Seq<Vec<u8>>,
)
    requires
        sig.a@.len() == 48 && is_g1_point_of(sig.a@),
        is_scalar(sig.e@),
        is_scalar(sig.s@),
        w.len() == 96 && is_g2_point_of(w),
    ensures
        verify_spec(cs, w, sig, header, msgs) == pairing_eq_of(
            sig.a@,
            g2_add_of(w, g2_pub_of(sig.e@)),
            b_value(cs, w, header, msgs, sig.s@),
            g2_generator_spec(),
        ),
{
}

/// Subgroup rejection: a signature whose `A`, or a proof whose `A'`, `Abar` or
/// `D`, is not a point of the prime-order subgroup is never accepted, and
/// neither is a public key outside the G2 subgroup.
pub proof fn lemma_subgroup_rejection(
    cs: Ciphersuite,
    w: Seq<u8>,
    sig: BBSplusSignature,
    proof: BBSplusPoKSignature,
    header: Seq<u8>,
    ph: Seq<u8>,
    mask: Seq<bool>,
    msgs: Seq<Vec<u8>>,
    dmsgs: Seq<Vec<u8>>,
)
    ensures
        !is_g1_point_of(sig.a@) ==> !verify_spec(cs, w, sig, header, msgs),
        !is_g2_point_of(w) ==> !verify_spec(cs, w, sig, header, msgs),
        !is_g1_point_of(proof.a_prime@) || !is_g1_point_of(proof.a_bar@) || !is_g1_point_of(
            proof.d@,
        ) || !is_g2_point_of(w) ==> !proof_verify_spec(cs, w, proof, header, ph, mask, dmsgs),
{
}

proof fn lemma_disclosed_of(msgs: Seq<Vec<u8>>, mask: Seq<bool>, k: nat)
    requires
        k <= mask.len(),
        msgs.len() == mask.len(),
        all_scalars(msgs),
    ensures
        disclosed_of(msgs, mask, k).len() == disclosed_count(mask, k),
        all_scalars(disclosed_of(msgs, mask, k)),
    decreases k,
{
    if k > 0 {
        lemma_disclosed_of(msgs, mask, (k - 1) as nat);
        let prev = disclosed_of(msgs, mask, (k - 1) as nat);
        if mask[k - 1] {
            assert forall|j: int| 0 <= j < prev.len() + 1 implies is_scalar(
                #[trigger] prev.push(msgs[k - 1])[j]@,
            ) by {
                if j < prev.len() {
                    assert(prev.push(msgs[k - 1])[j] == prev[j]);
                }
            }
        }
    }
}

/// Proof correctness, the part that is not group algebra: a proof that
/// generation produced, checked against the messages that its mask discloses
/// under a valid public key, passes every decoding and counting check, so
/// verification accepts it exactly when `A'` is not the identity, the
/// recomputed challenge equals `c`, and `e(A', W) == e(Abar, P2)`.
pub proof fn lemma_generated_proof_checks(
    cs: Ciphersuite,
    w: Seq<u8>,
    proof: BBSplusPoKSignature,
    header: Seq<u8>,
    ph: Seq<u8>,
    mask: Seq<bool>,
    msgs: Seq<Vec<u8>>,
)
    requires
        proof_elements_valid(proof, mask),
        msgs.len() == mask.len(),
        all_scalars(msgs),
        w.len() == 96 && is_g2_point_of(w),
    ensures
        ({
            let dmsgs = disclosed_of(msgs, mask, mask.len());
            let domain = bytes32_of(domain_value(cs, w, header, mask.len()));
            proof_verify_spec(cs, w, proof, header, ph, mask, dmsgs) == (proof.a_prime@
                != identity_g1() && be_int(proof.c@) == challenge_value(
                cs,
                challenge_input(
                    proof.a_prime@,
                    proof.a_bar@,
                    proof.d@,
                    verify_c1(cs, proof),
                    verify_c2(cs, proof, mask, dmsgs, domain),
                    mask,
                    dmsgs,
                    domain,
                    ph,
                ),
            ) && pairing_eq_of(proof.a_prime@, w, proof.a_bar@, g2_generator_spec()))
        }),
{
    lemma_disclosed_of(msgs, mask, mask.len());
}

} // verus!
