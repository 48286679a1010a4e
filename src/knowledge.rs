use vstd::prelude::*;
use crate::bytes::{bytes_eq, lemma_be_int_injective, be8, be_int, bytes32_of, concat_all, extend_bytes, lemma_bytes32_of, u64_be_bytes};
use crate::curve::{
    g1_add, g1_add_of, g1_check, g1_mul, g1_mul_of, g2_check, is_g1_point_of, is_g2_point_of,
    is_scalar, pairing_eq, pairing_eq_of, g2_generator, g2_generator_spec, scalar_one, scalar_add, scalar_check, scalar_invert,
    scalar_mul, scalar_neg, scalar_order,
};
use crate::error::Error;
use crate::generators::{base_point_spec, create_generators, generator_point, Generators};
use crate::hashing::{h2s_value, hash_to_scalar};
use crate::signature::{
    all_scalars, b_value, calculate_b, calculate_domain, domain_value, BBSplusPublicKey,
    BBSplusSignature, MAX_MESSAGES,
};
use crate::suite::{dst_spec, Ciphersuite, Purpose};

verus! {

/// A proof of knowledge of a BBS+ signature that discloses some messages.
#[derive(Clone, Debug)]
pub struct BBSplusPoKSignature {
    pub a_prime: Vec<u8>,
    pub a_bar: Vec<u8>,
    pub d: Vec<u8>,
    pub c: Vec<u8>,
    pub e_hat: Vec<u8>,
    pub r2_hat: Vec<u8>,
    pub r3_hat: Vec<u8>,
    pub s_hat: Vec<u8>,
    /// One response per hidden message, in ascending index order.
    pub m_hat: Vec<Vec<u8>>,
}

/// The caller's fresh random scalars for one proof.
#[derive(Clone, Debug)]
pub struct ProofRandomness {
    pub r1: Vec<u8>,
    pub r2: Vec<u8>,
    pub e_tilde: Vec<u8>,
    pub r2_tilde: Vec<u8>,
    pub r3_tilde: Vec<u8>,
    pub s_tilde: Vec<u8>,
    /// One blinding per hidden message, in ascending index order.
    pub m_tilde: Vec<Vec<u8>>,
}

/// The number of disclosed positions among the first `k`.
pub open spec fn disclosed_count(mask: Seq<bool>, k: nat) -> nat
    decreases k,
{
    if k == 0 {
        0
    } else {
        disclosed_count(mask, (k - 1) as nat) + if mask[k - 1] { 1nat } else { 0nat }
    }
}

/// The number of hidden positions among the first `k`.
pub open spec fn hidden_count(mask: Seq<bool>, k: nat) -> nat
    decreases k,
{
    if k == 0 {
        0
    } else {
        hidden_count(mask, (k - 1) as nat) + if mask[k - 1] { 0nat } else { 1nat }
    }
}

/// The disclosed messages among the first `k`, in order.
pub open spec fn disclosed_of(msgs: Seq<Vec<u8>>, mask: Seq<bool>, k: nat) -> Seq<Vec<u8>>
    decreases k,
{
    if k == 0 {
        Seq::empty()
    } else if mask[k - 1] {
        disclosed_of(msgs, mask, (k - 1) as nat).push(msgs[k - 1])
    } else {
        disclosed_of(msgs, mask, (k - 1) as nat)
    }
}

/// The disclosed indexes among the first `k`, eight big-endian bytes each.
pub open spec fn index_octets(mask: Seq<bool>, k: nat) -> Seq<u8>
    decreases k,
{
    if k == 0 {
        Seq::empty()
    } else if mask[k - 1] {
        index_octets(mask, (k - 1) as nat) + be8((k - 1) as nat)
    } else {
        index_octets(mask, (k - 1) as nat)
    }
}

/// The input of the challenge: `A' || Abar || D || C1 || C2 || I2OSP(R, 8) ||
/// i_1..i_R || m_(i_1)..m_(i_R) || domain || I2OSP(len(ph), 8) || ph`.
pub open spec fn challenge_input(
    a_prime: Seq<u8>,
    a_bar: Seq<u8>,
    d: Seq<u8>,
    c1: Seq<u8>,
    c2: Seq<u8>,
    mask: Seq<bool>,
    dmsgs: Seq<Vec<u8>>,
    domain: Seq<u8>,
    ph: Seq<u8>,
) -> Seq<u8> {
    a_prime + a_bar + d + c1 + c2 + be8(dmsgs.len()) + index_octets(mask, mask.len()) + concat_all(
        dmsgs,
    ) + domain + be8(ph.len()) + ph
}

/// The challenge scalar of a challenge input.
pub open spec fn challenge_value(cs: Ciphersuite, input: Seq<u8>) -> nat {
    h2s_value(cs, input, dst_spec(cs, Purpose::HashToScalar), 1, 0)
}

/// `base + Σ H_(j+1)·x_(hidden_count(j))` over the hidden positions `j < k`.
pub open spec fn hidden_acc(cs: Ciphersuite, base: Seq<u8>, mask: Seq<bool>, xs: Seq<Vec<u8>>, k: nat) -> Seq<u8>
    decreases k,
{
    if k == 0 {
        base
    } else if mask[k - 1] {
        hidden_acc(cs, base, mask, xs, (k - 1) as nat)
    } else {
        g1_add_of(
            hidden_acc(cs, base, mask, xs, (k - 1) as nat),
            g1_mul_of(
                generator_point(cs, (k + 1) as nat),
                xs[hidden_count(mask, (k - 1) as nat) as int]@,
            ),
        )
    }
}

/// `base + Σ H_(j+1)·d_(disclosed_count(j))` over the disclosed positions `j < k`.
pub open spec fn disclosed_acc(cs: Ciphersuite, base: Seq<u8>, mask: Seq<bool>, ds: Seq<Vec<u8>>, k: nat) -> Seq<u8>
    decreases k,
{
    if k == 0 {
        base
    } else if mask[k - 1] {
        g1_add_of(
            disclosed_acc(cs, base, mask, ds, (k - 1) as nat),
            g1_mul_of(
                generator_point(cs, (k + 1) as nat),
                ds[disclosed_count(mask, (k - 1) as nat) as int]@,
            ),
        )
    } else {
        disclosed_acc(cs, base, mask, ds, (k - 1) as nat)
    }
}

/// The 32 bytes of `(a·b + c) mod r`, computed as the library does.
pub open spec fn mul_add(a: Seq<u8>, b: Seq<u8>, c: Seq<u8>) -> Seq<u8> {
    bytes32_of(((be_int(a) * be_int(b)) % scalar_order() + be_int(c)) % scalar_order())
}

/// The 32 bytes of `-a mod r`.
pub open spec fn neg_of(a: Seq<u8>) -> Seq<u8> {
    bytes32_of(((scalar_order() - be_int(a)) % (scalar_order() as int)) as nat)
}

/// The 32 bytes of `r - 1`.
pub open spec fn minus_one() -> Seq<u8> {
    bytes32_of((scalar_order() - 1) as nat)
}

/// `C1` as the verifier recomputes it: `(Abar - D)·c + A'·e^ + Q1·r2^`.
#[verifier::opaque]
pub open spec fn verify_c1(cs: Ciphersuite, proof: BBSplusPoKSignature) -> Seq<u8> {
    g1_add_of(
        g1_add_of(
            g1_mul_of(g1_add_of(proof.a_bar@, g1_mul_of(proof.d@, minus_one())), proof.c@),
            g1_mul_of(proof.a_prime@, proof.e_hat@),
        ),
        g1_mul_of(generator_point(cs, 0), proof.r2_hat@),
    )
}

/// `C2` as the verifier recomputes it: `T·c - D·r3^ + Q1·s^ + Σ H_j·m^_j` over
/// the hidden positions, with `T = P1 + Q2·domain + Σ H_i·m_i` over the
/// disclosed ones.
#[verifier::opaque]
pub open spec fn verify_c2(
    cs: Ciphersuite,
    proof: BBSplusPoKSignature,
    mask: Seq<bool>,
    dmsgs: Seq<Vec<u8>>,
    domain: Seq<u8>,
) -> Seq<u8> {
    let t = disclosed_acc(
        cs,
        g1_add_of(base_point_spec(cs), g1_mul_of(generator_point(cs, 1), domain)),
        mask,
        dmsgs,
        mask.len(),
    );
    hidden_acc(
        cs,
        g1_add_of(
            g1_add_of(g1_mul_of(t, proof.c@), g1_mul_of(proof.d@, neg_of(proof.r3_hat@))),
            g1_mul_of(generator_point(cs, 0), proof.s_hat@),
        ),
        mask,
        proof.m_hat@,
        mask.len(),
    )
}

/// Whether every element of the proof, the disclosed messages and the key
/// decodes, and the counts agree with the mask.
pub open spec fn proof_well_formed(
    w: Seq<u8>,
    proof: BBSplusPoKSignature,
    mask: Seq<bool>,
    dmsgs: Seq<Vec<u8>>,
) -> bool {
    &&& proof.a_prime@.len() == 48 && is_g1_point_of(proof.a_prime@)
    &&& proof.a_bar@.len() == 48 && is_g1_point_of(proof.a_bar@)
    &&& proof.d@.len() == 48 && is_g1_point_of(proof.d@)
    &&& is_scalar(proof.c@) && is_scalar(proof.e_hat@) && is_scalar(proof.r2_hat@)
    &&& is_scalar(proof.r3_hat@) && is_scalar(proof.s_hat@)
    &&& proof.m_hat@.len() == hidden_count(mask, mask.len())
    &&& all_scalars(proof.m_hat@)
    &&& dmsgs.len() == disclosed_count(mask, mask.len())
    &&& all_scalars(dmsgs)
    &&& w.len() == 96 && is_g2_point_of(w)
}

/// Whether `proof` is accepted for the disclosed messages `dmsgs` at the
/// disclosed positions of `mask`.
pub open spec fn proof_verify_spec(
    cs: Ciphersuite,
    w: Seq<u8>,
    proof: BBSplusPoKSignature,
    header: Seq<u8>,
    ph: Seq<u8>,
    mask: Seq<bool>,
    dmsgs: Seq<Vec<u8>>,
) -> bool {
    let domain = bytes32_of(domain_value(cs, w, header, mask.len()));
    &&& proof_well_formed(w, proof, mask, dmsgs)
    &&& proof.a_prime@ != identity_g1()
    &&& be_int(proof.c@) == challenge_value(
        cs,
        challenge_input(
            proof.a_prime@,
            proof.a_bar@,
            proof.d@,
            verify_c1(cs, proof),
            verify_c2(cs, proof, mask, dmsgs, domain),
            mask,
            dmsgs,
            domain,
            ph,
        ),
    )
    &&& pairing_eq_of(proof.a_prime@, w, proof.a_bar@, g2_generator_spec())
}

/// The compressed encoding of the identity of G1: the compression and
/// infinity flags, then zeros.
#[verifier::opaque]
pub open spec fn identity_g1() -> Seq<u8> {
    seq![0xc0u8].add(Seq::new(47, |i: int| 0u8))
}

proof fn lemma_counts_grow(mask: Seq<bool>, a: nat, b: nat)
    requires
        a <= b <= mask.len(),
    ensures
        hidden_count(mask, a) <= hidden_count(mask, b),
        disclosed_count(mask, a) <= disclosed_count(mask, b),
        hidden_count(mask, b) + disclosed_count(mask, b) == b,
    decreases b,
{
    if b > 0 {
        if a < b {
            lemma_counts_grow(mask, a, (b - 1) as nat);
        }
        lemma_counts_grow(mask, (b - 1) as nat, (b - 1) as nat);
    }
}

/// The number of hidden positions.
fn count_hidden(mask: &[bool]) -> (r: usize)
    ensures
        r == hidden_count(mask@, mask@.len()),
{
    let mut h: usize = 0;
    let mut k: usize = 0;
    while k < mask.len()
        invariant
            k <= mask@.len(),
            h == hidden_count(mask@, k as nat),
            h <= k,
        decreases mask@.len() - k,
    {
        proof {
            lemma_counts_grow(mask@, k as nat, (k + 1) as nat);
        }
        if !mask[k] {
            h = h + 1;
        }
        k = k + 1;
    }
    h
}

/// Two lists of byte strings with equal contents concatenate alike.
proof fn lemma_concat_views(a: Seq<Vec<u8>>, b: Seq<Vec<u8>>)
    requires
        a.len() == b.len(),
        forall|i: int| 0 <= i < a.len() ==> #[trigger] a[i]@ == b[i]@,
    ensures
        concat_all(a) == concat_all(b),
    decreases a.len(),
{
    if a.len() > 0 {
        lemma_concat_views(a.drop_last(), b.drop_last());
        assert(a.last()@ == b.last()@);
    }
}

/// Whether two lists of byte strings hold the same contents.
pub open spec fn same_contents(a: Seq<Vec<u8>>, b: Seq<Vec<u8>>) -> bool {
    a.len() == b.len() && forall|i: int| 0 <= i < a.len() ==> #[trigger] a[i]@ == b[i]@
}

/// The messages at the disclosed positions, in order.
fn disclosed_messages(msgs: &[Vec<u8>], mask: &[bool]) -> (r: Vec<Vec<u8>>)
    requires
        msgs@.len() == mask@.len(),
    ensures
        same_contents(r@, disclosed_of(msgs@, mask@, mask@.len())),
        r@.len() == disclosed_count(mask@, mask@.len()),
{
    let mut out: Vec<Vec<u8>> = Vec::new();
    let mut k: usize = 0;
    while k < mask.len()
        invariant
            k <= mask@.len(),
            msgs@.len() == mask@.len(),
            same_contents(out@, disclosed_of(msgs@, mask@, k as nat)),
            out@.len() == disclosed_count(mask@, k as nat),
        decreases mask@.len() - k,
    {
        if mask[k] {
            let m = crate::hashing::slice_bytes(msgs[k].as_slice(), 0, msgs[k].len());
            assert(m@ =~= msgs@[k as int]@);
            out.push(m);
        }
        k = k + 1;
    }
    out
}

/// `base + Σ H_(j+1)·xs[hidden_count(j)]` over the hidden positions.
fn hidden_sum(cs: Ciphersuite, gens: &Generators, base: &Vec<u8>, mask: &[bool], xs: &Vec<Vec<u8>>) -> (r: Vec<u8>)
    requires
        gens.is_derived(cs, mask@.len()),
        gens.all_valid(),
        base@.len() == 48 && is_g1_point_of(base@),
        xs@.len() == hidden_count(mask@, mask@.len()),
        all_scalars(xs@),
    ensures
        r@ == hidden_acc(cs, base@, mask@, xs@, mask@.len()),
        r@.len() == 48 && is_g1_point_of(r@),
{
    let mut acc = base.clone();
    let mut h: usize = 0;
    let mut k: usize = 0;
    while k < mask.len()
        invariant
            k <= mask@.len(),
            gens.is_derived(cs, mask@.len()),
            gens.all_valid(),
            xs@.len() == hidden_count(mask@, mask@.len()),
            all_scalars(xs@),
            h == hidden_count(mask@, k as nat),
            acc@ == hidden_acc(cs, base@, mask@, xs@, k as nat),
            acc@.len() == 48 && is_g1_point_of(acc@),
        decreases mask@.len() - k,
    {
        proof {
            lemma_counts_grow(mask@, (k + 1) as nat, mask@.len());
        }
        assert(gens.message_generators@[k as int]@.len() == 48);
        if !mask[k] {
            let t = g1_mul(gens.message_generators[k].as_slice(), xs[h].as_slice());
            acc = g1_add(acc.as_slice(), t.as_slice());
            h = h + 1;
        }
        k = k + 1;
    }
    acc
}

/// `base + Σ H_(j+1)·ds[disclosed_count(j)]` over the disclosed positions.
fn disclosed_sum(cs: Ciphersuite, gens: &Generators, base: &Vec<u8>, mask: &[bool], ds: &[Vec<u8>]) -> (r: Vec<u8>)
    requires
        gens.is_derived(cs, mask@.len()),
        gens.all_valid(),
        base@.len() == 48 && is_g1_point_of(base@),
        ds@.len() == disclosed_count(mask@, mask@.len()),
        all_scalars(ds@),
    ensures
        r@ == disclosed_acc(cs, base@, mask@, ds@, mask@.len()),
        r@.len() == 48 && is_g1_point_of(r@),
{
    let mut acc = base.clone();
    let mut h: usize = 0;
    let mut k: usize = 0;
    while k < mask.len()
        invariant
            k <= mask@.len(),
            gens.is_derived(cs, mask@.len()),
            gens.all_valid(),
            ds@.len() == disclosed_count(mask@, mask@.len()),
            all_scalars(ds@),
            h == disclosed_count(mask@, k as nat),
            acc@ == disclosed_acc(cs, base@, mask@, ds@, k as nat),
            acc@.len() == 48 && is_g1_point_of(acc@),
        decreases mask@.len() - k,
    {
        proof {
            lemma_counts_grow(mask@, (k + 1) as nat, mask@.len());
        }
        assert(gens.message_generators@[k as int]@.len() == 48);
        if mask[k] {
            let t = g1_mul(gens.message_generators[k].as_slice(), ds[h].as_slice());
            acc = g1_add(acc.as_slice(), t.as_slice());
            h = h + 1;
        }
        k = k + 1;
    }
    acc
}

/// The challenge scalar.
fn calculate_challenge(
    cs: Ciphersuite,
    a_prime: &Vec<u8>,
    a_bar: &Vec<u8>,
    d: &Vec<u8>,
    c1: &Vec<u8>,
    c2: &Vec<u8>,
    mask: &[bool],
    dmsgs: &[Vec<u8>],
    domain: &Vec<u8>,
    ph: &[u8],
) -> (r: Vec<u8>)
    requires
        mask@.len() < MAX_MESSAGES,
        dmsgs@.len() <= mask@.len(),
    ensures
        r@ == bytes32_of(
            challenge_value(
                cs,
                challenge_input(a_prime@, a_bar@, d@, c1@, c2@, mask@, dmsgs@, domain@, ph@),
            ),
        ),
        be_int(r@) == challenge_value(
            cs,
            challenge_input(a_prime@, a_bar@, d@, c1@, c2@, mask@, dmsgs@, domain@, ph@),
        ),
        is_scalar(r@),
{
    let mut input = a_prime.clone();
    extend_bytes(&mut input, a_bar.as_slice());
    extend_bytes(&mut input, d.as_slice());
    extend_bytes(&mut input, c1.as_slice());
    extend_bytes(&mut input, c2.as_slice());
    let n = u64_be_bytes(dmsgs.len() as u64);
    extend_bytes(&mut input, n.as_slice());
    let mut k: usize = 0;
    let ghost prefix = input@;
    while k < mask.len()
        invariant
            k <= mask@.len(),
            mask@.len() < MAX_MESSAGES,
            input@ == prefix + index_octets(mask@, k as nat),
        decreases mask@.len() - k,
    {
        if mask[k] {
            let ib = u64_be_bytes(k as u64);
            extend_bytes(&mut input, ib.as_slice());
        }
        k = k + 1;
        assert(input@ =~= prefix + index_octets(mask@, k as nat));
    }
    let ms = crate::signature::concat_messages(dmsgs);
    extend_bytes(&mut input, ms.as_slice());
    extend_bytes(&mut input, domain.as_slice());
    let pl = u64_be_bytes(ph.len() as u64);
    extend_bytes(&mut input, pl.as_slice());
    extend_bytes(&mut input, ph);
    assert(input@ =~= challenge_input(a_prime@, a_bar@, d@, c1@, c2@, mask@, dmsgs@, domain@, ph@));
    let dst = cs.dst(Purpose::HashToScalar);
    let v = match hash_to_scalar(cs, input.as_slice(), dst.as_slice(), 1) {
        Ok(v) => v,
        Err(_) => vstd::pervasive::unreached(),
    };
    let r = v[0].clone();
    proof {
        lemma_bytes32_of(r@);
    }
    r
}

/// `(a·b + c) mod r`.
fn scalar_mul_add(a: &[u8], b: &[u8], c: &[u8]) -> (r: Vec<u8>)
    requires
        is_scalar(a@),
        is_scalar(b@),
        is_scalar(c@),
    ensures
        r@ == mul_add(a@, b@, c@),
        is_scalar(r@),
{
    let t = scalar_mul(a, b);
    let r = scalar_add(t.as_slice(), c);
    proof {
        lemma_bytes32_of(r@);
    }
    r
}

/// Whether every blinding of `rnd` is a scalar.
pub open spec fn randomness_valid(rnd: ProofRandomness) -> bool {
    &&& is_scalar(rnd.r1@) && is_scalar(rnd.r2@) && is_scalar(rnd.e_tilde@)
    &&& is_scalar(rnd.r2_tilde@) && is_scalar(rnd.r3_tilde@) && is_scalar(rnd.s_tilde@)
    &&& all_scalars(rnd.m_tilde@)
}

/// Whether `proof` is the one generated from `sig` on `msgs` with the
/// blindings `rnd`, where `r3` is the inverse of `r1`.
pub open spec fn proof_gen_spec(
    cs: Ciphersuite,
    w: Seq<u8>,
    sig: BBSplusSignature,
    header: Seq<u8>,
    ph: Seq<u8>,
    msgs: Seq<Vec<u8>>,
    mask: Seq<bool>,
    rnd: ProofRandomness,
    r3: Seq<u8>,
    proof: BBSplusPoKSignature,
) -> bool {
    let l = msgs.len();
    let domain = bytes32_of(domain_value(cs, w, header, l));
    let b = b_value(cs, w, header, msgs, sig.s@);
    let q1 = generator_point(cs, 0);
    let a_prime = g1_mul_of(sig.a@, rnd.r1@);
    let b_r1 = g1_mul_of(b, rnd.r1@);
    let a_bar = g1_add_of(g1_mul_of(a_prime, neg_of(sig.e@)), b_r1);
    let d = g1_add_of(b_r1, g1_mul_of(q1, rnd.r2@));
    let s_prime = mul_add(rnd.r2@, r3, sig.s@);
    let c1 = g1_add_of(g1_mul_of(a_prime, rnd.e_tilde@), g1_mul_of(q1, rnd.r2_tilde@));
    let c2 = hidden_acc(
        cs,
        g1_add_of(g1_mul_of(d, neg_of(rnd.r3_tilde@)), g1_mul_of(q1, rnd.s_tilde@)),
        mask,
        rnd.m_tilde@,
        l,
    );
    let c = bytes32_of(
        challenge_value(
            cs,
            challenge_input(a_prime, a_bar, d, c1, c2, mask, disclosed_of(msgs, mask, l), domain, ph),
        ),
    );
    &&& proof.a_prime@ == a_prime
    &&& proof.a_bar@ == a_bar
    &&& proof.d@ == d
    &&& proof.c@ == c
    &&& proof.e_hat@ == mul_add(c, sig.e@, rnd.e_tilde@)
    &&& proof.r2_hat@ == mul_add(c, rnd.r2@, rnd.r2_tilde@)
    &&& proof.r3_hat@ == mul_add(c, r3, rnd.r3_tilde@)
    &&& proof.s_hat@ == mul_add(c, s_prime, rnd.s_tilde@)
    &&& proof.m_hat@.len() == hidden_count(mask, l)
    &&& forall|j: int|
        0 <= j < l && !mask[j] ==> #[trigger] proof.m_hat@[hidden_count(mask, j as nat) as int]@
            == mul_add(c, msgs[j]@, rnd.m_tilde@[hidden_count(mask, j as nat) as int]@)
}

/// Whether the proof's points are subgroup points, its responses scalars, and
/// its message responses as many as the hidden positions of `mask`.
pub open spec fn proof_elements_valid(proof: BBSplusPoKSignature, mask: Seq<bool>) -> bool {
    &&& proof.a_prime@.len() == 48 && is_g1_point_of(proof.a_prime@)
    &&& proof.a_bar@.len() == 48 && is_g1_point_of(proof.a_bar@)
    &&& proof.d@.len() == 48 && is_g1_point_of(proof.d@)
    &&& is_scalar(proof.c@) && is_scalar(proof.e_hat@) && is_scalar(proof.r2_hat@)
    &&& is_scalar(proof.r3_hat@) && is_scalar(proof.s_hat@)
    &&& proof.m_hat@.len() == hidden_count(mask, mask.len())
    &&& all_scalars(proof.m_hat@)
}

/// Whether the mask does not cover the messages, or the message blindings do
/// not match the hidden messages one for one.
pub open spec fn shape_mismatch(msgs: Seq<Vec<u8>>, mask: Seq<bool>, rnd: ProofRandomness) -> bool {
    mask.len() != msgs.len() || rnd.m_tilde@.len() != hidden_count(mask, mask.len())
}

/// Whether `A` is a subgroup point and `e`, `s` are scalars.
pub open spec fn signature_decodes(sig: BBSplusSignature) -> bool {
    sig.a@.len() == 48 && is_g1_point_of(sig.a@) && is_scalar(sig.e@) && is_scalar(sig.s@)
}

impl BBSplusPoKSignature {
    /// Proves knowledge of `sig` on `messages`, disclosing the messages whose
    /// `disclosed` flag is set and hiding the rest. The caller supplies fresh
    /// random scalars. A mask of another length than the messages, a number
    /// of message blindings other than the hidden messages, or a zero `r1` is
    /// an invalid argument; a signature whose elements do not decode is an
    /// invalid signature.
    #[verifier::spinoff_prover]
    #[verifier::rlimit(100)]
    pub fn proof_gen(
        cs: Ciphersuite,
        pk: &BBSplusPublicKey,
        sig: &BBSplusSignature,
        header: &[u8],
        ph: &[u8],
        messages: &[Vec<u8>],
        disclosed: &[bool],
        rnd: &ProofRandomness,
    ) -> (r: Result<Self, Error>)
        requires
            all_scalars(messages@),
            messages@.len() < MAX_MESSAGES,
            randomness_valid(*rnd),
        ensures
            r is Err == (shape_mismatch(messages@, disclosed@, *rnd) || !signature_decodes(*sig)
                || be_int(rnd.r1@) == 0),
            shape_mismatch(messages@, disclosed@, *rnd) ==> r == Err::<Self, Error>(
                Error::InvalidArgument,
            ),
            !shape_mismatch(messages@, disclosed@, *rnd) && !signature_decodes(*sig) ==> r == Err::<
                Self,
                Error,
            >(Error::InvalidSignature),
            !shape_mismatch(messages@, disclosed@, *rnd) && signature_decodes(*sig) && be_int(
                rnd.r1@,
            ) == 0 ==> r == Err::<Self, Error>(Error::InvalidArgument),
            r matches Ok(p) ==> proof_elements_valid(p, disclosed@),
            r matches Ok(p) ==> exists|r3: Seq<u8>|
                is_scalar(r3) && (be_int(rnd.r1@) * be_int(r3)) % scalar_order() == 1
                    && proof_gen_spec(cs, pk.w@, *sig, header@, ph@, messages@, disclosed@, *rnd, r3, p),
    {
        if disclosed.len() != messages.len() {
            return Err(Error::InvalidArgument);
        }
        let hidden = count_hidden(disclosed);
        if rnd.m_tilde.len() != hidden {
            return Err(Error::InvalidArgument);
        }
        if !g1_check(sig.a.as_slice()) || !scalar_check(sig.e.as_slice()) || !scalar_check(
            sig.s.as_slice(),
        ) {
            return Err(Error::InvalidSignature);
        }
        let r3 = match scalar_invert(rnd.r1.as_slice()) {
            Some(v) => v,
            None => {
                return Err(Error::InvalidArgument);
            },
        };
        let gens = create_generators(cs, messages.len());
        let domain = calculate_domain(cs, pk, &gens, header);
        let b = calculate_b(cs, &gens, messages, sig.s.as_slice(), domain.as_slice());
        let a_prime = g1_mul(sig.a.as_slice(), rnd.r1.as_slice());
        let neg_e = scalar_neg(sig.e.as_slice());
        proof {
            lemma_bytes32_of(neg_e@);
        }
        let b_r1 = g1_mul(b.as_slice(), rnd.r1.as_slice());
        let t = g1_mul(a_prime.as_slice(), neg_e.as_slice());
        let a_bar = g1_add(t.as_slice(), b_r1.as_slice());
        let t = g1_mul(gens.q1.as_slice(), rnd.r2.as_slice());
        let d = g1_add(b_r1.as_slice(), t.as_slice());
        let s_prime = scalar_mul_add(rnd.r2.as_slice(), r3.as_slice(), sig.s.as_slice());
        let t1 = g1_mul(a_prime.as_slice(), rnd.e_tilde.as_slice());
        let t2 = g1_mul(gens.q1.as_slice(), rnd.r2_tilde.as_slice());
        let c1 = g1_add(t1.as_slice(), t2.as_slice());
        let neg_r3t = scalar_neg(rnd.r3_tilde.as_slice());
        proof {
            lemma_bytes32_of(neg_r3t@);
        }
        let t1 = g1_mul(d.as_slice(), neg_r3t.as_slice());
        let t2 = g1_mul(gens.q1.as_slice(), rnd.s_tilde.as_slice());
        let c2_base = g1_add(t1.as_slice(), t2.as_slice());
        let c2 = hidden_sum(cs, &gens, &c2_base, disclosed, &rnd.m_tilde);
        let dm = disclosed_messages(messages, disclosed);
        proof {
            lemma_concat_views(dm@, disclosed_of(messages@, disclosed@, disclosed@.len()));
            lemma_counts_grow(disclosed@, disclosed@.len(), disclosed@.len());
        }
        let c = calculate_challenge(cs, &a_prime, &a_bar, &d, &c1, &c2, disclosed, dm.as_slice(), &domain, ph);
        assert(disclosed_of(messages@, disclosed@, disclosed@.len()).len() == dm@.len());
        let e_hat = scalar_mul_add(c.as_slice(), sig.e.as_slice(), rnd.e_tilde.as_slice());
        let r2_hat = scalar_mul_add(c.as_slice(), rnd.r2.as_slice(), rnd.r2_tilde.as_slice());
        let r3_hat = scalar_mul_add(c.as_slice(), r3.as_slice(), rnd.r3_tilde.as_slice());
        let s_hat = scalar_mul_add(c.as_slice(), s_prime.as_slice(), rnd.s_tilde.as_slice());
        let mut m_hat: Vec<Vec<u8>> = Vec::new();
        let mut k: usize = 0;
        while k < messages.len()
            invariant
                k <= messages@.len(),
                disclosed@.len() == messages@.len(),
                all_scalars(messages@),
                randomness_valid(*rnd),
                is_scalar(c@),
                rnd.m_tilde@.len() == hidden_count(disclosed@, disclosed@.len()),
                m_hat@.len() == hidden_count(disclosed@, k as nat),
                all_scalars(m_hat@),
                forall|j: int|
                    0 <= j < k && !disclosed@[j] ==> #[trigger] m_hat@[hidden_count(disclosed@, j as nat) as int]@
                        == mul_add(c@, messages@[j]@, rnd.m_tilde@[hidden_count(disclosed@, j as nat) as int]@),
            decreases messages@.len() - k,
        {
            proof {
                lemma_counts_grow(disclosed@, (k + 1) as nat, disclosed@.len());
            }
            if !disclosed[k] {
                let h = m_hat.len();
                let v = scalar_mul_add(c.as_slice(), messages[k].as_slice(), rnd.m_tilde[h].as_slice());
                m_hat.push(v);
                proof {
                    assert forall|j: int|
                        0 <= j < k + 1 && !disclosed@[j] implies #[trigger] m_hat@[hidden_count(disclosed@, j as nat) as int]@
                        == mul_add(c@, messages@[j]@, rnd.m_tilde@[hidden_count(disclosed@, j as nat) as int]@) by {
                        if j < k {
                            lemma_counts_grow(disclosed@, (j + 1) as nat, k as nat);
                        }
                    }
                }
            }
            k = k + 1;
        }
        let p = BBSplusPoKSignature { a_prime, a_bar, d, c, e_hat, r2_hat, r3_hat, s_hat, m_hat };
        assert(proof_gen_spec(cs, pk.w@, *sig, header@, ph@, messages@, disclosed@, *rnd, r3@, p));
        Ok(p)
    }
}

/// The compressed identity of G1.
fn identity_bytes() -> (r: Vec<u8>)
    ensures
        r@ == identity_g1(),
{
    reveal(identity_g1);
    let mut v: Vec<u8> = Vec::new();
    v.push(0xc0u8);
    let mut k: usize = 0;
    while k < 47
        invariant
            k <= 47,
            v@ == seq![0xc0u8].add(Seq::new(k as nat, |i: int| 0u8)),
        decreases 47 - k,
    {
        v.push(0u8);
        k = k + 1;
        assert(v@ =~= seq![0xc0u8].add(Seq::new(k as nat, |i: int| 0u8)));
    }
    v
}

/// The scalar `r - 1`.
fn minus_one_bytes() -> (r: Vec<u8>)
    ensures
        r@ == minus_one(),
        is_scalar(r@),
{
    let one = scalar_one();
    let r = scalar_neg(one.as_slice());
    proof {
        lemma_bytes32_of(r@);
    }
    r
}

/// Whether every entry is a scalar.
fn all_valid_scalars(xs: &[Vec<u8>]) -> (r: bool)
    ensures
        r == all_scalars(xs@),
{
    let mut k: usize = 0;
    while k < xs.len()
        invariant
            k <= xs@.len(),
            forall|j: int| 0 <= j < k ==> is_scalar(#[trigger] xs@[j]@),
        decreases xs@.len() - k,
    {
        if !scalar_check(xs[k].as_slice()) {
            return false;
        }
        k = k + 1;
    }
    true
}

impl BBSplusPoKSignature {
    fn well_formed(
        &self,
        pk: &BBSplusPublicKey,
        disclosed: &[bool],
        disclosed_messages: &[Vec<u8>],
    ) -> (r: bool)
        ensures
            r == proof_well_formed(pk.w@, *self, disclosed@, disclosed_messages@),
    {
        let l = disclosed.len();
        let hidden = count_hidden(disclosed);
        proof {
            lemma_counts_grow(disclosed@, l as nat, l as nat);
        }
        g1_check(self.a_prime.as_slice()) && g1_check(self.a_bar.as_slice()) && g1_check(
            self.d.as_slice(),
        ) && scalar_check(self.c.as_slice()) && scalar_check(self.e_hat.as_slice())
            && scalar_check(self.r2_hat.as_slice()) && scalar_check(self.r3_hat.as_slice())
            && scalar_check(self.s_hat.as_slice()) && self.m_hat.len() == hidden
            && all_valid_scalars(self.m_hat.as_slice()) && disclosed_messages.len() == l - hidden
            && all_valid_scalars(disclosed_messages) && g2_check(pk.w.as_slice())
    }

    fn recompute_c1(&self, cs: Ciphersuite, gens: &Generators) -> (r: Vec<u8>)
        requires
            gens.q1@ == generator_point(cs, 0),
            gens.all_valid(),
            self.a_prime@.len() == 48 && is_g1_point_of(self.a_prime@),
            self.a_bar@.len() == 48 && is_g1_point_of(self.a_bar@),
            self.d@.len() == 48 && is_g1_point_of(self.d@),
            is_scalar(self.c@) && is_scalar(self.e_hat@) && is_scalar(self.r2_hat@),
        ensures
            r@ == verify_c1(cs, *self),
    {
        reveal(verify_c1);
        let m1 = minus_one_bytes();
        let t = g1_mul(self.d.as_slice(), m1.as_slice());
        let t = g1_add(self.a_bar.as_slice(), t.as_slice());
        let t = g1_mul(t.as_slice(), self.c.as_slice());
        let u = g1_mul(self.a_prime.as_slice(), self.e_hat.as_slice());
        let t = g1_add(t.as_slice(), u.as_slice());
        let u = g1_mul(gens.q1.as_slice(), self.r2_hat.as_slice());
        g1_add(t.as_slice(), u.as_slice())
    }

    fn recompute_c2(
        &self,
        cs: Ciphersuite,
        gens: &Generators,
        disclosed: &[bool],
        disclosed_messages: &[Vec<u8>],
        domain: &Vec<u8>,
    ) -> (r: Vec<u8>)
        requires
            gens.is_derived(cs, disclosed@.len()),
            gens.all_valid(),
            is_scalar(domain@),
            self.d@.len() == 48 && is_g1_point_of(self.d@),
            is_scalar(self.c@) && is_scalar(self.r3_hat@) && is_scalar(self.s_hat@),
            self.m_hat@.len() == hidden_count(disclosed@, disclosed@.len()),
            all_scalars(self.m_hat@),
            disclosed_messages@.len() == disclosed_count(disclosed@, disclosed@.len()),
            all_scalars(disclosed_messages@),
        ensures
            r@ == verify_c2(cs, *self, disclosed@, disclosed_messages@, domain@),
    {
        reveal(verify_c2);
        let u = g1_mul(gens.q2.as_slice(), domain.as_slice());
        let t_base = g1_add(gens.base_point.as_slice(), u.as_slice());
        let t = disclosed_sum(cs, gens, &t_base, disclosed, disclosed_messages);
        let tc = g1_mul(t.as_slice(), self.c.as_slice());
        let neg_r3 = scalar_neg(self.r3_hat.as_slice());
        proof {
            lemma_bytes32_of(neg_r3@);
        }
        let u = g1_mul(self.d.as_slice(), neg_r3.as_slice());
        let v = g1_add(tc.as_slice(), u.as_slice());
        let u = g1_mul(gens.q1.as_slice(), self.s_hat.as_slice());
        let c2_base = g1_add(v.as_slice(), u.as_slice());
        hidden_sum(cs, gens, &c2_base, disclosed, &self.m_hat)
    }

    #[verifier::spinoff_prover]
    #[verifier::rlimit(100)]
    fn equations_hold(
        &self,
        cs: Ciphersuite,
        pk: &BBSplusPublicKey,
        header: &[u8],
        ph: &[u8],
        disclosed: &[bool],
        disclosed_messages: &[Vec<u8>],
    ) -> (r: bool)
        requires
            disclosed@.len() < MAX_MESSAGES,
            proof_well_formed(pk.w@, *self, disclosed@, disclosed_messages@),
        ensures
            r == (be_int(self.c@) == challenge_value(
                cs,
                challenge_input(
                    self.a_prime@,
                    self.a_bar@,
                    self.d@,
                    verify_c1(cs, *self),
                    verify_c2(
                        cs,
                        *self,
                        disclosed@,
                        disclosed_messages@,
                        bytes32_of(domain_value(cs, pk.w@, header@, disclosed@.len())),
                    ),
                    disclosed@,
                    disclosed_messages@,
                    bytes32_of(domain_value(cs, pk.w@, header@, disclosed@.len())),
                    ph@,
                ),
            ) && pairing_eq_of(self.a_prime@, pk.w@, self.a_bar@, g2_generator_spec())),
    {
        let gens = create_generators(cs, disclosed.len());
        let domain = calculate_domain(cs, pk, &gens, header);
        let c1 = self.recompute_c1(cs, &gens);
        let c2 = self.recompute_c2(cs, &gens, disclosed, disclosed_messages, &domain);
        proof {
            lemma_counts_grow(disclosed@, disclosed@.len(), disclosed@.len());
        }
        let cv = calculate_challenge(
            cs,
            &self.a_prime,
            &self.a_bar,
            &self.d,
            &c1,
            &c2,
            disclosed,
            disclosed_messages,
            &domain,
            ph,
        );
        proof {
            lemma_bytes32_of(self.c@);
            lemma_bytes32_of(cv@);
        }
        let ghost chv = challenge_value(
            cs,
            challenge_input(self.a_prime@, self.a_bar@, self.d@, c1@, c2@, disclosed@, disclosed_messages@, domain@, ph@),
        );
        assert(be_int(cv@) == chv);
        let same = bytes_eq(self.c.as_slice(), cv.as_slice());
        assert(same == (be_int(self.c@) == chv)) by {
            if be_int(self.c@) == chv {
                lemma_be_int_injective(self.c@, cv@);
            }
        }
        if !same {
            return false;
        }
        let p2 = g2_generator();
        pairing_eq(self.a_prime.as_slice(), pk.w.as_slice(), self.a_bar.as_slice(), p2.as_slice())
    }

    /// Verifies the proof against the disclosed messages, which stand at the
    /// positions whose `disclosed` flag is set, in ascending order. Every
    /// failure, of decoding or of an equation, is `false`.
    pub fn proof_verify(
        &self,
        cs: Ciphersuite,
        pk: &BBSplusPublicKey,
        header: &[u8],
        ph: &[u8],
        disclosed: &[bool],
        disclosed_messages: &[Vec<u8>],
    ) -> (r: bool)
        requires
            disclosed@.len() < MAX_MESSAGES,
        ensures
            r == proof_verify_spec(cs, pk.w@, *self, header@, ph@, disclosed@, disclosed_messages@),
    {
        if !self.well_formed(pk, disclosed, disclosed_messages) {
            return false;
        }
        let id = identity_bytes();
        if bytes_eq(self.a_prime.as_slice(), id.as_slice()) {
            return false;
        }
        self.equations_hold(cs, pk, header, ph, disclosed, disclosed_messages)
    }
}

} // verus!
