use vstd::prelude::*;
use crate::bytes::{
    be8, be_int, bytes32_of, concat_all, extend_bytes, lemma_bytes32_of, u64_be_bytes,
};
use crate::curve::{
    g1_add, g1_add_of, g1_check, g1_mul, g1_mul_of, g2_check, g2_pub, g2_pub_of, is_g1_point_of,
    is_g2_point_of, is_scalar, pairing_eq, pairing_eq_of, g2_add, g2_add_of, g2_generator, g2_generator_spec, scalar_add, scalar_check,
    scalar_invert, scalar_order,
};
use crate::error::Error;
use crate::generators::{base_point_spec, create_generators, generator_point, Generators};
use crate::hashing::{h2s_value, hash_to_scalar};
use crate::suite::{dst_spec, suite_id, Ciphersuite, Purpose};

verus! {

/// The largest number of messages one signature covers.
pub const MAX_MESSAGES: usize = 0xffff_0000;

/// A BBS+ secret key: the scalar `x`.
#[derive(Clone, Debug)]
pub struct BBSplusSecretKey {
    pub x: Vec<u8>,
}

/// A BBS+ public key: the compressed G2 point `W = x·P2`.
#[derive(Clone, Debug)]
pub struct BBSplusPublicKey {
    pub w: Vec<u8>,
}

/// A BBS+ signature `(A, e, s)`.
#[derive(Clone, Debug)]
pub struct BBSplusSignature {
    pub a: Vec<u8>,
    pub e: Vec<u8>,
    pub s: Vec<u8>,
}

impl BBSplusSecretKey {
    /// The public key `W = x·P2`.
    pub fn public_key(&self) -> (r: BBSplusPublicKey)
        requires
            is_scalar(self.x@),
        ensures
            r.w@ == g2_pub_of(self.x@),
            r.w@.len() == 96,
            is_g2_point_of(r.w@),
    {
        BBSplusPublicKey { w: g2_pub(self.x.as_slice()) }
    }
}

/// The compressed message generators `H1..Hk`, one after the other.
pub open spec fn hs_octets(cs: Ciphersuite, k: nat) -> Seq<u8>
    decreases k,
{
    if k == 0 {
        Seq::<u8>::empty()
    } else {
        hs_octets(cs, (k - 1) as nat) + generator_point(cs, (k + 1) as nat)
    }
}

/// The input of the domain scalar: `W || I2OSP(L, 8) || Q1 || Q2 || H1..HL ||
/// ciphersuite_id || I2OSP(len(header), 8) || header`.
pub open spec fn domain_input(cs: Ciphersuite, w: Seq<u8>, header: Seq<u8>, l: nat) -> Seq<u8> {
    w + be8(l) + generator_point(cs, 0) + generator_point(cs, 1) + hs_octets(cs, l) + suite_id(cs)
        + be8(header.len()) + header
}

/// The domain scalar that binds a signature to the key, the generators, the
/// ciphersuite and the header.
pub open spec fn domain_value(cs: Ciphersuite, w: Seq<u8>, header: Seq<u8>, l: nat) -> nat {
    h2s_value(cs, domain_input(cs, w, header, l), dst_spec(cs, Purpose::HashToScalar), 1, 0)
}

/// The input from which `e` and `s` are derived: `x || domain || m_1 || ... || m_L`.
pub open spec fn es_input(cs: Ciphersuite, x: Seq<u8>, w: Seq<u8>, header: Seq<u8>, msgs: Seq<Vec<u8>>) -> Seq<u8> {
    x + bytes32_of(domain_value(cs, w, header, msgs.len())) + concat_all(msgs)
}

/// The input of attempt `t` at `e` and `s`: the first attempt hashes the
/// plain input, the retry appends `I2OSP(1, 8)`.
pub open spec fn es_attempt_input(cs: Ciphersuite, x: Seq<u8>, w: Seq<u8>, header: Seq<u8>, msgs: Seq<Vec<u8>>, t: nat) -> Seq<u8> {
    if t == 0 {
        es_input(cs, x, w, header, msgs)
    } else {
        es_input(cs, x, w, header, msgs) + be8(t)
    }
}

/// The `i`-th of the two scalars `e`, `s` that attempt `t` of signing derives.
pub open spec fn es_value(cs: Ciphersuite, x: Seq<u8>, w: Seq<u8>, header: Seq<u8>, msgs: Seq<Vec<u8>>, t: nat, i: int) -> nat {
    h2s_value(cs, es_attempt_input(cs, x, w, header, msgs, t), dst_spec(cs, Purpose::HashToScalar), 2, i)
}

/// Whether attempt `t` gives an `e` with `x + e` non-zero modulo `r`.
pub open spec fn attempt_ok(cs: Ciphersuite, x: Seq<u8>, w: Seq<u8>, header: Seq<u8>, msgs: Seq<Vec<u8>>, t: nat) -> bool {
    (be_int(x) + es_value(cs, x, w, header, msgs, t, 0)) % scalar_order() != 0
}

/// Derives `(e, s)` from an attempt's input.
fn derive_es(cs: Ciphersuite, input: &[u8]) -> (r: (Vec<u8>, Vec<u8>))
    ensures
        r.0@ == bytes32_of(h2s_value(cs, input@, dst_spec(cs, Purpose::HashToScalar), 2, 0)),
        r.1@ == bytes32_of(h2s_value(cs, input@, dst_spec(cs, Purpose::HashToScalar), 2, 1)),
        be_int(r.0@) == h2s_value(cs, input@, dst_spec(cs, Purpose::HashToScalar), 2, 0),
        is_scalar(r.0@),
        is_scalar(r.1@),
{
    let dst = cs.dst(Purpose::HashToScalar);
    let es = match hash_to_scalar(cs, input, dst.as_slice(), 2) {
        Ok(v) => v,
        Err(_) => vstd::pervasive::unreached(),
    };
    let e = es[0].clone();
    let s = es[1].clone();
    proof {
        lemma_bytes32_of(e@);
        lemma_bytes32_of(s@);
    }
    (e, s)
}

/// `B = P1 + Q1·s + Q2·domain + Σ_(i<k) H_(i+1)·m_i`.
pub open spec fn b_acc(cs: Ciphersuite, msgs: Seq<Vec<u8>>, s: Seq<u8>, dom: Seq<u8>, k: nat) -> Seq<u8>
    decreases k,
{
    if k == 0 {
        g1_add_of(
            g1_add_of(base_point_spec(cs), g1_mul_of(generator_point(cs, 0), s)),
            g1_mul_of(generator_point(cs, 1), dom),
        )
    } else {
        g1_add_of(
            b_acc(cs, msgs, s, dom, (k - 1) as nat),
            g1_mul_of(generator_point(cs, (k + 1) as nat), msgs[k - 1]@),
        )
    }
}

/// `B` of a signature on `msgs` under the public key `w` and `header`.
pub open spec fn b_value(cs: Ciphersuite, w: Seq<u8>, header: Seq<u8>, msgs: Seq<Vec<u8>>, s: Seq<u8>) -> Seq<u8> {
    b_acc(cs, msgs, s, bytes32_of(domain_value(cs, w, header, msgs.len())), msgs.len())
}

/// Whether every message is a scalar.
pub open spec fn all_scalars(msgs: Seq<Vec<u8>>) -> bool {
    forall|j: int| 0 <= j < msgs.len() ==> is_scalar(#[trigger] msgs[j]@)
}

/// Whether `sig` is accepted for `msgs` under `w` and `header`: the elements
/// decode and `e(A, W + e·P2) == e(B, P2)`.
pub open spec fn verify_spec(cs: Ciphersuite, w: Seq<u8>, sig: BBSplusSignature, header: Seq<u8>, msgs: Seq<Vec<u8>>) -> bool {
    &&& sig.a@.len() == 48 && is_g1_point_of(sig.a@)
    &&& is_scalar(sig.e@)
    &&& is_scalar(sig.s@)
    &&& w.len() == 96 && is_g2_point_of(w)
    &&& pairing_eq_of(
        sig.a@,
        g2_add_of(w, g2_pub_of(sig.e@)),
        b_value(cs, w, header, msgs, sig.s@),
        g2_generator_spec(),
    )
}

/// The domain scalar, as 32 bytes.
pub(crate) fn calculate_domain(cs: Ciphersuite, pk: &BBSplusPublicKey, gens: &Generators, header: &[u8]) -> (r: Vec<u8>)
    requires
        gens.is_derived(cs, gens.message_generators@.len()),
        gens.message_generators@.len() < MAX_MESSAGES,
    ensures
        r@ == bytes32_of(domain_value(cs, pk.w@, header@, gens.message_generators@.len())),
        is_scalar(r@),
{
    let l = gens.message_generators.len();
    let mut input: Vec<u8> = pk.w.clone();
    let lb = u64_be_bytes(l as u64);
    extend_bytes(&mut input, lb.as_slice());
    extend_bytes(&mut input, gens.q1.as_slice());
    extend_bytes(&mut input, gens.q2.as_slice());
    let mut k: usize = 0;
    while k < l
        invariant
            k <= l,
            l == gens.message_generators@.len(),
            gens.is_derived(cs, l as nat),
            input@ == pk.w@ + be8(l as nat) + generator_point(cs, 0) + generator_point(cs, 1)
                + hs_octets(cs, k as nat),
        decreases l - k,
    {
        extend_bytes(&mut input, gens.message_generators[k].as_slice());
        k = k + 1;
        assert(gens.message_generators@[k - 1]@ == generator_point(cs, (k - 1 + 2) as nat));
    }
    let id = cs.id();
    extend_bytes(&mut input, id.as_slice());
    let hl = u64_be_bytes(header.len() as u64);
    extend_bytes(&mut input, hl.as_slice());
    extend_bytes(&mut input, header);
    assert(input@ =~= domain_input(cs, pk.w@, header@, l as nat));
    let dst = cs.dst(Purpose::HashToScalar);
    let out = hash_to_scalar(cs, input.as_slice(), dst.as_slice(), 1);
    let v = match out {
        Ok(v) => v,
        Err(_) => vstd::pervasive::unreached(),
    };
    let r = v[0].clone();
    proof {
        lemma_bytes32_of(r@);
    }
    r
}

/// `B = P1 + Q1·s + Q2·domain + Σ H_i·m_i`.
pub(crate) fn calculate_b(
    cs: Ciphersuite,
    gens: &Generators,
    messages: &[Vec<u8>],
    s: &[u8],
    domain: &[u8],
) -> (r: Vec<u8>)
    requires
        gens.is_derived(cs, messages@.len() as nat),
        gens.all_valid(),
        all_scalars(messages@),
        is_scalar(s@),
        is_scalar(domain@),
    ensures
        r@ == b_acc(cs, messages@, s@, domain@, messages@.len() as nat),
        r@.len() == 48,
        is_g1_point_of(r@),
{
    let t1 = g1_mul(gens.q1.as_slice(), s);
    let t2 = g1_mul(gens.q2.as_slice(), domain);
    let b0 = g1_add(gens.base_point.as_slice(), t1.as_slice());
    let mut acc = g1_add(b0.as_slice(), t2.as_slice());
    let mut k: usize = 0;
    while k < messages.len()
        invariant
            k <= messages@.len(),
            gens.is_derived(cs, messages@.len() as nat),
            gens.all_valid(),
            all_scalars(messages@),
            acc@ == b_acc(cs, messages@, s@, domain@, k as nat),
            acc@.len() == 48,
            is_g1_point_of(acc@),
        decreases messages@.len() - k,
    {
        let term = g1_mul(gens.message_generators[k].as_slice(), messages[k].as_slice());
        acc = g1_add(acc.as_slice(), term.as_slice());
        k = k + 1;
    }
    acc
}

/// Concatenates byte strings.
pub(crate) fn concat_messages(messages: &[Vec<u8>]) -> (r: Vec<u8>)
    ensures
        r@ == concat_all(messages@),
{
    let mut out: Vec<u8> = Vec::new();
    let mut k: usize = 0;
    while k < messages.len()
        invariant
            k <= messages@.len(),
            out@ == concat_all(messages@.subrange(0, k as int)),
        decreases messages@.len() - k,
    {
        extend_bytes(&mut out, messages[k].as_slice());
        k = k + 1;
        assert(messages@.subrange(0, k as int).drop_last() =~= messages@.subrange(0, k - 1 as int));
    }
    assert(messages@.subrange(0, messages@.len() as int) =~= messages@);
    out
}

impl BBSplusSignature {
    /// Signs `messages` (scalars) under `header`: derives `domain`, then `e` and
    /// `s` from the secret key, the domain and the messages, and returns
    /// `A = B·(x + e)^(-1)`. Where `x + e` is zero modulo `r`, `e` and `s` are
    /// derived once more from the input followed by `I2OSP(1, 8)`; an internal
    /// error comes only where that attempt fails too.
    pub fn sign(
        cs: Ciphersuite,
        sk: &BBSplusSecretKey,
        pk: &BBSplusPublicKey,
        header: &[u8],
        messages: &[Vec<u8>],
    ) -> (r: Result<Self, Error>)
        requires
            is_scalar(sk.x@),
            all_scalars(messages@),
            messages@.len() < MAX_MESSAGES,
        ensures
            r is Err == (!attempt_ok(cs, sk.x@, pk.w@, header@, messages@, 0) && !attempt_ok(
                cs,
                sk.x@,
                pk.w@,
                header@,
                messages@,
                1,
            )),
            r is Err ==> r == Err::<Self, Error>(Error::Internal),
            r matches Ok(sig) ==> {
                let t: nat = if attempt_ok(cs, sk.x@, pk.w@, header@, messages@, 0) {
                    0
                } else {
                    1
                };
                &&& sig.e@ == bytes32_of(es_value(cs, sk.x@, pk.w@, header@, messages@, t, 0))
                &&& sig.s@ == bytes32_of(es_value(cs, sk.x@, pk.w@, header@, messages@, t, 1))
                &&& is_scalar(sig.e@) && is_scalar(sig.s@)
                &&& sig.a@.len() == 48 && is_g1_point_of(sig.a@)
                &&& exists|inv: Seq<u8>|
                    is_scalar(inv) && (((be_int(sk.x@) + be_int(sig.e@)) % scalar_order())
                        * be_int(inv)) % scalar_order() == 1 && sig.a@ == g1_mul_of(
                        b_value(cs, pk.w@, header@, messages@, sig.s@),
                        inv,
                    )
            },
    {
        let gens = create_generators(cs, messages.len());
        let domain = calculate_domain(cs, pk, &gens, header);
        let mut input: Vec<u8> = sk.x.clone();
        extend_bytes(&mut input, domain.as_slice());
        let msgs = concat_messages(messages);
        extend_bytes(&mut input, msgs.as_slice());
        assert(input@ =~= es_input(cs, sk.x@, pk.w@, header@, messages@));
        let (mut e, mut s) = derive_es(cs, input.as_slice());
        let mut xe = scalar_add(sk.x.as_slice(), e.as_slice());
        let mut found = scalar_invert(xe.as_slice());
        if found.is_none() {
            let one = u64_be_bytes(1);
            extend_bytes(&mut input, one.as_slice());
            assert(input@ =~= es_attempt_input(cs, sk.x@, pk.w@, header@, messages@, 1));
            let (e1, s1) = derive_es(cs, input.as_slice());
            e = e1;
            s = s1;
            xe = scalar_add(sk.x.as_slice(), e.as_slice());
            found = scalar_invert(xe.as_slice());
        }
        let inv = match found {
            Some(v) => v,
            None => {
                return Err(Error::Internal);
            },
        };
        let b = calculate_b(cs, &gens, messages, s.as_slice(), domain.as_slice());
        let a = g1_mul(b.as_slice(), inv.as_slice());
        let sig = BBSplusSignature { a, e, s };
        assert(sig.a@ == g1_mul_of(b_value(cs, pk.w@, header@, messages@, sig.s@), inv@));
        Ok(sig)
    }

    /// Verifies the signature on `messages` (scalars) under `header`: `A` must
    /// be a subgroup point, `e` and `s` scalars, `W` a G2 subgroup point, and
    /// `e(A, W + e·P2) == e(B, P2)`.
    pub fn verify(
        &self,
        cs: Ciphersuite,
        pk: &BBSplusPublicKey,
        header: &[u8],
        messages: &[Vec<u8>],
    ) -> (r: bool)
        requires
            all_scalars(messages@),
            messages@.len() < MAX_MESSAGES,
        ensures
            r == verify_spec(cs, pk.w@, *self, header@, messages@),
    {
        if !g1_check(self.a.as_slice()) || !scalar_check(self.e.as_slice()) || !scalar_check(
            self.s.as_slice(),
        ) || !g2_check(pk.w.as_slice()) {
            return false;
        }
        let gens = create_generators(cs, messages.len());
        let domain = calculate_domain(cs, pk, &gens, header);
        let b = calculate_b(cs, &gens, messages, self.s.as_slice(), domain.as_slice());
        let e_p2 = g2_pub(self.e.as_slice());
        let v = g2_add(pk.w.as_slice(), e_p2.as_slice());
        let p2 = g2_generator();
        pairing_eq(self.a.as_slice(), v.as_slice(), b.as_slice(), p2.as_slice())
    }
}

} // verus!
