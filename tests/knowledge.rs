use bbs_cl03::generators::create_generators;
use bbs_cl03::hashing::{hash_to_scalar, map_message_to_scalar};
use bbs_cl03::knowledge::{BBSplusPoKSignature, ProofRandomness};
use bbs_cl03::signature::{BBSplusPublicKey, BBSplusSecretKey, BBSplusSignature};
use bbs_cl03::suite::{Ciphersuite, Purpose};

fn scalars_from(cs: Ciphersuite, seed: &[u8], n: usize) -> Vec<Vec<u8>> {
    let dst = cs.dst(Purpose::HashToScalar);
    hash_to_scalar(cs, seed, &dst, n).unwrap()
}

fn setup(cs: Ciphersuite, n: usize) -> (BBSplusPublicKey, BBSplusSignature, Vec<Vec<u8>>) {
    let x = scalars_from(cs, b"proof test key material", 1).remove(0);
    let sk = BBSplusSecretKey { x };
    let pk = sk.public_key();
    let msgs: Vec<Vec<u8>> = (0..n)
        .map(|i| map_message_to_scalar(cs, format!("message {}", i).as_bytes(), None).unwrap())
        .collect();
    let sig = BBSplusSignature::sign(cs, &sk, &pk, b"header", &msgs).unwrap();
    (pk, sig, msgs)
}

fn randomness(cs: Ciphersuite, seed: &[u8], hidden: usize) -> ProofRandomness {
    let mut v = scalars_from(cs, seed, 6 + hidden);
    let m_tilde = v.split_off(6);
    ProofRandomness {
        r1: v[0].clone(),
        r2: v[1].clone(),
        e_tilde: v[2].clone(),
        r2_tilde: v[3].clone(),
        r3_tilde: v[4].clone(),
        s_tilde: v[5].clone(),
        m_tilde,
    }
}

fn disclosed_of(msgs: &[Vec<u8>], mask: &[bool]) -> Vec<Vec<u8>> {
    msgs.iter().zip(mask.iter()).filter(|(_, d)| **d).map(|(m, _)| m.clone()).collect()
}

fn check_partition(cs: Ciphersuite, mask: &[bool]) {
    let (pk, sig, msgs) = setup(cs, mask.len());
    let hidden = mask.iter().filter(|d| !**d).count();
    let rnd = randomness(cs, b"blindings one", hidden);
    let proof = BBSplusPoKSignature::proof_gen(cs, &pk, &sig, b"header", b"nonce", &msgs, mask, &rnd).unwrap();
    assert_eq!(proof.m_hat.len(), hidden);
    let dm = disclosed_of(&msgs, mask);
    assert!(proof.proof_verify(cs, &pk, b"header", b"nonce", mask, &dm));
    assert!(!proof.proof_verify(cs, &pk, b"header", b"other nonce", mask, &dm));
    assert!(!proof.proof_verify(cs, &pk, b"other header", b"nonce", mask, &dm));
}

#[test]
fn proof_verifies_for_every_partition_of_three() {
    for bits in 0..8u8 {
        let mask = [bits & 1 != 0, bits & 2 != 0, bits & 4 != 0];
        check_partition(Ciphersuite::Sha256, &mask);
    }
}

#[test]
fn proof_verifies_shake256() {
    check_partition(Ciphersuite::Shake256, &[true, false, true, false, false]);
}

#[test]
fn proofs_with_other_randomness_differ_and_verify() {
    let cs = Ciphersuite::Sha256;
    let mask = [true, false, false, true];
    let (pk, sig, msgs) = setup(cs, 4);
    let p1 = BBSplusPoKSignature::proof_gen(cs, &pk, &sig, b"header", b"n", &msgs, &mask, &randomness(cs, b"one", 2)).unwrap();
    let p2 = BBSplusPoKSignature::proof_gen(cs, &pk, &sig, b"header", b"n", &msgs, &mask, &randomness(cs, b"two", 2)).unwrap();
    assert_ne!(p1.a_prime, p2.a_prime);
    assert_ne!(p1.c, p2.c);
    let dm = disclosed_of(&msgs, &mask);
    assert!(p1.proof_verify(cs, &pk, b"header", b"n", &mask, &dm));
    assert!(p2.proof_verify(cs, &pk, b"header", b"n", &mask, &dm));
}

#[test]
fn proof_rejects_changed_disclosed_message() {
    let cs = Ciphersuite::Sha256;
    let mask = [true, false, true];
    let (pk, sig, msgs) = setup(cs, 3);
    let p = BBSplusPoKSignature::proof_gen(cs, &pk, &sig, b"header", b"n", &msgs, &mask, &randomness(cs, b"r", 1)).unwrap();
    let mut dm = disclosed_of(&msgs, &mask);
    dm.swap(0, 1);
    assert!(!p.proof_verify(cs, &pk, b"header", b"n", &mask, &dm));
    let mut bad = p.clone();
    bad.e_hat[31] ^= 1;
    assert!(!bad.proof_verify(cs, &pk, b"header", b"n", &mask, &disclosed_of(&msgs, &mask)));
}

#[test]
fn proof_gen_rejects_bad_shapes() {
    let cs = Ciphersuite::Sha256;
    let (pk, sig, msgs) = setup(cs, 3);
    let rnd = randomness(cs, b"r", 2);
    assert!(BBSplusPoKSignature::proof_gen(cs, &pk, &sig, b"header", b"n", &msgs, &[true, false], &rnd).is_err());
    assert!(BBSplusPoKSignature::proof_gen(cs, &pk, &sig, b"header", b"n", &msgs, &[true, true, false], &rnd).is_err());
    let mut zero = randomness(cs, b"r", 1);
    zero.r1 = vec![0u8; 32];
    assert!(BBSplusPoKSignature::proof_gen(cs, &pk, &sig, b"header", b"n", &msgs, &[true, true, false], &zero).is_err());
    let g = create_generators(cs, 3);
    assert_eq!(g.message_generators.len(), 3);
}
