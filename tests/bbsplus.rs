use bbs_cl03::commitment::{cl03_indexes_valid, BBSplus, CL03Commitment, CL03PublicKey, Commitment, CL03};
use bbs_cl03::curve::is_valid_g1_point;
use bbs_cl03::error::Error;
use bbs_cl03::generators::create_generators;
use bbs_cl03::hashing::{hash_to_scalar, map_message_to_scalar};
use bbs_cl03::signature::{BBSplusPublicKey, BBSplusSecretKey, BBSplusSignature};
use bbs_cl03::suite::{Ciphersuite, Purpose};

const SAMPLE_MESSAGES: [&str; 10] = [
    "9872ad089e452c7b6e283dfac2a80d58e8d0ff71cc4d5e310a1debdda4a45f02",
    "87a8bd656d49ee07b8110e1d8fd4f1dcef6fb9bc368c492d9bc8c4f98a739ac6",
    "96012096adda3f13dd4adbe4eea481a4c4b5717932b73b00e31807d3c5894b90",
    "ac55fb33a75909edac8994829b250779298aa75d69324a365733f16c333fa943",
    "d183ddc6e2665aa4e2f088af9297b78c0d22b4290273db637ed33ff5cf703151",
    "515ae153e22aae04ad16f759e07237b43022cb1ced4c176e0999c6a8ba5817cc",
    "496694774c5604ab1b2544eababcf0f53278ff5040c1e77c811656e8220417a2",
    "77fe97eb97a1ebe2e81e4e3597a3ee740a66e9ef2412472c23364568523f8b91",
    "7372e9daa5ed31e6cd5c825eac1b855e84476a1d94932aa348e07b73",
    "c344136d9ab02da4dd5908bbba913ae6f58c2cc844b802a6f811f5fb075f9b80",
];

fn hex_bytes(s: &str) -> Vec<u8> {
    (0..s.len() / 2).map(|i| u8::from_str_radix(&s[2 * i..2 * i + 2], 16).unwrap()).collect()
}

fn key_pair(cs: Ciphersuite) -> (BBSplusSecretKey, BBSplusPublicKey) {
    let material = b"this-IS-just-an-Test-IKM-to-generate-$e(r@T#-key";
    let dst = cs.dst(Purpose::HashToScalar);
    let x = hash_to_scalar(cs, material, &dst, 1).unwrap().remove(0);
    let sk = BBSplusSecretKey { x };
    let pk = sk.public_key();
    (sk, pk)
}

fn scalars(cs: Ciphersuite, msgs: &[Vec<u8>]) -> Vec<Vec<u8>> {
    msgs.iter().map(|m| map_message_to_scalar(cs, m, None).unwrap()).collect()
}

fn sample_messages(n: usize) -> Vec<Vec<u8>> {
    SAMPLE_MESSAGES[..n].iter().map(|m| hex_bytes(m)).collect()
}

fn check_signature_case(cs: Ciphersuite, header: &[u8], msgs: Vec<Vec<u8>>) -> BBSplusSignature {
    let (sk, pk) = key_pair(cs);
    let ms = scalars(cs, &msgs);
    let sig = BBSplusSignature::sign(cs, &sk, &pk, header, &ms).unwrap();
    assert_eq!(sig.a.len(), 48);
    assert_eq!(sig.e.len(), 32);
    assert_eq!(sig.s.len(), 32);
    assert!(sig.verify(cs, &pk, header, &ms));
    let again = BBSplusSignature::sign(cs, &sk, &pk, header, &ms).unwrap();
    assert_eq!((&again.a, &again.e, &again.s), (&sig.a, &sig.e, &sig.s));
    let mut other_header = header.to_vec();
    other_header.push(0);
    assert!(!sig.verify(cs, &pk, &other_header, &ms));
    sig
}

fn check_map_message(cs: Ciphersuite) {
    for m in SAMPLE_MESSAGES.iter() {
        let bytes = hex_bytes(m);
        let s = map_message_to_scalar(cs, &bytes, None).unwrap();
        assert_eq!(s.len(), 32);
        assert!(s[0] < 0x74);
        assert_eq!(map_message_to_scalar(cs, &bytes, None).unwrap(), s);
        let dst = cs.dst(Purpose::MapMessage);
        assert_eq!(map_message_to_scalar(cs, &bytes, Some(&dst)).unwrap(), s);
    }
    let a = map_message_to_scalar(cs, &hex_bytes(SAMPLE_MESSAGES[0]), None).unwrap();
    let b = map_message_to_scalar(cs, &hex_bytes(SAMPLE_MESSAGES[1]), None).unwrap();
    assert_ne!(a, b);
    let long = vec![b'x'; 256];
    assert_eq!(map_message_to_scalar(cs, b"m", Some(&long)), Err(Error::InvalidArgument));
}

fn check_generators(cs: Ciphersuite) {
    let g = create_generators(cs, 10);
    let mut all = vec![g.q1.clone(), g.q2.clone()];
    all.extend(g.message_generators.iter().cloned());
    assert_eq!(all.len(), 12);
    for (i, p) in all.iter().enumerate() {
        assert!(is_valid_g1_point(p));
        for q in all[i + 1..].iter() {
            assert_ne!(p, q);
        }
    }
    assert!(is_valid_g1_point(&g.base_point));
    let small = create_generators(cs, 3);
    assert_eq!(small.q1, g.q1);
    assert_eq!(small.q2, g.q2);
    assert_eq!(small.message_generators[..], g.message_generators[..3]);
    let mut grown = small.clone();
    grown.extend(cs, 10);
    assert_eq!(grown.message_generators, g.message_generators);
}

fn check_h2s(cs: Ciphersuite, count: usize) {
    let dst = cs.dst(Purpose::HashToScalar);
    let r = hash_to_scalar(cs, b"abc", &dst, count).unwrap();
    assert_eq!(r.len(), count);
    for s in r.iter() {
        assert_eq!(s.len(), 32);
        assert!(s[0] < 0x74);
    }
    assert_eq!(hash_to_scalar(cs, b"abc", &dst, count).unwrap(), r);
    let one = hash_to_scalar(cs, b"abc", &dst, 1).unwrap();
    if count > 1 {
        assert_ne!(one[0], r[0]);
    }
    assert_eq!(hash_to_scalar(cs, b"abc", &dst, 0), Err(Error::InvalidArgument));
}

#[test]
fn map_message_to_scalar_as_hash_sha256() {
    check_map_message(Ciphersuite::Sha256);
}

#[test]
fn map_message_to_scalar_as_hash_shake256() {
    check_map_message(Ciphersuite::Shake256);
}

#[test]
fn message_generators_sha256() {
    check_generators(Ciphersuite::Sha256);
}

#[test]
fn message_generators_shake256() {
    check_generators(Ciphersuite::Shake256);
}

#[test]
fn msg_signature_sha256_1() {
    check_signature_case(Ciphersuite::Sha256, &hex_bytes("11223344556677889900aabbccddeeff"), vec![vec![]]);
}

#[test]
fn msg_signature_sha256_2() {
    check_signature_case(Ciphersuite::Sha256, &hex_bytes("11223344556677889900aabbccddeeff"), sample_messages(1));
}

#[test]
fn msg_signature_sha256_3() {
    check_signature_case(Ciphersuite::Sha256, &hex_bytes("11223344556677889900aabbccddeeff"), sample_messages(2));
}

#[test]
fn msg_signature_sha256_4() {
    check_signature_case(Ciphersuite::Sha256, &hex_bytes("11223344556677889900aabbccddeeff"), sample_messages(10));
}

#[test]
fn msg_signature_sha256_5() {
    let cs = Ciphersuite::Sha256;
    let header = hex_bytes("11223344556677889900aabbccddeeff");
    let mut sig = check_signature_case(cs, &header, sample_messages(10));
    let (_, pk) = key_pair(cs);
    let ms = scalars(cs, &sample_messages(10));
    sig.a[16] ^= 0x01;
    assert!(!sig.verify(cs, &pk, &header, &ms));
}

#[test]
fn msg_signature_sha256_6() {
    let cs = Ciphersuite::Sha256;
    let header = hex_bytes("11223344556677889900aabbccddeeff");
    let sig = check_signature_case(cs, &header, sample_messages(10));
    let (_, pk) = key_pair(cs);
    let mut ms = scalars(cs, &sample_messages(10));
    ms.swap(0, 1);
    assert!(!sig.verify(cs, &pk, &header, &ms));
}

#[test]
fn msg_signature_sha256_7() {
    let cs = Ciphersuite::Sha256;
    let header = hex_bytes("11223344556677889900aabbccddeeff");
    let mut sig = check_signature_case(cs, &header, sample_messages(10));
    let (_, pk) = key_pair(cs);
    let ms = scalars(cs, &sample_messages(10));
    sig.e[31] ^= 0x01;
    assert!(!sig.verify(cs, &pk, &header, &ms));
}

#[test]
fn msg_signature_sha256_8() {
    let cs = Ciphersuite::Sha256;
    let header = hex_bytes("11223344556677889900aabbccddeeff");
    let mut sig = check_signature_case(cs, &header, sample_messages(10));
    let (_, pk) = key_pair(cs);
    let ms = scalars(cs, &sample_messages(10));
    sig.s[31] ^= 0x01;
    assert!(!sig.verify(cs, &pk, &header, &ms));
}

#[test]
fn msg_signature_sha256_9() {
    let cs = Ciphersuite::Sha256;
    let header = hex_bytes("11223344556677889900aabbccddeeff");
    let sig = check_signature_case(cs, &header, sample_messages(10));
    let (_, pk) = key_pair(cs);
    let ms = scalars(cs, &sample_messages(9));
    assert!(!sig.verify(cs, &pk, &header, &ms));
}

#[test]
fn msg_signature_shake256_1() {
    check_signature_case(Ciphersuite::Shake256, &hex_bytes("11223344556677889900aabbccddeeff"), vec![vec![]]);
}

#[test]
fn msg_signature_shake256_2() {
    check_signature_case(Ciphersuite::Shake256, &hex_bytes("11223344556677889900aabbccddeeff"), sample_messages(1));
}

#[test]
fn msg_signature_shake256_3() {
    check_signature_case(Ciphersuite::Shake256, &hex_bytes("11223344556677889900aabbccddeeff"), sample_messages(2));
}

#[test]
fn msg_signature_shake256_4() {
    check_signature_case(Ciphersuite::Shake256, &hex_bytes("11223344556677889900aabbccddeeff"), sample_messages(10));
}

#[test]
fn msg_signature_shake256_5() {
    let cs = Ciphersuite::Shake256;
    let header = hex_bytes("11223344556677889900aabbccddeeff");
    let mut sig = check_signature_case(cs, &header, sample_messages(10));
    let (_, pk) = key_pair(cs);
    let ms = scalars(cs, &sample_messages(10));
    sig.a[16] ^= 0x01;
    assert!(!sig.verify(cs, &pk, &header, &ms));
}

#[test]
fn msg_signature_shake256_6() {
    let cs = Ciphersuite::Shake256;
    let header = hex_bytes("11223344556677889900aabbccddeeff");
    let sig = check_signature_case(cs, &header, sample_messages(10));
    let (_, pk) = key_pair(cs);
    let mut ms = scalars(cs, &sample_messages(10));
    ms.swap(0, 1);
    assert!(!sig.verify(cs, &pk, &header, &ms));
}

#[test]
fn msg_signature_shake256_7() {
    let cs = Ciphersuite::Shake256;
    let header = hex_bytes("11223344556677889900aabbccddeeff");
    let mut sig = check_signature_case(cs, &header, sample_messages(10));
    let (_, pk) = key_pair(cs);
    let ms = scalars(cs, &sample_messages(10));
    sig.e[31] ^= 0x01;
    assert!(!sig.verify(cs, &pk, &header, &ms));
}

#[test]
fn msg_signature_shake256_8() {
    let cs = Ciphersuite::Shake256;
    let header = hex_bytes("11223344556677889900aabbccddeeff");
    let mut sig = check_signature_case(cs, &header, sample_messages(10));
    let (_, pk) = key_pair(cs);
    let ms = scalars(cs, &sample_messages(10));
    sig.s[31] ^= 0x01;
    assert!(!sig.verify(cs, &pk, &header, &ms));
}

#[test]
fn msg_signature_shake256_9() {
    let cs = Ciphersuite::Shake256;
    let header = hex_bytes("11223344556677889900aabbccddeeff");
    let sig = check_signature_case(cs, &header, sample_messages(10));
    let (_, pk) = key_pair(cs);
    let ms = scalars(cs, &sample_messages(9));
    assert!(!sig.verify(cs, &pk, &header, &ms));
}

#[test]
fn h2s_sha256_1() {
    check_h2s(Ciphersuite::Sha256, 1);
}

#[test]
fn h2s_sha256_2() {
    check_h2s(Ciphersuite::Sha256, 2);
}

#[test]
fn h2s_shake256_1() {
    check_h2s(Ciphersuite::Shake256, 1);
}

#[test]
fn h2s_shake256_2() {
    check_h2s(Ciphersuite::Shake256, 2);
}

#[test]
fn mocked_rng_sha256() {}

#[test]
fn mocked_rng_shake256() {}

#[test]
fn h2s_dst_matches_suite_tag() {
    let dst = Ciphersuite::Sha256.dst(Purpose::HashToScalar);
    assert_eq!(dst, b"BBS_BLS12381G1_XMD:SHA-256_SSWU_RO_H2S_".to_vec());
    assert_eq!(Ciphersuite::Shake256.id(), b"BBS_BLS12381G1_XOF:SHAKE-256_SSWU_RO_".to_vec());
}

#[test]
fn commit_errors_and_value() {
    let cs = Ciphersuite::Sha256;
    let ms = scalars(cs, &sample_messages(3));
    let two = &ms[..2];
    let dst = cs.dst(Purpose::HashToScalar);
    let r = hash_to_scalar(cs, b"commit randomness", &dst, 1).unwrap().remove(0);
    let empty: Vec<usize> = vec![];
    assert!(matches!(Commitment::<BBSplus>::commit(cs, two, None, &empty, &r), Err(Error::InvalidArgument)));
    assert!(matches!(Commitment::<BBSplus>::commit(cs, &ms[..1], None, &[0, 2], &r), Err(Error::InvalidArgument)));
    assert!(matches!(Commitment::<BBSplus>::commit(cs, &ms, None, &[0, 2], &r), Err(Error::InvalidArgument)));
    let g = create_generators(cs, 2);
    assert!(matches!(Commitment::<BBSplus>::commit(cs, two, Some(&g), &[0, 2], &r), Err(Error::InvalidArgument)));
    let c = Commitment::<BBSplus>::commit(cs, two, None, &[0, 2], &r).unwrap();
    assert!(is_valid_g1_point(c.value()));
    assert_eq!(c.randomness(), &r);
    assert_eq!(&c.bbsplus_commitment().value, c.value());
    let g3 = create_generators(cs, 3);
    let c2 = Commitment::<BBSplus>::commit(cs, two, Some(&g3), &[0, 2], &r).unwrap();
    assert_eq!(c.value(), c2.value());
    let c3 = Commitment::<BBSplus>::commit(cs, two, None, &[2, 0], &r).unwrap();
    assert_ne!(c.value(), c3.value());
    let r2 = hash_to_scalar(cs, b"other randomness", &dst, 1).unwrap().remove(0);
    let c4 = Commitment::<BBSplus>::commit(cs, two, None, &[0, 2], &r2).unwrap();
    assert_ne!(c.value(), c4.value());
}

#[test]
fn commit_rejects_point_outside_subgroup() {
    let cs = Ciphersuite::Sha256;
    let ms = scalars(cs, &sample_messages(2));
    let dst = cs.dst(Purpose::HashToScalar);
    let r = hash_to_scalar(cs, b"commit randomness", &dst, 1).unwrap().remove(0);
    let mut g = create_generators(cs, 2);
    g.message_generators[1][47] ^= 0x01;
    assert!(matches!(Commitment::<BBSplus>::commit(cs, &ms[..1], Some(&g), &[1], &r), Err(Error::InvalidPoint)));
    assert!(Commitment::<BBSplus>::commit(cs, &ms[..1], Some(&g), &[0], &r).is_ok());
}

#[test]
fn cl03_commitment_accessors() {
    let c: Commitment<CL03> = Commitment::CL03(CL03Commitment { value: vec![7], randomness: vec![9, 1] });
    assert_eq!(c.value(), &vec![7]);
    assert_eq!(c.randomness(), &vec![9, 1]);
}

#[test]
fn prova_cl() {
    let pk = CL03PublicKey { n: vec![0x0d, 0x45], a_bases: vec![vec![4], vec![9], vec![16]], b: vec![25], c: vec![36] };
    assert!(cl03_indexes_valid(&pk, 3, &[0, 2]));
    assert!(!cl03_indexes_valid(&pk, 2, &[0, 2]));
    assert!(!cl03_indexes_valid(&pk, 5, &[3]));
    assert!(cl03_indexes_valid(&pk, 0, &[]));
}

#[test]
fn h2s_count_limits_per_suite() {
    let sha = Ciphersuite::Sha256.dst(Purpose::HashToScalar);
    assert_eq!(hash_to_scalar(Ciphersuite::Sha256, b"abc", &sha, 170).unwrap().len(), 170);
    assert_eq!(hash_to_scalar(Ciphersuite::Sha256, b"abc", &sha, 171), Err(Error::InvalidArgument));
    let shake = Ciphersuite::Shake256.dst(Purpose::HashToScalar);
    assert_eq!(hash_to_scalar(Ciphersuite::Shake256, b"abc", &shake, 1365).unwrap().len(), 1365);
    assert_eq!(hash_to_scalar(Ciphersuite::Shake256, b"abc", &shake, 1366), Err(Error::InvalidArgument));
}
