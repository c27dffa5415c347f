use mpc_eddsa::curve::mul_base;
use mpc_eddsa::vss::{open_commitment, reconstruct, reconstruct_commitment};
use mpc_eddsa::codec::{decode_point, decode_scalar, decode_vss, encode_point, encode_scalar, encode_vss};
use mpc_eddsa::party::{
    ephemeral_key_create, ephemeral_phase1_broadcast, ephemeral_phase1_verify_com_phase2_distribute,
    ephemeral_phase2_verify_vss_construct_keypair, get_ephemeral_R, get_public_key, phase1_broadcast,
    phase1_create, phase1_create_from_private_key, phase1_verify_com_phase2_distribute,
    phase2_verify_vss_construct_keypair, PartyKeys,
};
use mpc_eddsa::signing::{compute_local_sig, generate_signature, verify_local_sigs, verify_signature};
use mpc_eddsa::types::{
    SerializableBigInt, SerializableEphemeralSharedKeys, SerializableLocalSig, SerializablePoint,
    SerializableScalar, SerializableSharedKeys, SerializableSignature, SerializableVerifiableSS,
    ThresholdError,
};

fn hex(s: &str) -> Vec<u8> {
    (0..s.len() / 2).map(|i| u8::from_str_radix(&s[2 * i..2 * i + 2], 16).unwrap()).collect()
}

struct KeyGen {
    keys: Vec<PartyKeys>,
    shared: Vec<SerializableSharedKeys>,
    vss: Vec<SerializableVerifiableSS>,
}

fn keygen(t: u16, n: u16) -> KeyGen {
    let parties: Vec<u16> = (1..=n).collect();
    let keys: Vec<PartyKeys> = parties.iter().map(|i| phase1_create(*i)).collect();
    let bc: Vec<_> = keys.iter().map(phase1_broadcast).collect();
    let blinds: Vec<SerializableBigInt> = bc.iter().map(|b| b.blind_factor.clone()).collect();
    let coms: Vec<SerializableBigInt> = bc.iter().map(|b| b.commitment.clone()).collect();
    let pks: Vec<SerializablePoint> = keys.iter().map(get_public_key).collect();
    let outs: Vec<_> = keys
        .iter()
        .map(|k| phase1_verify_com_phase2_distribute(k, t, n, &blinds, &pks, &coms, &parties).unwrap())
        .collect();
    let vss: Vec<SerializableVerifiableSS> = outs.iter().map(|o| o.vss.clone()).collect();
    let shared = (0..n as usize)
        .map(|i| {
            let shares: Vec<SerializableScalar> =
                outs.iter().map(|o| o.secret_shares.shares[i].clone()).collect();
            phase2_verify_vss_construct_keypair(&keys[i], t, n, &pks, &shares, &vss, parties[i]).unwrap()
        })
        .collect();
    KeyGen { keys, shared, vss }
}

struct Nonces {
    eph: Vec<SerializableEphemeralSharedKeys>,
    vss: Vec<SerializableVerifiableSS>,
}

fn nonces(kg: &KeyGen, t: u16, signers: &[u16], message: &[u8]) -> Nonces {
    let m = signers.len() as u16;
    let parties: Vec<u16> = signers.to_vec();
    let msg = message.to_vec();
    let ek: Vec<_> = signers
        .iter()
        .map(|i| ephemeral_key_create(&kg.keys[*i as usize - 1], &msg, *i))
        .collect();
    let bc: Vec<_> = ek.iter().map(ephemeral_phase1_broadcast).collect();
    let blinds: Vec<SerializableBigInt> = bc.iter().map(|b| b.blind_factor.clone()).collect();
    let coms: Vec<SerializableBigInt> = bc.iter().map(|b| b.commitment.clone()).collect();
    let rs: Vec<SerializablePoint> = ek.iter().map(get_ephemeral_R).collect();
    let outs: Vec<_> = ek
        .iter()
        .map(|e| ephemeral_phase1_verify_com_phase2_distribute(e, t, m, &blinds, &rs, &coms, &parties).unwrap())
        .collect();
    let vss: Vec<SerializableVerifiableSS> = outs.iter().map(|o| o.vss.clone()).collect();
    let eph = (0..m as usize)
        .map(|i| {
            let shares: Vec<SerializableScalar> =
                outs.iter().map(|o| o.secret_shares.shares[i].clone()).collect();
            ephemeral_phase2_verify_vss_construct_keypair(&ek[i], t, m, &rs, &shares, &vss, signers[i]).unwrap()
        })
        .collect();
    Nonces { eph, vss }
}

fn local_sigs(kg: &KeyGen, nc: &Nonces, signers: &[u16], message: &[u8]) -> Vec<SerializableLocalSig> {
    signers
        .iter()
        .enumerate()
        .map(|(pos, i)| compute_local_sig(&message.to_vec(), &nc.eph[pos], &kg.shared[*i as usize - 1]).unwrap())
        .collect()
}

fn sign(kg: &KeyGen, t: u16, signers: &[u16], message: &[u8]) -> Result<SerializableSignature, ThresholdError> {
    let nc = nonces(kg, t, signers, message);
    let sigs = local_sigs(kg, &nc, signers, message);
    let parties = signers.to_vec();
    let vss_sum = verify_local_sigs(&sigs, &parties, &kg.vss, &nc.vss)?;
    generate_signature(&vss_sum, &sigs, &parties, &nc.eph[0].R)
}

#[test]
fn three_of_five_signs_hello() {
    let kg = keygen(2, 5);
    let y = kg.shared[0].y.clone();
    for s in &kg.shared {
        assert_eq!(s.y.bytes, y.bytes);
    }
    let sig = sign(&kg, 2, &[1, 3, 5], b"hello").unwrap();
    assert_eq!(verify_signature(&sig, &b"hello".to_vec(), &y), Ok(true));
    assert_eq!(verify_signature(&sig, &b"hellp".to_vec(), &y), Ok(false));
}

#[test]
fn every_signer_set_of_threshold_plus_one_signs() {
    let kg = keygen(1, 3);
    let y = kg.shared[0].y.clone();
    for signers in [[1u16, 2], [1, 3], [2, 3], [3, 1]] {
        let sig = sign(&kg, 1, &signers, b"message").unwrap();
        assert_eq!(verify_signature(&sig, &b"message".to_vec(), &y), Ok(true));
    }
}

#[test]
fn more_signers_than_needed_also_sign() {
    let kg = keygen(1, 4);
    let y = kg.shared[0].y.clone();
    let sig = sign(&kg, 1, &[1, 2, 4], b"abc").unwrap();
    assert_eq!(verify_signature(&sig, &b"abc".to_vec(), &y), Ok(true));
}

#[test]
fn too_few_signers_refused() {
    let kg = keygen(2, 5);
    let nc = nonces(&kg, 1, &[2, 4], b"hello");
    let sigs = local_sigs(&kg, &nc, &[2, 4], b"hello");
    let parties = vec![2u16, 4];
    assert_eq!(
        verify_local_sigs(&sigs, &parties, &kg.vss, &nc.vss).unwrap_err(),
        ThresholdError::InsufficientParticipants
    );
    let fake = SerializableVerifiableSS { threshold: 2, share_count: 2, parties: vec![], commitments: vec![] };
    assert_eq!(
        generate_signature(&fake, &sigs, &parties, &nc.eph[0].R).unwrap_err(),
        ThresholdError::InsufficientParticipants
    );
    assert_eq!(
        verify_local_sigs(&sigs, &vec![], &kg.vss, &nc.vss).unwrap_err(),
        ThresholdError::InsufficientParticipants
    );
}

#[test]
fn vss_round_trip() {
    let kg = keygen(2, 3);
    let v = &kg.vss[1];
    let bytes = encode_vss(v);
    assert_eq!(bytes.len(), 6 + 2 * 3 + 32 * 3);
    assert_eq!(&bytes[0..12], &[0, 2, 0, 3, 0, 3, 0, 1, 0, 2, 0, 3]);
    let back = decode_vss(&bytes).unwrap();
    assert_eq!(back.threshold, 2);
    assert_eq!(back.share_count, 3);
    assert_eq!(back.parties, vec![1, 2, 3]);
    for (a, b) in back.commitments.iter().zip(v.commitments.iter()) {
        assert_eq!(a.bytes, b.bytes);
    }
    assert_eq!(decode_vss(&bytes[..bytes.len() - 1].to_vec()).unwrap_err(), ThresholdError::InvalidEncoding);
    let big = SerializableVerifiableSS { threshold: 258, share_count: 513, parties: vec![300, 2], commitments: vec![] };
    let enc = encode_vss(&big);
    assert_eq!(enc, vec![1, 2, 2, 1, 0, 2, 1, 44, 0, 2]);
    let dec = decode_vss(&enc).unwrap();
    assert_eq!((dec.threshold, dec.share_count, dec.commitments.len()), (258, 513, 0));
    assert_eq!(dec.parties, vec![300, 2]);
    assert_eq!(decode_vss(&vec![0, 1, 0, 2, 0, 3, 0, 1]).unwrap_err(), ThresholdError::InvalidEncoding);
}

#[test]
fn point_and_scalar_round_trip() {
    let k = phase1_create(1);
    let p = get_public_key(&k);
    assert_eq!(decode_point(&encode_point(&p)).unwrap().bytes, p.bytes);
    let kg = keygen(1, 2);
    let x = &kg.shared[0].x_i;
    assert_eq!(decode_scalar(&encode_scalar(x)).unwrap().bytes, x.bytes);
    assert_eq!(decode_scalar(&vec![0xffu8; 32]).unwrap_err(), ThresholdError::InvalidEncoding);
    let mut order = hex("edd3f55c1a631258d69cf7a2def9de1400000000000000000000000000000010");
    assert_eq!(decode_scalar(&order).unwrap_err(), ThresholdError::InvalidEncoding);
    order[0] -= 1;
    assert!(decode_scalar(&order).is_ok());
    assert_eq!(decode_point(&vec![1u8; 31]).unwrap_err(), ThresholdError::InvalidEncoding);
    assert_eq!(decode_scalar(&vec![1u8; 33]).unwrap_err(), ThresholdError::InvalidEncoding);
}

#[test]
fn tampered_commitment_is_named() {
    let n = 4u16;
    let parties: Vec<u16> = (1..=n).collect();
    let keys: Vec<PartyKeys> = parties.iter().map(|i| phase1_create(*i)).collect();
    let bc: Vec<_> = keys.iter().map(phase1_broadcast).collect();
    let blinds: Vec<SerializableBigInt> = bc.iter().map(|b| b.blind_factor.clone()).collect();
    let pks: Vec<SerializablePoint> = keys.iter().map(get_public_key).collect();
    for target in 0..n as usize {
        let mut coms: Vec<SerializableBigInt> = bc.iter().map(|b| b.commitment.clone()).collect();
        coms[target].bytes[5] ^= 0x01;
        let r = phase1_verify_com_phase2_distribute(&keys[0], 1, n, &blinds, &pks, &coms, &parties);
        assert_eq!(r.unwrap_err(), ThresholdError::CommitmentMismatch(target as u16 + 1));
    }
}

#[test]
fn mixed_messages_give_challenge_mismatch() {
    let kg = keygen(1, 3);
    let signers = [1u16, 2];
    let nc = nonces(&kg, 1, &signers, b"one");
    let a = compute_local_sig(&b"one".to_vec(), &nc.eph[0], &kg.shared[0]).unwrap();
    let b = compute_local_sig(&b"two".to_vec(), &nc.eph[1], &kg.shared[1]).unwrap();
    assert_ne!(a.k.bytes, b.k.bytes);
    let r = verify_local_sigs(&vec![a, b], &signers.to_vec(), &kg.vss, &nc.vss);
    assert_eq!(r.unwrap_err(), ThresholdError::ChallengeMismatch);
}

#[test]
fn ephemeral_keys_are_deterministic() {
    let k = phase1_create(2);
    let m = b"hello".to_vec();
    let e1 = ephemeral_key_create(&k, &m, 2);
    let e2 = ephemeral_key_create(&k, &m, 2);
    assert_eq!(e1.r_i.bytes, e2.r_i.bytes);
    assert_eq!(e1.R_i.bytes, e2.R_i.bytes);
    let e3 = ephemeral_key_create(&k, &b"hellp".to_vec(), 2);
    assert_ne!(e1.R_i.bytes, e3.R_i.bytes);
    let e4 = ephemeral_key_create(&k, &m, 3);
    assert_ne!(e1.R_i.bytes, e4.R_i.bytes);
    let kg = keygen(1, 3);
    let n1 = nonces(&kg, 1, &[1, 3], b"same");
    let n2 = nonces(&kg, 1, &[1, 3], b"same");
    assert_eq!(n1.eph[0].R.bytes, n2.eph[0].R.bytes);
    assert_eq!(n1.eph[0].r_i.bytes, n2.eph[0].r_i.bytes);
    assert_eq!(n1.eph[1].r_i.bytes, n2.eph[1].r_i.bytes);
    for (a, b) in n1.vss.iter().zip(n2.vss.iter()) {
        for (p, q) in a.commitments.iter().zip(b.commitments.iter()) {
            assert_eq!(p.bytes, q.bytes);
        }
    }
    let n3 = nonces(&kg, 1, &[1, 3], b"other");
    assert_ne!(n1.eph[0].R.bytes, n3.eph[0].R.bytes);
}

#[test]
fn rfc8032_key_and_signature() {
    let secret = hex("9d61b19deffd5a60ba844af492ec2cc44449c5697b326919703bac031cae7f60");
    let k = phase1_create_from_private_key(1, &secret).unwrap();
    let pk = hex("d75a980182b10ab7d54bfed3c964073a0ee172f3daa62325af021a68f707511a");
    assert_eq!(get_public_key(&k).bytes, pk);
    let sig = hex("e5564300c360ac729086e2cc806e828a84877f1eb8e5d974d873e065224901555fb8821590a33bacc61e39701cf9b46bd25bf5f0595bbe24655141438e7a100b");
    let s = SerializableSignature {
        R: SerializablePoint { bytes: sig[..32].to_vec() },
        s: SerializableScalar { bytes: sig[32..].to_vec() },
    };
    let key = SerializablePoint { bytes: pk };
    assert_eq!(verify_signature(&s, &vec![], &key), Ok(true));
    assert_eq!(verify_signature(&s, &vec![0u8], &key), Ok(false));
}

#[test]
fn private_key_of_wrong_length_refused() {
    assert_eq!(phase1_create_from_private_key(1, &vec![7u8; 31]).unwrap_err(), ThresholdError::InvalidEncoding);
    let a = phase1_create_from_private_key(1, &vec![7u8; 32]).unwrap();
    let b = phase1_create_from_private_key(1, &vec![7u8; 32]).unwrap();
    assert_eq!(a.y_i.bytes, b.y_i.bytes);
    assert_eq!(a.prefix.bytes, b.prefix.bytes);
    assert_eq!(a.u_i.bytes[0] & 7, 0);
    assert_eq!(a.u_i.bytes[31] & 0xc0, 0x40);
}

#[test]
fn inconsistent_parameters_refused() {
    let keys: Vec<PartyKeys> = (1..=3).map(phase1_create).collect();
    let bc: Vec<_> = keys.iter().map(phase1_broadcast).collect();
    let blinds: Vec<SerializableBigInt> = bc.iter().map(|b| b.blind_factor.clone()).collect();
    let coms: Vec<SerializableBigInt> = bc.iter().map(|b| b.commitment.clone()).collect();
    let pks: Vec<SerializablePoint> = keys.iter().map(get_public_key).collect();
    let parties = vec![1u16, 2, 3];
    let r = phase1_verify_com_phase2_distribute(&keys[0], 3, 3, &blinds, &pks, &coms, &parties);
    assert_eq!(r.unwrap_err(), ThresholdError::InvalidParameters);
    let r = phase1_verify_com_phase2_distribute(&keys[0], 1, 3, &blinds, &pks, &coms, &vec![1, 1, 3]);
    assert_eq!(r.unwrap_err(), ThresholdError::InvalidParameters);
    let r = phase1_verify_com_phase2_distribute(&keys[0], 1, 3, &blinds, &pks, &coms, &vec![0, 2, 3]);
    assert_eq!(r.unwrap_err(), ThresholdError::InvalidParameters);
    let mut bad = pks.clone();
    bad[1] = SerializablePoint { bytes: vec![0u8; 31] };
    let r = phase1_verify_com_phase2_distribute(&keys[0], 1, 3, &blinds, &bad, &coms, &parties);
    assert_eq!(r.unwrap_err(), ThresholdError::InvalidEncoding);
    let out = phase1_verify_com_phase2_distribute(&keys[0], 1, 3, &blinds, &pks, &coms, &parties).unwrap();
    assert_eq!(out.vss.commitments.len(), 2);
    assert_eq!(out.vss.commitments[0].bytes, pks[0].bytes);
    assert_eq!(out.secret_shares.shares.len(), 3);
}

#[test]
fn tampered_share_is_named() {
    let n = 3u16;
    let parties: Vec<u16> = (1..=n).collect();
    let keys: Vec<PartyKeys> = parties.iter().map(|i| phase1_create(*i)).collect();
    let bc: Vec<_> = keys.iter().map(phase1_broadcast).collect();
    let blinds: Vec<SerializableBigInt> = bc.iter().map(|b| b.blind_factor.clone()).collect();
    let coms: Vec<SerializableBigInt> = bc.iter().map(|b| b.commitment.clone()).collect();
    let pks: Vec<SerializablePoint> = keys.iter().map(get_public_key).collect();
    let outs: Vec<_> = keys
        .iter()
        .map(|k| phase1_verify_com_phase2_distribute(k, 1, n, &blinds, &pks, &coms, &parties).unwrap())
        .collect();
    let vss: Vec<SerializableVerifiableSS> = outs.iter().map(|o| o.vss.clone()).collect();
    let mut shares: Vec<SerializableScalar> = outs.iter().map(|o| o.secret_shares.shares[0].clone()).collect();
    shares[1] = outs[1].secret_shares.shares[2].clone();
    let r = phase2_verify_vss_construct_keypair(&keys[0], 1, n, &pks, &shares, &vss, 1);
    assert_eq!(r.unwrap_err(), ThresholdError::ShareVerificationFailed(2));
    let mut swapped = pks.clone();
    swapped.swap(0, 2);
    let good: Vec<SerializableScalar> = outs.iter().map(|o| o.secret_shares.shares[0].clone()).collect();
    let r = phase2_verify_vss_construct_keypair(&keys[0], 1, n, &swapped, &good, &vss, 1);
    assert_eq!(r.unwrap_err(), ThresholdError::ShareVerificationFailed(1));
    let ok = phase2_verify_vss_construct_keypair(&keys[0], 1, n, &pks, &good, &vss, 1).unwrap();
    assert_eq!(ok.prefix.bytes, keys[0].prefix.bytes);
    let r = phase2_verify_vss_construct_keypair(&keys[0], 1, n, &pks, &good, &vss, 0);
    assert_eq!(r.unwrap_err(), ThresholdError::InvalidParameters);
}

#[test]
fn altered_response_fails_aggregate_check() {
    let kg = keygen(1, 3);
    let signers = [1u16, 3];
    let nc = nonces(&kg, 1, &signers, b"msg");
    let mut sigs = local_sigs(&kg, &nc, &signers, b"msg");
    sigs[1].gamma_i = sigs[0].gamma_i.clone();
    let r = verify_local_sigs(&sigs, &signers.to_vec(), &kg.vss, &nc.vss);
    assert_eq!(r.unwrap_err(), ThresholdError::AggregateCheckFailed);
}

#[test]
fn local_sig_and_verify_refuse_bad_encodings() {
    let kg = keygen(1, 2);
    let nc = nonces(&kg, 1, &[1, 2], b"m");
    let mut bad = nc.eph[0].clone();
    bad.r_i = SerializableScalar { bytes: vec![1u8; 5] };
    assert_eq!(
        compute_local_sig(&b"m".to_vec(), &bad, &kg.shared[0]).unwrap_err(),
        ThresholdError::InvalidEncoding
    );
    let sig = SerializableSignature {
        R: SerializablePoint { bytes: vec![0u8; 3] },
        s: SerializableScalar { bytes: vec![0u8; 32] },
    };
    assert_eq!(
        verify_signature(&sig, &b"m".to_vec(), &kg.shared[0].y).unwrap_err(),
        ThresholdError::InvalidEncoding
    );
}

#[test]
fn local_sig_challenge_is_shared_across_signers() {
    let kg = keygen(1, 3);
    let nc = nonces(&kg, 1, &[2, 3], b"x");
    let sigs = local_sigs(&kg, &nc, &[2, 3], b"x");
    assert_eq!(sigs[0].k.bytes, sigs[1].k.bytes);
    assert_ne!(sigs[0].gamma_i.bytes, sigs[1].gamma_i.bytes);
    assert_eq!(sigs[0].k.bytes.len(), 32);
}

#[test]
fn reconstruct_from_threshold_plus_one_shares() {
    let n = 4u16;
    let parties: Vec<u16> = (1..=n).collect();
    let keys: Vec<PartyKeys> = parties.iter().map(|i| phase1_create(*i)).collect();
    let bc: Vec<_> = keys.iter().map(phase1_broadcast).collect();
    let blinds: Vec<SerializableBigInt> = bc.iter().map(|b| b.blind_factor.clone()).collect();
    let coms: Vec<SerializableBigInt> = bc.iter().map(|b| b.commitment.clone()).collect();
    let pks: Vec<SerializablePoint> = keys.iter().map(get_public_key).collect();
    let out = phase1_verify_com_phase2_distribute(&keys[1], 2, n, &blinds, &pks, &coms, &parties).unwrap();
    let idx = vec![4u16, 1, 3];
    let shares: Vec<SerializableScalar> =
        idx.iter().map(|i| out.secret_shares.shares[*i as usize - 1].clone()).collect();
    let secret = reconstruct(2, &idx, &shares).unwrap();
    assert_eq!(mul_base(&secret.bytes), pks[1].bytes);
    let points: Vec<SerializablePoint> =
        shares.iter().map(|s| SerializablePoint { bytes: mul_base(&s.bytes) }).collect();
    assert_eq!(reconstruct_commitment(2, &idx, &points).unwrap().bytes, pks[1].bytes);
    let few = vec![1u16, 3];
    assert_eq!(
        reconstruct(2, &few, &shares[..2].to_vec()).unwrap_err(),
        ThresholdError::InsufficientParticipants
    );
    assert_eq!(
        reconstruct_commitment(2, &few, &points[..2].to_vec()).unwrap_err(),
        ThresholdError::InsufficientParticipants
    );
    assert_eq!(
        reconstruct(2, &vec![1u16, 1, 3], &shares).unwrap_err(),
        ThresholdError::InsufficientParticipants
    );
    assert_eq!(
        reconstruct(1, &vec![1u16, 1, 3], &shares).unwrap_err(),
        ThresholdError::InvalidParameters
    );
}

#[test]
fn commitment_opens_only_with_its_blind_factor() {
    let k = phase1_create(1);
    let b = phase1_broadcast(&k);
    assert!(open_commitment(&b.commitment, &b.blind_factor, &k.y_i.bytes));
    let mut other = b.blind_factor.clone();
    other.bytes[0] ^= 0x80;
    assert!(!open_commitment(&b.commitment, &other, &k.y_i.bytes));
    let k2 = phase1_create(2);
    assert!(!open_commitment(&b.commitment, &b.blind_factor, &k2.y_i.bytes));
}

#[test]
fn repeated_signers_count_once() {
    let kg = keygen(1, 3);
    let nc = nonces(&kg, 1, &[1, 2], b"r");
    let sigs = local_sigs(&kg, &nc, &[1, 2], b"r");
    let parties = vec![1u16, 1];
    assert_eq!(
        verify_local_sigs(&sigs, &parties, &kg.vss, &nc.vss).unwrap_err(),
        ThresholdError::InsufficientParticipants
    );
    let vss_sum = SerializableVerifiableSS { threshold: 1, share_count: 2, parties: vec![1, 2], commitments: vec![] };
    assert_eq!(
        generate_signature(&vss_sum, &sigs, &parties, &nc.eph[0].R).unwrap_err(),
        ThresholdError::InsufficientParticipants
    );
}

#[test]
fn commitment_mismatch_names_party_index() {
    let parties = vec![2u16, 5, 7];
    let keys: Vec<PartyKeys> = parties.iter().map(|i| phase1_create(*i)).collect();
    let bc: Vec<_> = keys.iter().map(phase1_broadcast).collect();
    let blinds: Vec<SerializableBigInt> = bc.iter().map(|b| b.blind_factor.clone()).collect();
    let pks: Vec<SerializablePoint> = keys.iter().map(get_public_key).collect();
    let mut coms: Vec<SerializableBigInt> = bc.iter().map(|b| b.commitment.clone()).collect();
    coms[1].bytes[0] ^= 0x04;
    let r = phase1_verify_com_phase2_distribute(&keys[0], 1, 3, &blinds, &pks, &coms, &parties);
    assert_eq!(r.unwrap_err(), ThresholdError::CommitmentMismatch(5));
    let m = b"m".to_vec();
    let ek: Vec<_> = parties.iter().enumerate().map(|(p, i)| ephemeral_key_create(&keys[p], &m, *i)).collect();
    let ebc: Vec<_> = ek.iter().map(ephemeral_phase1_broadcast).collect();
    let eblinds: Vec<SerializableBigInt> = ebc.iter().map(|b| b.blind_factor.clone()).collect();
    let mut ecoms: Vec<SerializableBigInt> = ebc.iter().map(|b| b.commitment.clone()).collect();
    let rs: Vec<SerializablePoint> = ek.iter().map(get_ephemeral_R).collect();
    ecoms[2].bytes[3] ^= 0x10;
    let r = ephemeral_phase1_verify_com_phase2_distribute(&ek[0], 1, 3, &eblinds, &rs, &ecoms, &parties);
    assert_eq!(r.unwrap_err(), ThresholdError::CommitmentMismatch(7));
}

#[test]
fn non_canonical_scalars_refused() {
    let kg = keygen(1, 2);
    let y = kg.shared[0].y.clone();
    let sig = sign(&kg, 1, &[1, 2], b"c").unwrap();
    let mut high = sig.clone();
    high.s = SerializableScalar { bytes: vec![0xffu8; 32] };
    assert_eq!(verify_signature(&high, &b"c".to_vec(), &y).unwrap_err(), ThresholdError::InvalidEncoding);
    let nc = nonces(&kg, 1, &[1, 2], b"c");
    let mut keys = kg.shared[0].clone();
    keys.prefix = SerializableScalar { bytes: vec![1u8; 31] };
    assert_eq!(
        compute_local_sig(&b"c".to_vec(), &nc.eph[0], &keys).unwrap_err(),
        ThresholdError::InvalidEncoding
    );
    let mut keys = kg.shared[0].clone();
    keys.x_i = SerializableScalar { bytes: vec![0xffu8; 32] };
    assert_eq!(
        compute_local_sig(&b"c".to_vec(), &nc.eph[0], &keys).unwrap_err(),
        ThresholdError::InvalidEncoding
    );
    let mut sigs = local_sigs(&kg, &nc, &[1, 2], b"c");
    sigs[0].k = SerializableScalar { bytes: vec![0u8; 31] };
    let vss_sum = SerializableVerifiableSS { threshold: 1, share_count: 2, parties: vec![1, 2], commitments: vec![] };
    assert_eq!(
        generate_signature(&vss_sum, &sigs, &vec![1, 2], &nc.eph[0].R).unwrap_err(),
        ThresholdError::InvalidEncoding
    );
    let sigs = local_sigs(&kg, &nc, &[1, 2], b"c");
    let bad_sum = SerializableVerifiableSS {
        threshold: 1,
        share_count: 2,
        parties: vec![1, 2],
        commitments: vec![SerializablePoint { bytes: vec![9u8; 7] }],
    };
    assert_eq!(
        generate_signature(&bad_sum, &sigs, &vec![1, 2], &nc.eph[0].R).unwrap_err(),
        ThresholdError::InvalidEncoding
    );
}
