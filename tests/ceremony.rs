use frost_secp256k1::round1::SigningCommitments;
use frost_secp256k1::{Identifier, SigningPackage};
use safe_frost::ceremony::{
    aggregate, commit, install, prepare, present, sign, split, split_retries, verify,
    CommandError,
};
use std::collections::BTreeMap;
use safe_frost::command::Subcommand;
use safe_frost::info::{public_key_info, signature_info};
use safe_frost::store::Store;
use safe_frost::workspace::{commitments_file_index, signature_share_file_index, Artifact, Listing};

/// Splits a fresh random key, drawing again while the key is unsupported.
fn split_random(store: &mut Store, threshold: u16, signers: u16) {
    loop {
        let r = split(store, None, threshold, signers, false);
        if !split_retries(false, &r) {
            r.unwrap();
            return;
        }
    }
}

fn count(store: &Store, pred: impl Fn(&str) -> bool) -> usize {
    store.names().iter().filter(|n| pred(n.as_str())).count()
}

fn key_shares(store: &Store) -> usize {
    count(store, |n| n.starts_with("key.") && n != "key.pub")
}

fn nonces(store: &Store) -> usize {
    count(store, |n| n.starts_with("round1.") && n.ends_with(".nonces"))
}

fn commitments(store: &Store) -> usize {
    count(store, |n| commitments_file_index(n).is_some())
}

fn shares(store: &Store) -> usize {
    count(store, |n| signature_share_file_index(n).is_some())
}

/// Runs the ceremony up to the signature shares of `signers`.
fn signed(threshold: u16, total: u16, signers: &[usize], message: &[u8]) -> Store {
    let mut store = Store::new();
    split_random(&mut store, threshold, total);
    for &i in signers {
        commit(&mut store, i).unwrap();
    }
    prepare(&mut store, message).unwrap();
    for &i in signers {
        sign(&mut store, i).unwrap();
    }
    store
}

#[test]
fn roundtrip() {
    for (t, n, signers) in [
        (2u16, 2u16, vec![0usize, 1]),
        (2, 3, vec![2, 0]),
        (3, 5, vec![4, 1, 2]),
        (3, 5, vec![0, 1, 2, 3, 4]),
    ] {
        let mut store = signed(t, n, &signers, b"a message");
        aggregate(&mut store).unwrap();
        assert_eq!(verify(&store), Ok(()));
    }
}

#[test]
fn scenario_three_of_five() {
    let mut store = Store::new();
    split_random(&mut store, 3, 5);
    assert_eq!(key_shares(&store), 5);
    assert!(store.contains("key.pub"));
    for i in 0..5 {
        assert!(store.contains(&format!("key.{i}")));
    }
    for i in [1, 3, 4] {
        commit(&mut store, i).unwrap();
    }
    assert_eq!(commitments(&store), 3);
    assert_eq!(nonces(&store), 3);
    prepare(&mut store, &[0xde, 0xad, 0xbe, 0xef]).unwrap();
    assert!(store.contains("round1"));
    assert_eq!(commitments(&store), 0);
    for i in [1, 3, 4] {
        sign(&mut store, i).unwrap();
    }
    assert_eq!(shares(&store), 3);
    assert_eq!(nonces(&store), 0);
    aggregate(&mut store).unwrap();
    assert!(store.contains("round2"));
    assert_eq!(shares(&store), 0);
    assert_eq!(verify(&store), Ok(()));
}

#[test]
fn nonces_are_used_once() {
    let mut store = Store::new();
    split_random(&mut store, 2, 3);
    commit(&mut store, 0).unwrap();
    commit(&mut store, 2).unwrap();
    prepare(&mut store, b"msg").unwrap();
    sign(&mut store, 0).unwrap();
    assert!(!store.contains("round1.0.nonces"));
    assert!(store.contains("round2.0"));
    let before = store.names().len();
    assert_eq!(sign(&mut store, 0), Err(CommandError::NoncesNotFound(0)));
    assert_eq!(store.names().len(), before);
    assert_eq!(sign(&mut store, 1), Err(CommandError::NoncesNotFound(1)));
}

#[test]
fn cleanup_after_prepare_and_aggregate() {
    let mut store = signed(2, 3, &[0, 1], b"cleanup");
    assert_eq!(commitments(&store), 0);
    assert_eq!(prepare(&mut store, b"again"), Err(CommandError::NoCommitments));
    aggregate(&mut store).unwrap();
    assert_eq!(shares(&store), 0);
    assert!(store.contains("key.pub"));
    assert_eq!(key_shares(&store), 3);
}

#[test]
fn aggregate_needs_threshold_shares() {
    let mut store = Store::new();
    split_random(&mut store, 3, 5);
    for i in [0, 1, 2] {
        commit(&mut store, i).unwrap();
    }
    prepare(&mut store, b"threshold").unwrap();
    sign(&mut store, 0).unwrap();
    sign(&mut store, 1).unwrap();
    let before = store.names();
    assert!(matches!(aggregate(&mut store), Err(CommandError::Engine(_))));
    assert_eq!(store.names().len(), before.len());
    assert!(!store.contains("round2"));
    sign(&mut store, 2).unwrap();
    aggregate(&mut store).unwrap();
    assert_eq!(verify(&store), Ok(()));
}

#[test]
fn aggregate_with_all_shares() {
    let mut store = signed(3, 5, &[0, 1, 2, 3, 4], b"all");
    aggregate(&mut store).unwrap();
    assert_eq!(verify(&store), Ok(()));
}

#[test]
fn tampered_signature_fails_verification() {
    let mut store = signed(2, 3, &[1, 2], b"tamper");
    aggregate(&mut store).unwrap();
    let signature = store.get("round2").unwrap().clone();
    for i in 0..signature.len() {
        let mut bad = signature.clone();
        bad[i] ^= 0x01;
        store.put("round2".to_string(), bad);
        assert!(matches!(verify(&store), Err(CommandError::Engine(_))), "byte {i}");
    }
    store.put("round2".to_string(), signature);
    assert_eq!(verify(&store), Ok(()));
}

#[test]
fn missing_inputs() {
    let mut store = Store::new();
    assert_eq!(commit(&mut store, 9), Err(CommandError::Missing(Artifact::SigningKey(9))));
    assert_eq!(sign(&mut store, 2), Err(CommandError::Missing(Artifact::SigningKey(2))));
    assert_eq!(aggregate(&mut store), Err(CommandError::Missing(Artifact::PublicKey)));
    assert_eq!(verify(&store), Err(CommandError::Missing(Artifact::PublicKey)));
    assert_eq!(prepare(&mut store, b"m"), Err(CommandError::NoCommitments));
    assert_eq!(public_key_info(&store, false), Err(CommandError::Missing(Artifact::PublicKey)));
    assert_eq!(signature_info(&store, false, false), Err(CommandError::Missing(Artifact::Signature)));
    split_random(&mut store, 2, 2);
    assert_eq!(sign(&mut store, 0), Err(CommandError::NoncesNotFound(0)));
    commit(&mut store, 0).unwrap();
    assert_eq!(sign(&mut store, 0), Err(CommandError::Missing(Artifact::SigningPackage)));
    assert_eq!(aggregate(&mut store), Err(CommandError::Missing(Artifact::SigningPackage)));
}

#[test]
fn malformed_artifacts_are_engine_errors() {
    let mut store = Store::new();
    store.put("key.0".to_string(), vec![1, 2, 3]);
    assert!(matches!(commit(&mut store, 0), Err(CommandError::Engine(_))));
    assert!(!store.contains("round1.0.nonces"));
}

#[test]
fn split_parameters_are_checked() {
    let mut store = Store::new();
    assert!(matches!(split(&mut store, None, 1, 5, false), Err(CommandError::Engine(_))));
    assert!(matches!(split(&mut store, None, 4, 3, false), Err(CommandError::Engine(_))));
    assert!(store.names().is_empty());
}

fn secret_one() -> Vec<u8> {
    let mut s = vec![0u8; 32];
    s[31] = 1;
    s
}

#[test]
fn split_with_given_secret_and_force() {
    let mut store = Store::new();
    split(&mut store, Some(secret_one()), 2, 3, false).unwrap();
    assert_eq!(
        split(&mut store, Some(secret_one()), 2, 3, false),
        Err(CommandError::AlreadyExists(Artifact::PublicKey))
    );
    store.remove("key.pub");
    assert_eq!(
        split(&mut store, Some(secret_one()), 2, 3, false),
        Err(CommandError::AlreadyExists(Artifact::SigningKey(0)))
    );
    split(&mut store, Some(secret_one()), 2, 3, true).unwrap();
    assert_eq!(key_shares(&store), 3);
    assert!(!split_retries(true, &Err(CommandError::NotSupported)));
    assert!(split_retries(false, &Err(CommandError::NotSupported)));
    assert!(!split_retries(false, &Ok(())));
}

#[test]
fn public_key_info_of_known_key() {
    let mut store = Store::new();
    split(&mut store, Some(secret_one()), 2, 2, false).unwrap();
    let text = public_key_info(&store, false).unwrap();
    assert_eq!(
        text,
        "address:    0x7E5F4552091A69125d5DfCb7b8C2659029395Bdf\n\
         public key: {0x79be667ef9dcbbac55a06295ce870b07029bfcdb2dce28d959f2815b16f81798,\
         0x483ada7726a3c4655da4fbfc0e1108a8fd17b448a68554199c47d08ffb10d4b8}\n"
    );
    let abi = public_key_info(&store, true).unwrap();
    assert_eq!(
        abi,
        "0000000000000000000000007e5f4552091a69125d5dfcb7b8c2659029395bdf\
         79be667ef9dcbbac55a06295ce870b07029bfcdb2dce28d959f2815b16f81798\
         483ada7726a3c4655da4fbfc0e1108a8fd17b448a68554199c47d08ffb10d4b8"
    );
}

#[test]
fn signature_info_shapes() {
    let mut store = Store::new();
    split(&mut store, Some(secret_one()), 2, 2, false).unwrap();
    commit(&mut store, 0).unwrap();
    commit(&mut store, 1).unwrap();
    prepare(&mut store, b"info").unwrap();
    sign(&mut store, 0).unwrap();
    sign(&mut store, 1).unwrap();
    aggregate(&mut store).unwrap();
    let plain = signature_info(&store, false, false).unwrap();
    assert!(plain.starts_with("R: {0x"));
    assert!(plain.contains("\nz: 0x"));
    let with_key = signature_info(&store, true, false).unwrap();
    assert!(with_key.starts_with("public key: {0x79be667e"));
    assert!(with_key.contains("\nR:          {0x"));
    assert_eq!(signature_info(&store, false, true).unwrap().len(), 2 * 96);
    let abi = signature_info(&store, true, true).unwrap();
    assert_eq!(abi.len(), 2 * 160);
    assert!(abi.starts_with("79be667ef9dcbbac55a06295ce870b07029bfcdb2dce28d959f2815b16f81798"));
}

#[test]
fn subcommands_dispatch() {
    let mut store = Store::new();
    let run = |cmd: Subcommand, store: &mut Store| cmd.run(store);
    assert_eq!(
        run(
            Subcommand::Split { secret_key: Some(secret_one()), threshold: 2, signers: 3, force: false },
            &mut store
        ),
        Ok(String::new())
    );
    for i in [0, 2] {
        assert_eq!(run(Subcommand::Commit { share_index: i }, &mut store), Ok(String::new()));
    }
    run(Subcommand::Prepare { message: vec![0xde, 0xad, 0xbe, 0xef] }, &mut store).unwrap();
    for i in [0, 2] {
        run(Subcommand::Sign { share_index: i }, &mut store).unwrap();
    }
    run(Subcommand::Aggregate, &mut store).unwrap();
    assert_eq!(run(Subcommand::Verify, &mut store), Ok(String::new()));
    let text = run(Subcommand::PublicKeyInfo { abi_encode: false }, &mut store).unwrap();
    assert!(text.starts_with("address:    0x7E5F4552091A69125d5DfCb7b8C2659029395Bdf"));
    let sig = run(Subcommand::SignatureInfo { with_public_key: true, abi_encode: true }, &mut store);
    assert_eq!(sig.unwrap().len(), 320);
    assert_eq!(
        run(Subcommand::Sign { share_index: 0 }, &mut store),
        Err(CommandError::NoncesNotFound(0))
    );
}

#[test]
fn present_lists_by_index_with_contents() {
    let mut store = Store::new();
    store.put("round2.3".to_string(), vec![3]);
    store.put("round2".to_string(), vec![9]);
    store.put("round2.1".to_string(), vec![1]);
    store.put("round1.2.commitments".to_string(), vec![2]);
    let entries = present(&store, Listing::SignatureShares);
    assert_eq!(entries, vec![(1, "round2.1".to_string()), (3, "round2.3".to_string())]);
    assert_eq!(present(&store, Listing::Commitments), vec![(2, "round1.2.commitments".to_string())]);
}

#[test]
fn prepared_package_is_the_engines() {
    let mut store = Store::new();
    split_random(&mut store, 2, 3);
    commit(&mut store, 2).unwrap();
    commit(&mut store, 0).unwrap();
    let mut map = BTreeMap::new();
    for i in [0, 2] {
        let data = store.get(&format!("round1.{i}.commitments")).unwrap();
        let (id, c): (Identifier, SigningCommitments) = postcard::from_bytes(data).unwrap();
        map.insert(id, c);
    }
    let message = [0xde, 0xad, 0xbe, 0xef];
    let expected = SigningPackage::new(map, &message).serialize().unwrap();
    prepare(&mut store, &message).unwrap();
    assert_eq!(store.get("round1"), Some(&expected));
    assert!(store.contains("round1.0.nonces") && store.contains("round1.2.nonces"));
}

#[test]
fn malformed_commitments_stop_prepare() {
    let mut store = Store::new();
    split_random(&mut store, 2, 3);
    commit(&mut store, 0).unwrap();
    commit(&mut store, 1).unwrap();
    let mut bad = store.get("round1.1.commitments").unwrap().clone();
    bad.truncate(bad.len() - 1);
    store.put("round1.1.commitments".to_string(), bad);
    let before = store.names().len();
    assert!(matches!(prepare(&mut store, b"m"), Err(CommandError::Engine(_))));
    assert_eq!(store.names().len(), before);
    assert!(!store.contains("round1"));
    assert!(store.contains("round1.0.commitments") && store.contains("round1.1.commitments"));
}

#[test]
fn install_checks_package_and_outputs() {
    let mut store = Store::new();
    assert!(matches!(
        install(&mut store, &vec![vec![1]], vec![1, 2, 3], false),
        Err(CommandError::Engine(_))
    ));
    assert!(store.names().is_empty());
    let mut keyed = Store::new();
    split(&mut keyed, Some(secret_one()), 2, 2, false).unwrap();
    let package = keyed.get("key.pub").unwrap().clone();
    let shares = vec![vec![7], vec![8]];
    store.put("key.1".to_string(), vec![0]);
    assert_eq!(
        install(&mut store, &shares, package.clone(), false),
        Err(CommandError::AlreadyExists(Artifact::SigningKey(1)))
    );
    install(&mut store, &shares, package.clone(), true).unwrap();
    assert_eq!(store.get("key.pub"), Some(&package));
    assert_eq!(store.get("key.0"), Some(&vec![7]));
    assert_eq!(store.get("key.1"), Some(&vec![8]));
    assert_eq!(store.names().len(), 3);
}
