use safe_frost::workspace::{
    commitments_file_index, index_of, signature_share_file_index, Artifact, Listing, Root,
};

fn names(list: &[&str]) -> Vec<String> {
    list.iter().map(|s| s.to_string()).collect()
}

#[test]
fn default_root_paths() {
    let root = Root::default();
    assert_eq!(root.dir(), ".frost");
    assert_eq!(root.public_key(), ".frost/key.pub");
    assert_eq!(root.signing_key(3), ".frost/key.3");
    assert_eq!(root.nonces(0), ".frost/round1.0.nonces");
    assert_eq!(root.commitments(12), ".frost/round1.12.commitments");
    assert_eq!(root.signing_package(), ".frost/round1");
    assert_eq!(root.signature_share(4), ".frost/round2.4");
    assert_eq!(root.signature(), ".frost/round2");
}

#[test]
fn root_with_trailing_slash_and_empty() {
    assert_eq!(Root::new("dir/".to_string()).signing_key(7), "dir/key.7");
    assert_eq!(Root::new(String::new()).public_key(), "key.pub");
    assert_eq!(Root::new("a/b".to_string()).path_for(Artifact::Nonces(10)), "a/b/round1.10.nonces");
}

#[test]
fn artifact_names() {
    assert_eq!(Artifact::PublicKey.name(), "key.pub");
    assert_eq!(Artifact::SigningKey(0).name(), "key.0");
    assert_eq!(Artifact::Commitments(5).name(), "round1.5.commitments");
    assert_eq!(Artifact::SigningPackage.name(), "round1");
    assert_eq!(Artifact::SignatureShare(99).name(), "round2.99");
    assert_eq!(Artifact::Signature.name(), "round2");
    assert_eq!(Artifact::SigningKey(usize::MAX).name(), format!("key.{}", usize::MAX));
}

#[test]
fn commitments_listing_is_filtered_and_ordered() {
    let root = Root::default();
    let found = root.all_commitments(&names(&[
        "round1.3.commitments",
        "key.pub",
        "round1.1.commitments",
        "round1.x.commitments",
        "round1.2.nonces",
        "round2.5",
        "round1",
        "round1.+7.commitments",
    ]));
    assert_eq!(
        found,
        vec![
            (1, ".frost/round1.1.commitments".to_string()),
            (3, ".frost/round1.3.commitments".to_string()),
            (7, ".frost/round1.+7.commitments".to_string()),
        ]
    );
}

#[test]
fn signature_share_listing_is_filtered_and_ordered() {
    let root = Root::new("w".to_string());
    let found = root.all_signature_shares(&names(&[
        "round2", "round2.4", "round2.0", "round2.x", "round2.", "round1.4.commitments",
    ]));
    assert_eq!(found, vec![(0, "w/round2.0".to_string()), (4, "w/round2.4".to_string())]);
    assert_eq!(root.list(Listing::SignatureShares, &Vec::new()), vec![]);
}

#[test]
fn index_parsing_follows_usize_parsing() {
    assert_eq!(signature_share_file_index("round2.18446744073709551615"), Some(usize::MAX));
    assert_eq!(signature_share_file_index("round2.18446744073709551616"), None);
    assert_eq!(signature_share_file_index("round2.007"), Some(7));
    assert_eq!(signature_share_file_index("round2.+"), None);
    assert_eq!(signature_share_file_index("round2.-1"), None);
    assert_eq!(commitments_file_index("round1..commitments"), None);
    assert_eq!(commitments_file_index("round1.commitments"), None);
    assert_eq!(commitments_file_index("round1.42.commitments"), Some(42));
    assert_eq!(index_of(Listing::Commitments, "round2.1"), None);
    assert_eq!(index_of(Listing::SignatureShares, "round2.1"), Some(1));
}
