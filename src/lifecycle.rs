//! What the ceremony's commands guarantee together: nonces are used once,
//! consumed artifacts are cleared, and the workspace never stops the round
//! trip split, commit, prepare, sign, aggregate, verify on its own; only the
//! signature engine can refuse a step.
use crate::ceremony::{
    aggregate_blocker, aggregate_done, any_of, commit_blocker, commit_done, prepare_done,
    sign_blocker, sign_done, split_done, verify_blocker, CommandError, Files,
};
use crate::workspace::{
    commitments_index, commitments_name, lemma_commitments_index, lemma_names_distinct,
    lemma_nonces_name_injective, lemma_singletons_distinct, nonces_name, public_key_name,
    signature_share_index, signature_share_name, signing_key_name, signing_package_name, Listing,
};
use vstd::prelude::*;

verus! {

/// Nonces are used once: after `sign` for participant `i` succeeds, its
/// nonces file is gone, and a second `sign` for `i` is stopped with
/// `NoncesNotFound`.
pub proof fn lemma_nonces_single_use(before: Files, after: Files, i: usize)
    requires
        sign_blocker(before, i) is None,
        sign_done(before, after, i),
    ensures
        !after.contains_key(nonces_name(i as nat)),
        sign_blocker(after, i) == Some(CommandError::NoncesNotFound(i)),
{
    let k = signing_key_name(i as nat);
    assert(k != signature_share_name(i as nat) && k != nonces_name(i as nat)) by {
        lemma_names_distinct(i as nat, i as nat);
    }
    assert(before.contains_key(k));
    assert(after.contains_key(k));
}

/// After `prepare` succeeds no commitments file remains, so a second
/// `prepare` finds none.
pub proof fn lemma_prepare_clears_commitments(before: Files, after: Files)
    requires
        prepare_done(before, after),
    ensures
        forall|k: Seq<char>| after.contains_key(k) ==> commitments_index(k) is None,
        !any_of(after, Listing::Commitments),
{
    lemma_names_distinct(0, 0);
}

/// After `aggregate` succeeds no signature share file remains.
pub proof fn lemma_aggregate_clears_shares(before: Files, after: Files)
    requires
        aggregate_done(before, after),
    ensures
        forall|k: Seq<char>| after.contains_key(k) ==> signature_share_index(k) is None,
        !any_of(after, Listing::SignatureShares),
{
    lemma_names_distinct(0, 0);
}


/// After `split` into `signers` shares, `commit` for each participant
/// `i < signers` finds its key share.
pub proof fn lemma_split_enables_commit(before: Files, after: Files, signers: u16, force: bool, i: usize)
    requires
        split_done(before, after, signers, force),
        i < signers,
    ensures
        commit_blocker(after, i) is None,
{
    assert(after.contains_key(signing_key_name(i as nat)));
}

/// After `commit` for participant `i`, `prepare` finds a commitments file.
pub proof fn lemma_commit_enables_prepare(before: Files, after: Files, i: usize)
    requires
        commit_done(before, after, i),
    ensures
        any_of(after, Listing::Commitments),
{
    lemma_commitments_index(i);
    assert(after.contains_key(commitments_name(i as nat)));
}

/// `prepare` keeps every key share and nonces file, so after `commit` for
/// participant `i` and `prepare`, `sign` for `i` finds all it reads.
pub proof fn lemma_prepare_enables_sign(before: Files, after: Files, i: usize)
    requires
        before.contains_key(signing_key_name(i as nat)),
        before.contains_key(nonces_name(i as nat)),
        prepare_done(before, after),
    ensures
        sign_blocker(after, i) is None,
{
    lemma_names_distinct(i as nat, i as nat);
    reveal_strlit("key.");
    reveal_strlit("round1.");
    reveal_strlit("round1");
    reveal_strlit(".commitments");
    reveal_strlit(".nonces");
    let k = signing_key_name(i as nat);
    let n = nonces_name(i as nat);
    assert(k[0] == 'k');
    assert(k != signing_package_name());
    assert(n.len() > 6);
    assert(n != signing_package_name());
    assert(before.contains_key(k) && before.contains_key(n));
    assert(after.contains_key(k));
    assert(after.contains_key(n));
}

/// `sign` for participant `i` keeps the public key, the signing package and
/// every other participant's key share and nonces, so the other
/// participants can still sign and the shares can be aggregated.
pub proof fn lemma_sign_keeps_others(before: Files, after: Files, i: usize, j: usize)
    requires
        sign_done(before, after, i),
        i != j,
    ensures
        before.contains_key(public_key_name()) ==> after.contains_key(public_key_name()),
        before.contains_key(signing_package_name()) ==> after.contains_key(signing_package_name()),
        sign_blocker(before, j) is None ==> sign_blocker(after, j) is None,
{
    let si = signature_share_name(i as nat);
    let ni = nonces_name(i as nat);
    let kj = signing_key_name(j as nat);
    let nj = nonces_name(j as nat);
    assert(kj != ni && kj != si && nj != si) by {
        lemma_names_distinct(j as nat, i as nat);
    }
    assert(nj != ni) by {
        if nj == ni {
            lemma_nonces_name_injective(j as nat, i as nat);
        }
    }
    lemma_singletons_distinct(i as nat);
    if before.contains_key(public_key_name()) {
        assert(after.contains_key(public_key_name()));
    }
    if before.contains_key(signing_package_name()) {
        assert(after.contains_key(signing_package_name()));
    }
    if sign_blocker(before, j) is None {
        assert(before.contains_key(kj));
        assert(after.contains_key(kj));
        assert(before.contains_key(nj));
        assert(after.contains_key(nj));
        assert(after.contains_key(signing_package_name()));
    }
}

/// After `aggregate`, `verify` finds all it reads.
pub proof fn lemma_aggregate_enables_verify(before: Files, after: Files)
    requires
        aggregate_blocker(before) is None,
        aggregate_done(before, after),
    ensures
        verify_blocker(after) is None,
{
    lemma_names_distinct(0, 0);
    assert(before.contains_key(public_key_name()));
    assert(after.contains_key(public_key_name()));
    assert(before.contains_key(signing_package_name()));
    assert(after.contains_key(signing_package_name()));
}

} // verus!
