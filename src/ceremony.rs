//! The round-coordination state machine: each command reads its inputs from
//! the workspace, calls the signature engine, writes its outputs and
//! deletes what it consumed.
use crate::engine;
use crate::engine::{
    byte_views, key_point, package_of, share_of, signature_from, signature_valid,
};
use crate::evm::{is_supported, supported};
use crate::store::{without, Store};
use crate::workspace::{
    artifact_name, commitments_index, commitments_name, entry_views, index_in, joined,
    lemma_listed_complete, lemma_listed_distinct, lemma_listed_member, lemma_names_distinct,
    lemma_signing_key_name_injective, lemma_singletons_distinct, listed, nonces_name, public_key_name, signature_name,
    signature_share_index, signature_share_name, signing_key_file, signing_key_name,
    signing_package_name, string_views, Artifact, Listing, Root,
};
use vstd::prelude::*;
use vstd::string::StringExecFns;

verus! {

/// The workspace, as the map from file name to contents.
pub type Files = Map<Seq<char>, Seq<u8>>;

/// Why a command failed.
#[derive(Clone, Debug, PartialEq, Eq)]
pub enum CommandError {
    /// A file the command reads is absent.
    Missing(Artifact),
    /// The participant's nonces are absent: already consumed, or never made.
    NoncesNotFound(usize),
    /// No commitments are present to build a signing package from.
    NoCommitments,
    /// A file would be overwritten without leave to.
    AlreadyExists(Artifact),
    /// The public key is not supported by the EVM verifier.
    NotSupported,
    /// The signature engine refused: malformed artifacts, too few or
    /// inconsistent shares, or a failed verification.
    Engine(String),
}

/// Whether `before` and `after` agree on every file but those `changed`
/// allows.
pub open spec fn same_except(before: Files, after: Files, changed: spec_fn(Seq<char>) -> bool) -> bool {
    forall|k: Seq<char>|
        #![trigger after.contains_key(k)]
        #![trigger before.contains_key(k)]
        !changed(k) ==> (after.contains_key(k) <==> before.contains_key(k)) && (after.contains_key(k)
            ==> after[k] == before[k])
}

/// Whether any file of kind `kind` is present.
pub open spec fn any_of(files: Files, kind: Listing) -> bool {
    exists|k: Seq<char>| files.contains_key(k) && index_in(kind, k) is Some
}

/// Whether `entries` lists the files of kind `kind` among `files`: each
/// once, with its index, ordered by index.
pub open spec fn is_listing(files: Files, kind: Listing, entries: Seq<(usize, Seq<char>)>) -> bool {
    &&& forall|a: int, b: int| 0 <= a < b < entries.len() ==> entries[a].0 <= entries[b].0
    &&& forall|a: int, b: int| 0 <= a < b < entries.len() ==> entries[a].1 != entries[b].1
    &&& forall|j: int|
        0 <= j < entries.len() ==> files.contains_key(#[trigger] entries[j].1) && index_in(
            kind,
            entries[j].1,
        ) == Some(entries[j].0)
    &&& forall|k: Seq<char>|
        files.contains_key(k) && index_in(kind, k) is Some ==> exists|j: int|
            0 <= j < entries.len() && #[trigger] entries[j].1 == k
}

/// The contents of the files that `entries` lists, in order.
pub open spec fn listed_contents(files: Files, entries: Seq<(usize, Seq<char>)>) -> Seq<Seq<u8>> {
    entries.map_values(|e: (usize, Seq<char>)| files[e.1])
}

/// The files of kind `kind` present, with their indices and names, ordered
/// by index.
pub fn present(store: &Store, kind: Listing) -> (r: Vec<(usize, String)>)
    ensures
        r@.len() > 0 <==> any_of(store@, kind),
        is_listing(store@, kind, entry_views(r@)),
        forall|a: int, b: int| 0 <= a < b < r@.len() ==> r@[a].0 <= r@[b].0,
        forall|j: int|
            0 <= j < r@.len() ==> store@.contains_key(#[trigger] r@[j].1@) && index_in(
                kind,
                r@[j].1@,
            ) == Some(r@[j].0),
        forall|k: Seq<char>|
            store@.contains_key(k) && index_in(kind, k) is Some ==> exists|j: int|
                0 <= j < r@.len() && #[trigger] r@[j].1@ == k,
{
    let names = store.names();
    let root = Root::new(String::new());
    let r = root.list(kind, &names);
    proof {
        broadcast use vstd::seq_lib::group_to_multiset_ensures;

        let e = Seq::<char>::empty();
        let sv = string_views(names@);
        let l = listed(kind, e, sv);
        let ev = entry_views(r@);
        assert(ev.len() == r@.len());
        assert(ev.to_multiset().len() == l.to_multiset().len());
        assert forall|n: Seq<char>| joined(e, n) == n by {
            assert(e + n =~= n);
        }
        assert forall|j: int| 0 <= j < r@.len() implies store@.contains_key(#[trigger] r@[j].1@)
            && index_in(kind, r@[j].1@) == Some(r@[j].0) by {
            assert(ev[j] == (r@[j].0, r@[j].1@));
            assert(ev.to_multiset().count(ev[j]) > 0);
            assert(l.contains(ev[j]));
            let k = choose|k: int| 0 <= k < l.len() && l[k] == ev[j];
            lemma_listed_member(kind, e, sv, k);
            let m = choose|m: int|
                0 <= m < sv.len() && index_in(kind, #[trigger] sv[m]) == Some(l[k].0) && l[k].1
                    == joined(e, sv[m]);
            assert(sv[m] == names@[m]@);
        }
        assert forall|k: Seq<char>| store@.contains_key(k) && index_in(kind, k) is Some implies exists|
            j: int,
        | 0 <= j < r@.len() && #[trigger] r@[j].1@ == k by {
            let m = choose|m: int| 0 <= m < names@.len() && #[trigger] names@[m]@ == k;
            assert(sv[m] == k);
            lemma_listed_complete(kind, e, sv, m);
            let x = (index_in(kind, k)->0, joined(e, k));
            assert(l.to_multiset().count(x) > 0);
            assert(ev.contains(x));
            let j = choose|j: int| 0 <= j < ev.len() && ev[j] == x;
            assert(r@[j].1@ == k);
        }
        if any_of(store@, kind) {
            let k = choose|k: Seq<char>| store@.contains_key(k) && index_in(kind, k) is Some;
            assert(exists|j: int| 0 <= j < r@.len() && #[trigger] r@[j].1@ == k);
        }
        if r@.len() > 0 {
            assert(store@.contains_key(r@[0].1@) && index_in(kind, r@[0].1@) is Some);
        }
        assert forall|a: int, b: int| 0 <= a < b < r@.len() implies r@[a].0 <= r@[b].0 by {
            assert(ev[a] == (r@[a].0, r@[a].1@));
            assert(ev[b] == (r@[b].0, r@[b].1@));
        }
        assert forall|a: int, b: int| 0 <= a < b < sv.len() implies sv[a] != sv[b] by {
            assert(sv[a] == names@[a]@ && sv[b] == names@[b]@);
        }
        lemma_listed_distinct(kind, sv);
        assert(l.no_duplicates());
        l.lemma_multiset_has_no_duplicates();
        ev.lemma_multiset_has_no_duplicates_conv();
        assert forall|a: int, b: int| 0 <= a < b < ev.len() implies ev[a].1 != ev[b].1 by {
            assert(ev[a] == (r@[a].0, r@[a].1@));
            assert(ev[b] == (r@[b].0, r@[b].1@));
            assert(ev[a] != ev[b]);
        }
        assert forall|j: int| 0 <= j < ev.len() implies store@.contains_key(#[trigger] ev[j].1)
            && index_in(kind, ev[j].1) == Some(ev[j].0) by {
            assert(ev[j] == (r@[j].0, r@[j].1@));
        }
        assert forall|k: Seq<char>| store@.contains_key(k) && index_in(kind, k) is Some implies exists|
            j: int,
        | 0 <= j < ev.len() && #[trigger] ev[j].1 == k by {
            assert(exists|j: int| 0 <= j < r@.len() && #[trigger] r@[j].1@ == k);
            let j = choose|j: int| 0 <= j < r@.len() && #[trigger] r@[j].1@ == k;
            assert(ev[j] == (r@[j].0, r@[j].1@));
            assert(ev[j].1 == k);
        }
    }
    r
}

/// The contents of the named files, in order.
fn contents_of(store: &Store, entries: &Vec<(usize, String)>) -> (r: Vec<Vec<u8>>)
    requires
        forall|j: int| 0 <= j < entries@.len() ==> store@.contains_key(#[trigger] entries@[j].1@),
    ensures
        r@.len() == entries@.len(),
        forall|j: int| 0 <= j < entries@.len() ==> #[trigger] r@[j]@ == store@[entries@[j].1@],
{
    let mut r: Vec<Vec<u8>> = Vec::new();
    let mut i: usize = 0;
    while i < entries.len()
        invariant
            i <= entries@.len(),
            r@.len() == i,
            forall|j: int| 0 <= j < entries@.len() ==> store@.contains_key(#[trigger] entries@[j].1@),
            forall|j: int| 0 <= j < i ==> #[trigger] r@[j]@ == store@[entries@[j].1@],
        decreases entries.len() - i,
    {
        assert(store@.contains_key(entries@[i as int].1@));
        let v = store.get(entries[i].1.as_str()).unwrap();
        r.push(copy_bytes(v));
        i = i + 1;
    }
    r
}

/// A copy of `v`.
fn copy_bytes(v: &Vec<u8>) -> (r: Vec<u8>)
    ensures
        r@ == v@,
{
    let mut r: Vec<u8> = Vec::new();
    let mut i: usize = 0;
    while i < v.len()
        invariant
            i <= v@.len(),
            r@ == v@.take(i as int),
        decreases v.len() - i,
    {
        r.push(v[i]);
        assert(v@.take(i + 1) =~= v@.take(i as int).push(v@[i as int]));
        i = i + 1;
    }
    assert(v@.take(i as int) =~= v@);
    r
}

/// Whether `k` names the share file of a participant below `n`.
pub open spec fn key_share_below(k: Seq<char>, n: nat) -> bool {
    exists|i: nat| i < n && k == #[trigger] signing_key_name(i)
}

/// Whether `k` is one of the files a split into `n` shares writes.
pub open spec fn split_output(k: Seq<char>, n: nat) -> bool {
    k == public_key_name() || key_share_below(k, n)
}

/// Whether some file that a split into `n` shares writes is present.
pub open spec fn output_present(files: Files, n: nat) -> bool {
    exists|k: Seq<char>| split_output(k, n) && files.contains_key(k)
}

/// Whether `after` is `before` with the public key package `package` and
/// the key shares `shares`, of participants `0..shares.len()`, written.
pub open spec fn installed(before: Files, after: Files, package: Seq<u8>, shares: Seq<Seq<u8>>) -> bool {
    &&& after.contains_key(public_key_name())
    &&& after[public_key_name()] == package
    &&& forall|i: nat|
        i < shares.len() ==> after.contains_key(#[trigger] signing_key_name(i))
            && after[signing_key_name(i)] == shares[i as int]
    &&& same_except(before, after, |k: Seq<char>| split_output(k, shares.len()))
}

/// What `install` of `package` and `shares` may give and leave.
pub open spec fn install_outcome(
    before: Files,
    after: Files,
    package: Seq<u8>,
    shares: Seq<Seq<u8>>,
    force: bool,
    r: Result<(), CommandError>,
) -> bool {
    &&& r is Err ==> after == before
    &&& (r matches Err(CommandError::AlreadyExists(a)) ==> before.contains_key(artifact_name(a))
        && split_output(artifact_name(a), shares.len()))
    &&& match key_point(package) {
        None => r matches Err(CommandError::Engine(_)),
        Some(k) => if !supported(k) {
            r == Err::<(), CommandError>(CommandError::NotSupported)
        } else if !force && output_present(before, shares.len()) {
            r is Err && r->Err_0 is AlreadyExists
        } else {
            r is Ok && installed(before, after, package, shares)
        },
    }
}

/// Writes a freshly split key: the public key package `package` and the
/// key shares `shares`, share `i` for participant `i`. The key must be
/// supported by the EVM verifier, and without `force` none of the files
/// may be present already.
pub fn install(store: &mut Store, shares: &Vec<Vec<u8>>, package: Vec<u8>, force: bool) -> (r: Result<
    (),
    CommandError,
>)
    ensures
        install_outcome(old(store)@, final(store)@, package@, byte_views(shares@), force, r),
{
    let ghost views = byte_views(shares@);
    let ghost n = shares@.len() as nat;
    let key = match engine::public_key_point(package.as_slice()) {
        Ok(p) => p,
        Err(e) => return Err(CommandError::Engine(e)),
    };
    if !is_supported(&key) {
        return Err(CommandError::NotSupported);
    }
    let ghost start = store@;
    if !force {
        if store.contains(Artifact::PublicKey.name().as_str()) {
            assert(split_output(public_key_name(), n));
            assert(output_present(start, n));
            return Err(CommandError::AlreadyExists(Artifact::PublicKey));
        }
        let mut i: usize = 0;
        while i < shares.len()
            invariant
                store@ == start,
                !force,
                key_point(package@) == Some(key),
                supported(key),
                n == byte_views(shares@).len(),
                !start.contains_key(public_key_name()),
                n == shares@.len(),
                i <= shares@.len(),
                forall|j: nat| j < i ==> !start.contains_key(#[trigger] signing_key_name(j)),
            decreases shares.len() - i,
        {
            if store.contains(signing_key_file(i).as_str()) {
                assert(key_share_below(signing_key_name(i as nat), n));
                assert(split_output(signing_key_name(i as nat), n));
                assert(artifact_name(Artifact::SigningKey(i)) == signing_key_name(i as nat));
                assert(start.contains_key(signing_key_name(i as nat)));
                assert(output_present(start, n));
                return Err(CommandError::AlreadyExists(Artifact::SigningKey(i)));
            }
            i = i + 1;
        }
        assert forall|k: Seq<char>| split_output(k, n) implies !start.contains_key(k) by {
            if k != public_key_name() {
                let j = choose|j: nat| j < n && k == #[trigger] signing_key_name(j);
            }
        }
    }
    let ghost package_view = package@;
    store.put(Artifact::PublicKey.name(), package);
    let mut i: usize = 0;
    while i < shares.len()
        invariant
            i <= shares@.len(),
            n == shares@.len(),
            views == byte_views(shares@),
            store@.contains_key(public_key_name()),
            store@[public_key_name()] == package_view,
            forall|j: nat|
                j < i ==> store@.contains_key(#[trigger] signing_key_name(j)) && store@[signing_key_name(
                    j,
                )] == views[j as int],
            forall|k: Seq<char>|
                #![trigger store@.contains_key(k)]
                #![trigger start.contains_key(k)]
                !split_output(k, n) ==> (store@.contains_key(k) <==> start.contains_key(k))
                    && (store@.contains_key(k) ==> store@[k] == start[k]),
        decreases shares.len() - i,
    {
        let ghost before = store@;
        store.put(signing_key_file(i), copy_bytes(&shares[i]));
        proof {
            let ki = signing_key_name(i as nat);
            assert(key_share_below(ki, n));
            assert(ki != public_key_name()) by {
                lemma_names_distinct(i as nat, 0);
            }
            assert forall|j: nat| j < i + 1 implies store@.contains_key(#[trigger] signing_key_name(j))
                && store@[signing_key_name(j)] == views[j as int] by {
                if j != i {
                    if signing_key_name(j) == ki {
                        lemma_signing_key_name_injective(j, i as nat);
                    }
                }
            }
        }
        i = i + 1;
    }
    proof {
        assert forall|j: nat| j < views.len() implies store@.contains_key(#[trigger] signing_key_name(j))
            && store@[signing_key_name(j)] == views[j as int] by {}
    }
    Ok(())
}

/// What a successful `split` into `signers` shares leaves: a public key
/// package whose key the EVM verifier supports and a key share for each
/// participant `0..signers`, nothing else changed, and without `force`
/// none of them was there before.
pub open spec fn split_done(before: Files, after: Files, signers: u16, force: bool) -> bool {
    &&& after.contains_key(public_key_name())
    &&& key_point(after[public_key_name()]) matches Some(k) && supported(k)
    &&& forall|i: nat| i < signers ==> after.contains_key(#[trigger] signing_key_name(i))
    &&& same_except(before, after, |k: Seq<char>| split_output(k, signers as nat))
    &&& !force ==> forall|k: Seq<char>| split_output(k, signers as nat) ==> !before.contains_key(k)
}

/// What one attempt of `split` may give and leave.
pub open spec fn split_outcome(
    before: Files,
    after: Files,
    threshold: u16,
    signers: u16,
    force: bool,
    r: Result<(), CommandError>,
) -> bool {
    &&& !(2 <= threshold <= signers) ==> r is Err
    &&& r is Err ==> after == before
    &&& (r matches Err(CommandError::AlreadyExists(a)) ==> !force && before.contains_key(
        artifact_name(a),
    ) && split_output(artifact_name(a), signers as nat))
    &&& (r matches Err(e) ==> e is Engine || e is NotSupported || e is AlreadyExists)
    &&& r is Ok ==> split_done(before, after, signers, force)
}

/// Generates a key and splits it among `signers` participants, any
/// `threshold` of whom can sign, from `secret` or else from a fresh random
/// secret, then installs it. One attempt: a key that the EVM verifier does
/// not support gives `NotSupported`, and a caller that drew the secret at
/// random draws again.
pub fn split(
    store: &mut Store,
    secret: Option<Vec<u8>>,
    threshold: u16,
    signers: u16,
    force: bool,
) -> (r: Result<(), CommandError>)
    ensures
        split_outcome(old(store)@, final(store)@, threshold, signers, force, r),
{
    let secret = match secret {
        Some(s) => s,
        None => engine::random_secret(),
    };
    let (shares, package) = match engine::split_secret(secret.as_slice(), signers, threshold) {
        Ok(v) => v,
        Err(e) => return Err(CommandError::Engine(e)),
    };
    let ghost views = byte_views(shares@);
    let ghost start = store@;
    let r = install(store, &shares, package, force);
    proof {
        assert(views.len() == signers);
        if r is Ok {
            assert forall|i: nat| i < signers implies store@.contains_key(
                #[trigger] signing_key_name(i),
            ) by {}
            assert forall|k: Seq<char>| #![trigger store@.contains_key(k)] #![trigger start.contains_key(k)]
                !split_output(k, signers as nat) implies (store@.contains_key(k) <==> start.contains_key(k))
                && (store@.contains_key(k) ==> store@[k] == start[k]) by {}
            if !force {
                assert(!output_present(start, views.len()));
            }
        }
    }
    r
}

/// Whether `split` should be tried again after `outcome`: only when the
/// secret was drawn at random and gave a key the EVM verifier does not
/// support.
pub fn split_retries(secret_given: bool, outcome: &Result<(), CommandError>) -> (r: bool)
    ensures
        r == (!secret_given && *outcome == Err::<(), CommandError>(CommandError::NotSupported)),
{
    match outcome {
        Err(CommandError::NotSupported) => !secret_given,
        _ => false,
    }
}

/// What stops `commit` for participant `i` before the engine is called.
pub open spec fn commit_blocker(files: Files, i: usize) -> Option<CommandError> {
    if !files.contains_key(signing_key_name(i as nat)) {
        Some(CommandError::Missing(Artifact::SigningKey(i)))
    } else {
        None
    }
}

/// What a successful `commit` for participant `i` leaves: its nonces and
/// commitments written, nothing else changed.
pub open spec fn commit_done(before: Files, after: Files, i: usize) -> bool {
    &&& after.contains_key(nonces_name(i as nat))
    &&& after.contains_key(commitments_name(i as nat))
    &&& same_except(
        before,
        after,
        |k: Seq<char>| k == nonces_name(i as nat) || k == commitments_name(i as nat),
    )
}

/// What `commit` for participant `index` may give and leave.
pub open spec fn commit_outcome(
    before: Files,
    after: Files,
    index: usize,
    r: Result<(), CommandError>,
) -> bool {
    &&& (commit_blocker(before, index) matches Some(e) ==> r == Err::<(), CommandError>(e))
    &&& (commit_blocker(before, index) is None && r is Err ==> r matches Err(CommandError::Engine(_)))
    &&& r is Err ==> after == before
    &&& r is Ok ==> commit_done(before, after, index)
}

/// Round 1 for participant `index`: generates its nonces and commitments
/// from its key share.
pub fn commit(store: &mut Store, index: usize) -> (r: Result<(), CommandError>)
    ensures
        commit_outcome(old(store)@, final(store)@, index, r),
{
    let key_name = Artifact::SigningKey(index).name();
    let (nonces, commitments) = match store.get(key_name.as_str()) {
        None => return Err(CommandError::Missing(Artifact::SigningKey(index))),
        Some(key) => match engine::commit_share(key.as_slice()) {
            Ok(v) => v,
            Err(e) => return Err(CommandError::Engine(e)),
        },
    };
    store.put(Artifact::Nonces(index).name(), nonces);
    store.put(Artifact::Commitments(index).name(), commitments);
    Ok(())
}

/// What a successful `prepare` leaves: the signing package written, every
/// commitments file deleted, nothing else changed.
pub open spec fn prepare_done(before: Files, after: Files) -> bool {
    &&& after.contains_key(signing_package_name())
    &&& forall|k: Seq<char>|
        k != signing_package_name() && commitments_index(k) is Some ==> !after.contains_key(k)
    &&& same_except(
        before,
        after,
        |k: Seq<char>| k == signing_package_name() || commitments_index(k) is Some,
    )
}

/// What `prepare` of `message` may give and leave: with no commitments,
/// `NoCommitments`; else, for the commitments files listed in index order,
/// the engine's signing package of their contents and `message` written
/// and the commitments deleted, or the store unchanged if the engine
/// refuses.
pub open spec fn prepare_outcome(
    before: Files,
    after: Files,
    message: Seq<u8>,
    r: Result<(), CommandError>,
) -> bool {
    &&& r == Err::<(), CommandError>(CommandError::NoCommitments) <==> !any_of(
        before,
        Listing::Commitments,
    )
    &&& r is Err ==> after == before
    &&& r is Ok ==> prepare_done(before, after)
    &&& any_of(before, Listing::Commitments) ==> exists|e: Seq<(usize, Seq<char>)>|
        #[trigger] is_listing(before, Listing::Commitments, e) && match package_of(
            listed_contents(before, e),
            message,
        ) {
            Some(p) => r is Ok && after == without(
                before.insert(signing_package_name(), p),
                Listing::Commitments,
            ),
            None => r matches Err(CommandError::Engine(_)),
        }
}

/// Folds every present commitments file, in index order, into a signing
/// package for `message`; once the package is written, deletes the
/// commitments.
pub fn prepare(store: &mut Store, message: &[u8]) -> (r: Result<(), CommandError>)
    ensures
        prepare_outcome(old(store)@, final(store)@, message@, r),
{
    let entries = present(store, Listing::Commitments);
    if entries.len() == 0 {
        return Err(CommandError::NoCommitments);
    }
    let commitments = contents_of(store, &entries);
    let ghost e = entry_views(entries@);
    let ghost before = store@;
    proof {
        assert(byte_views(commitments@) =~= listed_contents(before, e));
    }
    let package = match engine::build_signing_package(&commitments, message) {
        Ok(p) => p,
        Err(err) => {
            assert(is_listing(before, Listing::Commitments, e));
            return Err(CommandError::Engine(err));
        },
    };
    let ghost pv = package@;
    store.put(Artifact::SigningPackage.name(), package);
    store.remove_all(Listing::Commitments);
    proof {
        lemma_names_distinct(0, 0);
        lemma_prepared(before, store@, pv);
        assert(is_listing(before, Listing::Commitments, e));
    }
    Ok(())
}

proof fn lemma_prepared(before: Files, after: Files, p: Seq<u8>)
    requires
        after == without(before.insert(signing_package_name(), p), Listing::Commitments),
    ensures
        prepare_done(before, after),
{
    lemma_names_distinct(0, 0);
    assert(after.contains_key(signing_package_name()));
}

/// What stops `sign` for participant `i` before the engine is called.
pub open spec fn sign_blocker(files: Files, i: usize) -> Option<CommandError> {
    if !files.contains_key(signing_key_name(i as nat)) {
        Some(CommandError::Missing(Artifact::SigningKey(i)))
    } else if !files.contains_key(nonces_name(i as nat)) {
        Some(CommandError::NoncesNotFound(i))
    } else if !files.contains_key(signing_package_name()) {
        Some(CommandError::Missing(Artifact::SigningPackage))
    } else {
        None
    }
}

/// What a successful `sign` for participant `i` leaves: its signature share
/// written, its nonces deleted, nothing else changed.
pub open spec fn sign_done(before: Files, after: Files, i: usize) -> bool {
    &&& after.contains_key(signature_share_name(i as nat))
    &&& !after.contains_key(nonces_name(i as nat))
    &&& same_except(
        before,
        after,
        |k: Seq<char>| k == signature_share_name(i as nat) || k == nonces_name(i as nat),
    )
}

/// What `sign` for participant `index` may give and leave: the engine's
/// share over the signing package, nonces and key share written and the
/// nonces deleted, or the store unchanged.
pub open spec fn sign_outcome(
    before: Files,
    after: Files,
    index: usize,
    r: Result<(), CommandError>,
) -> bool {
    &&& (sign_blocker(before, index) matches Some(e) ==> r == Err::<(), CommandError>(e))
    &&& r is Err ==> after == before
    &&& r is Ok ==> sign_done(before, after, index)
    &&& sign_blocker(before, index) is None ==> match share_of(
        before[signing_package_name()],
        before[nonces_name(index as nat)],
        before[signing_key_name(index as nat)],
    ) {
        Some(s) => r is Ok && after == before.insert(signature_share_name(index as nat), s).remove(
            nonces_name(index as nat),
        ),
        None => r matches Err(CommandError::Engine(_)),
    }
}

/// Round 2 for participant `index`: signs the signing package with its key
/// share and nonces, then deletes the nonces so they are never used again.
pub fn sign(store: &mut Store, index: usize) -> (r: Result<(), CommandError>)
    ensures
        sign_outcome(old(store)@, final(store)@, index, r),
{
    let key = match store.get(Artifact::SigningKey(index).name().as_str()) {
        Some(v) => v,
        None => return Err(CommandError::Missing(Artifact::SigningKey(index))),
    };
    let nonces_file = Artifact::Nonces(index).name();
    let nonces = match store.get(nonces_file.as_str()) {
        Some(v) => v,
        None => return Err(CommandError::NoncesNotFound(index)),
    };
    let package = match store.get(Artifact::SigningPackage.name().as_str()) {
        Some(v) => v,
        None => return Err(CommandError::Missing(Artifact::SigningPackage)),
    };
    let share = match engine::sign_share(package.as_slice(), nonces.as_slice(), key.as_slice()) {
        Ok(s) => s,
        Err(e) => return Err(CommandError::Engine(e)),
    };
    store.put(Artifact::SignatureShare(index).name(), share);
    store.remove(nonces_file.as_str());
    proof {
        lemma_names_distinct(index as nat, index as nat);
    }
    Ok(())
}

/// What stops `aggregate` before the engine is called.
pub open spec fn aggregate_blocker(files: Files) -> Option<CommandError> {
    if !files.contains_key(public_key_name()) {
        Some(CommandError::Missing(Artifact::PublicKey))
    } else if !files.contains_key(signing_package_name()) {
        Some(CommandError::Missing(Artifact::SigningPackage))
    } else {
        None
    }
}

/// What a successful `aggregate` leaves: the signature written, every
/// signature share deleted, nothing else changed.
pub open spec fn aggregate_done(before: Files, after: Files) -> bool {
    &&& after.contains_key(signature_name())
    &&& forall|k: Seq<char>|
        k != signature_name() && signature_share_index(k) is Some ==> !after.contains_key(k)
    &&& same_except(
        before,
        after,
        |k: Seq<char>| k == signature_name() || signature_share_index(k) is Some,
    )
}

/// What `aggregate` may give and leave: for the signature share files
/// listed in index order, the engine's signature from the signing package,
/// their contents and the public key package written and the shares
/// deleted, or the store unchanged.
pub open spec fn aggregate_outcome(before: Files, after: Files, r: Result<(), CommandError>) -> bool {
    &&& (aggregate_blocker(before) matches Some(e) ==> r == Err::<(), CommandError>(e))
    &&& r is Err ==> after == before
    &&& r is Ok ==> aggregate_done(before, after)
    &&& aggregate_blocker(before) is None ==> exists|e: Seq<(usize, Seq<char>)>|
        #[trigger] is_listing(before, Listing::SignatureShares, e) && match signature_from(
            before[signing_package_name()],
            listed_contents(before, e),
            before[public_key_name()],
        ) {
            Some(sig) => r is Ok && after == without(
                before.insert(signature_name(), sig),
                Listing::SignatureShares,
            ),
            None => r matches Err(CommandError::Engine(_)),
        }
}

/// Aggregates every present signature share, in index order, into the
/// signature; once the signature is written, deletes the shares.
pub fn aggregate(store: &mut Store) -> (r: Result<(), CommandError>)
    ensures
        aggregate_outcome(old(store)@, final(store)@, r),
{
    let pubkey = match store.get(Artifact::PublicKey.name().as_str()) {
        Some(v) => v,
        None => return Err(CommandError::Missing(Artifact::PublicKey)),
    };
    let package = match store.get(Artifact::SigningPackage.name().as_str()) {
        Some(v) => v,
        None => return Err(CommandError::Missing(Artifact::SigningPackage)),
    };
    let entries = present(store, Listing::SignatureShares);
    let shares = contents_of(store, &entries);
    let ghost e = entry_views(entries@);
    let ghost before = store@;
    proof {
        assert(byte_views(shares@) =~= listed_contents(before, e));
    }
    let signature = match engine::aggregate_shares(package.as_slice(), &shares, pubkey.as_slice()) {
        Ok(s) => s,
        Err(err) => {
            assert(is_listing(before, Listing::SignatureShares, e));
            return Err(CommandError::Engine(err));
        },
    };
    let ghost sv = signature@;
    store.put(Artifact::Signature.name(), signature);
    store.remove_all(Listing::SignatureShares);
    proof {
        lemma_aggregated(before, store@, sv);
        assert(is_listing(before, Listing::SignatureShares, e));
    }
    Ok(())
}

proof fn lemma_aggregated(before: Files, after: Files, sig: Seq<u8>)
    requires
        after == without(before.insert(signature_name(), sig), Listing::SignatureShares),
    ensures
        aggregate_done(before, after),
{
    lemma_names_distinct(0, 0);
    assert(after.contains_key(signature_name()));
}

/// What stops `verify` before the engine is called.
pub open spec fn verify_blocker(files: Files) -> Option<CommandError> {
    if !files.contains_key(public_key_name()) {
        Some(CommandError::Missing(Artifact::PublicKey))
    } else if !files.contains_key(signing_package_name()) {
        Some(CommandError::Missing(Artifact::SigningPackage))
    } else if !files.contains_key(signature_name()) {
        Some(CommandError::Missing(Artifact::Signature))
    } else {
        None
    }
}

/// What `verify` may give: `Ok` exactly when the engine accepts the stored
/// signature over the signing package's message under the public key.
pub open spec fn verify_outcome(before: Files, r: Result<(), CommandError>) -> bool {
    &&& (verify_blocker(before) matches Some(e) ==> r == Err::<(), CommandError>(e))
    &&& (verify_blocker(before) is None ==> (r is Ok <==> signature_valid(
        before[public_key_name()],
        before[signing_package_name()],
        before[signature_name()],
    )))
    &&& (verify_blocker(before) is None && r is Err ==> r matches Err(CommandError::Engine(_)))
}

/// Checks the signature against the signing package's message and the
/// public key.
pub fn verify(store: &Store) -> (r: Result<(), CommandError>)
    ensures
        verify_outcome(store@, r),
{
    let pubkey = match store.get(Artifact::PublicKey.name().as_str()) {
        Some(v) => v,
        None => return Err(CommandError::Missing(Artifact::PublicKey)),
    };
    let package = match store.get(Artifact::SigningPackage.name().as_str()) {
        Some(v) => v,
        None => return Err(CommandError::Missing(Artifact::SigningPackage)),
    };
    let signature = match store.get(Artifact::Signature.name().as_str()) {
        Some(v) => v,
        None => return Err(CommandError::Missing(Artifact::Signature)),
    };
    match engine::verify_signature(pubkey.as_slice(), package.as_slice(), signature.as_slice()) {
        Ok(()) => Ok(()),
        Err(e) => Err(CommandError::Engine(e)),
    }
}

} // verus!
