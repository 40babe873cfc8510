//! The commands of the ceremony, as one value each, and their dispatch.
use crate::ceremony::{
    aggregate, aggregate_outcome, commit, commit_outcome, prepare, prepare_outcome, sign,
    sign_outcome, split, split_outcome, verify, verify_outcome, CommandError,
};
use crate::info::{
    public_key_info, public_key_info_outcome, signature_info, signature_info_outcome,
};
use crate::store::Store;
use vstd::prelude::*;

verus! {

/// A command of the ceremony with its arguments.
pub enum Subcommand {
    /// Show the public key, or its ABI encoding.
    PublicKeyInfo { abi_encode: bool },
    /// Show the signature, with the public key if asked, or its ABI encoding.
    SignatureInfo { with_public_key: bool, abi_encode: bool },
    /// Generate a key from `secret_key`, or a random one, and split it.
    Split { secret_key: Option<Vec<u8>>, threshold: u16, signers: u16, force: bool },
    /// Round 1 for one participant.
    Commit { share_index: usize },
    /// Build the signing package of a message.
    Prepare { message: Vec<u8> },
    /// Round 2 for one participant.
    Sign { share_index: usize },
    /// Aggregate the signature shares.
    Aggregate,
    /// Verify the signature.
    Verify,
}

/// `r` with its text dropped.
pub open spec fn unit_of(r: Result<String, CommandError>) -> Result<(), CommandError> {
    match r {
        Ok(_) => Ok(()),
        Err(e) => Err(e),
    }
}

/// `u`, with no text on success.
fn done(u: Result<(), CommandError>) -> (t: Result<String, CommandError>)
    ensures
        unit_of(t) == u,
{
    match u {
        Ok(v) => {
            assert(v == ());
            Ok(String::new())
        },
        Err(e) => Err(e),
    }
}

impl Subcommand {
    /// Runs the command on the workspace `store`, giving the text it shows.
    /// `Split` makes one attempt.
    pub fn run(self, store: &mut Store) -> (r: Result<String, CommandError>)
        ensures
            match self {
                Subcommand::Split { threshold, signers, force, .. } => split_outcome(
                    old(store)@,
                    final(store)@,
                    threshold,
                    signers,
                    force,
                    unit_of(r),
                ),
                Subcommand::Commit { share_index } => commit_outcome(
                    old(store)@,
                    final(store)@,
                    share_index,
                    unit_of(r),
                ),
                Subcommand::Prepare { message } => prepare_outcome(
                    old(store)@,
                    final(store)@,
                    message@,
                    unit_of(r),
                ),
                Subcommand::Sign { share_index } => sign_outcome(
                    old(store)@,
                    final(store)@,
                    share_index,
                    unit_of(r),
                ),
                Subcommand::Aggregate => aggregate_outcome(old(store)@, final(store)@, unit_of(r)),
                Subcommand::Verify => final(store)@ == old(store)@ && verify_outcome(
                    old(store)@,
                    unit_of(r),
                ),
                Subcommand::PublicKeyInfo { abi_encode } => final(store)@ == old(store)@
                    && public_key_info_outcome(old(store)@, abi_encode, r),
                Subcommand::SignatureInfo { with_public_key, abi_encode } => final(store)@ == old(
                    store,
                )@ && signature_info_outcome(old(store)@, with_public_key, abi_encode, r),
            },
    {
        match self {
            Subcommand::PublicKeyInfo { abi_encode } => public_key_info(store, abi_encode),
            Subcommand::SignatureInfo { with_public_key, abi_encode } => signature_info(
                store,
                with_public_key,
                abi_encode,
            ),
            Subcommand::Split { secret_key, threshold, signers, force } => done(
                split(store, secret_key, threshold, signers, force),
            ),
            Subcommand::Commit { share_index } => done(commit(store, share_index)),
            Subcommand::Prepare { message } => done(prepare(store, message.as_slice())),
            Subcommand::Sign { share_index } => done(sign(store, share_index)),
            Subcommand::Aggregate => done(aggregate(store)),
            Subcommand::Verify => done(verify(store)),
        }
    }
}

} // verus!
