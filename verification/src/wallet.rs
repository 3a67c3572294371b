//! The signing identity of a node: a secret seed and what is derived from it.

use crate::endpoint::AccountId;
use crate::error::InvalidSeedError;
use schnorrkel::ExpansionMode;
use schnorrkel::MiniSecretKey;
use vstd::prelude::*;
use vstd::slice::slice_to_vec;

verus! {

/// Number of bytes in a seed.
pub const SEED_LENGTH: usize = 32;

/// The sr25519 public key that belongs to a 32-byte seed.
pub uninterp spec fn sr25519_public_key(seed: Seq<u8>) -> Seq<u8>;

/// Expands a seed into its public key with schnorrkel:
/// `MiniSecretKey::from_bytes`, which accepts exactly the slices of 32 bytes,
/// then `MiniSecretKey::expand_to_public` in the Ed25519 mode, whose result
/// depends on the seed alone and is named `sr25519_public_key` here, then
/// `PublicKey::to_bytes`.  Nothing of this is proved.
#[verifier::external_body]
fn expand_seed(seed: &[u8]) -> (key: Option<AccountId>)
    ensures
        key is Some <==> seed@.len() == 32,
        key matches Some(k) ==> k@ == sr25519_public_key(seed@),
{
    match MiniSecretKey::from_bytes(seed) {
        Ok(mini) => Some(mini.expand_to_public(ExpansionMode::Ed25519).to_bytes()),
        Err(_) => None,
    }
}

/// A signing identity: the secret seed together with the account identifier
/// that stands for it in public.
#[derive(Clone, Debug)]
pub struct Signer {
    seed: Vec<u8>,
    account: AccountId,
}

impl Signer {
    /// The secret seed.
    pub closed spec fn seed_spec(&self) -> Seq<u8> {
        self.seed@
    }

    /// The public account identifier.
    pub closed spec fn account_spec(&self) -> AccountId {
        self.account
    }

    /// The seed has the length of a seed.
    pub open spec fn wf(&self) -> bool {
        self.seed_spec().len() == SEED_LENGTH
    }

    /// The account identifier is the public key that belongs to the seed.
    pub open spec fn is_derived(&self) -> bool {
        self.wf() && self.account_spec()@ == sr25519_public_key(self.seed_spec())
    }

    /// The secret seed, for whoever signs with it.
    pub fn seed(&self) -> (seed: &[u8])
        ensures
            seed@ == self.seed_spec(),
    {
        self.seed.as_slice()
    }
}

/// The signer for `seed`, given what expanding the seed gave: the identity
/// with that public key where there is one, and the refusal of the seed
/// where there is none.
pub fn signer_from_expansion(seed: &[u8], expansion: Option<AccountId>) -> (r: Result<
    Signer,
    InvalidSeedError,
>)
    ensures
        r is Ok <==> expansion is Some,
        r matches Ok(signer) ==> signer.seed_spec() == seed@ && Some(signer.account_spec())
            == expansion,
        r matches Err(e) ==> e == (InvalidSeedError::WrongLength { found: seed.len() }),
{
    match expansion {
        Some(account) => Ok(Signer { seed: slice_to_vec(seed), account }),
        None => Err(InvalidSeedError::WrongLength { found: seed.len() }),
    }
}

/// Derives the signing identity of a seed.  A seed of 32 bytes always has
/// one, and it depends on the bytes alone; any other length is refused.
pub fn derive(seed: &[u8]) -> (r: Result<Signer, InvalidSeedError>)
    ensures
        r is Ok <==> seed@.len() == SEED_LENGTH,
        r matches Ok(signer) ==> signer.is_derived() && signer.seed_spec() == seed@,
        r matches Err(e) ==> e == (InvalidSeedError::WrongLength { found: seed.len() }),
{
    signer_from_expansion(seed, expand_seed(seed))
}

/// The public identifier of a signing identity.
pub fn account_id(signer: &Signer) -> (id: AccountId)
    ensures
        id == signer.account_spec(),
{
    signer.account
}

/// Two identities derived from the same seed have the same account
/// identifier.
pub proof fn lemma_same_seed_same_account(a: Signer, b: Signer)
    requires
        a.is_derived(),
        b.is_derived(),
        a.seed_spec() == b.seed_spec(),
    ensures
        a.account_spec() == b.account_spec(),
{
    assert(a.account_spec()@ =~= b.account_spec()@);
}

} // verus!
