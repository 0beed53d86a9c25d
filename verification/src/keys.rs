use crate::scheme::Scheme;
use sp_core::crypto::AccountId32;
use sp_core::crypto::AddressUriError;
use sp_core::crypto::DeriveJunction;
use sp_core::crypto::SecretStringError;
use sp_core::crypto::Ss58AddressFormat;
use sp_core::crypto::Ss58Codec;
use sp_core::Pair;
use vstd::prelude::*;

verus! {

/// `sp_core::sr25519::Pair`, carried through as it is.
#[verifier::external_type_specification]
#[verifier::external_body]
pub struct ExSr25519Pair(sp_core::sr25519::Pair);

/// `sp_core::ed25519::Pair`, carried through as it is.
#[verifier::external_type_specification]
#[verifier::external_body]
pub struct ExEd25519Pair(sp_core::ed25519::Pair);

/// `sp_core::crypto::AccountId32`, carried through as it is.
#[verifier::external_type_specification]
#[verifier::external_body]
pub struct ExAccountId32(sp_core::crypto::AccountId32);

/// `sp_core::crypto::AddressUriError`, carried through as it is.
#[verifier::external_type_specification]
#[verifier::external_body]
pub struct ExAddressUriError(sp_core::crypto::AddressUriError);

/// `Clone` of `sp_core::sr25519::Pair`, which rebuilds the pair from its own key
/// bytes. Nothing is claimed about the copy.
pub assume_specification[ <sp_core::sr25519::Pair as Clone>::clone ](
    pair: &sp_core::sr25519::Pair,
) -> sp_core::sr25519::Pair;

/// `Clone` of `sp_core::ed25519::Pair`, a plain copy. Nothing is claimed about
/// the copy.
pub assume_specification[ <sp_core::ed25519::Pair as Clone>::clone ](
    pair: &sp_core::ed25519::Pair,
) -> sp_core::ed25519::Pair;

/// Why a secret URI gave no key pair. The variants are those of
/// `sp_core::crypto::SecretStringError`.
#[derive(Debug, PartialEq, Eq)]
pub enum SecretError {
    /// The overall format was invalid.
    InvalidFormat(AddressUriError),
    /// The phrase is no valid BIP-39 phrase.
    InvalidPhrase,
    /// The password was invalid.
    InvalidPassword,
    /// The seed has bad content.
    InvalidSeed,
    /// The seed has an invalid length.
    InvalidSeedLength,
    /// The derivation path was invalid.
    InvalidPath,
}

/// The bytes of the secret scalar of an sr25519 pair. The pair also holds a
/// signing nonce, which a soft junction draws at random: the scalar is what
/// names the key.
pub uninterp spec fn sr25519_key(pair: sp_core::sr25519::Pair) -> Seq<u8>;

/// The bytes of the secret seed of an ed25519 pair.
pub uninterp spec fn ed25519_key(pair: sp_core::ed25519::Pair) -> Seq<u8>;

/// The key of the pair that `sp_core::sr25519::Pair::from_string` makes of
/// `uri` when no password override is given, or its error written as a
/// [`SecretError`].
pub uninterp spec fn sr25519_parsed_key(uri: Seq<char>) -> Result<Seq<u8>, SecretError>;

/// The key of the pair that `sp_core::ed25519::Pair::from_string` makes of
/// `uri` when no password override is given, or its error written as a
/// [`SecretError`].
pub uninterp spec fn ed25519_parsed_key(uri: Seq<char>) -> Result<Seq<u8>, SecretError>;

/// The key of the pair that `sp_core::sr25519::Pair::derive` gives for a pair
/// of the key `key` and the path of the one hard junction `n`.
pub uninterp spec fn sr25519_child_key(key: Seq<u8>, n: u64) -> Seq<u8>;

/// The key of the pair that `sp_core::ed25519::Pair::derive` gives for a pair
/// of the key `key` and the path of the one hard junction `n`.
pub uninterp spec fn ed25519_child_key(key: Seq<u8>, n: u64) -> Seq<u8>;

/// The 32 bytes of the public key that `sp_core::sr25519::Pair::public` gives
/// for a pair of the key `key`.
pub uninterp spec fn sr25519_public(key: Seq<u8>) -> Seq<u8>;

/// The 32 bytes of the public key that `sp_core::ed25519::Pair::public` gives
/// for a pair of the key `key`.
pub uninterp spec fn ed25519_public(key: Seq<u8>) -> Seq<u8>;

/// The 32 bytes that an account id holds.
pub uninterp spec fn account_bytes(account: sp_core::crypto::AccountId32) -> Seq<u8>;

/// The text that `Ss58Codec::to_ss58check_with_version` writes for an account
/// id of the bytes `account` under the custom address format `version`.
pub uninterp spec fn ss58_text(account: Seq<u8>, version: u16) -> Seq<char>;

/// Calls `sp_core::sr25519::Pair::from_string(uri, None)` and writes the error,
/// variant by variant, as a [`SecretError`]. Whether the call succeeds, its
/// error, and the secret scalar of its pair depend on the text alone. The
/// pair's nonce does not where the text holds a soft junction, so nothing is
/// claimed of the pair beyond its key.
#[verifier::external_body]
fn sr25519_from_string(uri: &str) -> (r: Result<sp_core::sr25519::Pair, SecretError>)
    ensures
        match r {
            Ok(pair) => sr25519_parsed_key(uri@) == Ok::<Seq<u8>, SecretError>(sr25519_key(pair)),
            Err(e) => sr25519_parsed_key(uri@) == Err::<Seq<u8>, SecretError>(e),
        },
{
    match sp_core::sr25519::Pair::from_string(uri, None) {
        Ok(pair) => Ok(pair),
        Err(SecretStringError::InvalidFormat(e)) => Err(SecretError::InvalidFormat(e)),
        Err(SecretStringError::InvalidPhrase) => Err(SecretError::InvalidPhrase),
        Err(SecretStringError::InvalidPassword) => Err(SecretError::InvalidPassword),
        Err(SecretStringError::InvalidSeed) => Err(SecretError::InvalidSeed),
        Err(SecretStringError::InvalidSeedLength) => Err(SecretError::InvalidSeedLength),
        Err(SecretStringError::InvalidPath) => Err(SecretError::InvalidPath),
    }
}

/// Calls `sp_core::ed25519::Pair::from_string(uri, None)` and writes the error,
/// variant by variant, as a [`SecretError`]. Whether the call succeeds, its
/// error, and the secret seed of its pair depend on the text alone.
#[verifier::external_body]
fn ed25519_from_string(uri: &str) -> (r: Result<sp_core::ed25519::Pair, SecretError>)
    ensures
        match r {
            Ok(pair) => ed25519_parsed_key(uri@) == Ok::<Seq<u8>, SecretError>(ed25519_key(pair)),
            Err(e) => ed25519_parsed_key(uri@) == Err::<Seq<u8>, SecretError>(e),
        },
{
    match sp_core::ed25519::Pair::from_string(uri, None) {
        Ok(pair) => Ok(pair),
        Err(SecretStringError::InvalidFormat(e)) => Err(SecretError::InvalidFormat(e)),
        Err(SecretStringError::InvalidPhrase) => Err(SecretError::InvalidPhrase),
        Err(SecretStringError::InvalidPassword) => Err(SecretError::InvalidPassword),
        Err(SecretStringError::InvalidSeed) => Err(SecretError::InvalidSeed),
        Err(SecretStringError::InvalidSeedLength) => Err(SecretError::InvalidSeedLength),
        Err(SecretStringError::InvalidPath) => Err(SecretError::InvalidPath),
    }
}

/// Calls `sp_core::sr25519::Pair::derive` with the single hard junction `n` and
/// no seed. That implementation folds over the path and returns `Ok` for every
/// path; a hard junction hashes the secret scalar and the junction, so the
/// child's key depends on the parent's key and `n` alone.
#[verifier::external_body]
fn sr25519_derive_hard(pair: &sp_core::sr25519::Pair, n: u64) -> (r: Option<sp_core::sr25519::Pair>)
    ensures
        r is Some,
        sr25519_key(r->0) == sr25519_child_key(sr25519_key(*pair), n),
{
    match pair.derive(core::iter::once(DeriveJunction::hard(n)), None) {
        Ok(derived) => Some(derived.0),
        Err(_) => None,
    }
}

/// Calls `sp_core::ed25519::Pair::derive` with the single hard junction `n` and
/// no seed. That implementation fails only on a soft junction, and the path
/// handed to it here holds none; a hard junction hashes the secret seed and the
/// junction, so the child's key depends on the parent's key and `n` alone.
#[verifier::external_body]
fn ed25519_derive_hard(pair: &sp_core::ed25519::Pair, n: u64) -> (r: Option<sp_core::ed25519::Pair>)
    ensures
        r is Some,
        ed25519_key(r->0) == ed25519_child_key(ed25519_key(*pair), n),
{
    match pair.derive(core::iter::once(DeriveJunction::hard(n)), None) {
        Ok(derived) => Some(derived.0),
        Err(_) => None,
    }
}

/// Calls `sp_core::sr25519::Pair::public` and converts the key to an account
/// id, which holds the key's bytes unchanged. The public key is the one of the
/// pair's secret scalar.
#[verifier::external_body]
fn sr25519_account(pair: &sp_core::sr25519::Pair) -> (r: AccountId32)
    ensures
        account_bytes(r) == sr25519_public(sr25519_key(*pair)),
{
    AccountId32::from(pair.public())
}

/// Calls `sp_core::ed25519::Pair::public` and converts the key to an account
/// id, which holds the key's bytes unchanged. The public key is the one of the
/// pair's secret seed.
#[verifier::external_body]
fn ed25519_account(pair: &sp_core::ed25519::Pair) -> (r: AccountId32)
    ensures
        account_bytes(r) == ed25519_public(ed25519_key(*pair)),
{
    AccountId32::from(pair.public())
}

/// Calls `Ss58Codec::to_ss58check_with_version` on the account id, with the
/// custom address format `version`. The text depends on the id's bytes and the
/// format alone.
#[verifier::external_body]
pub(crate) fn ss58check(account: &AccountId32, version: u16) -> (s: String)
    ensures
        s@ == ss58_text(account_bytes(*account), version),
{
    account.to_ss58check_with_version(Ss58AddressFormat::custom(version))
}

/// A key pair of one of the two signature schemes.
#[derive(Clone)]
pub enum SchemedPair {
    Sr25519(sp_core::sr25519::Pair),
    Ed25519(sp_core::ed25519::Pair),
}

impl SchemedPair {
    /// The scheme that the pair belongs to.
    pub open spec fn scheme(&self) -> Scheme {
        match self {
            SchemedPair::Sr25519(_) => Scheme::Sr25519,
            SchemedPair::Ed25519(_) => Scheme::Ed25519,
        }
    }

    /// The bytes of the pair's secret key.
    pub open spec fn key(&self) -> Seq<u8> {
        match self {
            SchemedPair::Sr25519(p) => sr25519_key(*p),
            SchemedPair::Ed25519(p) => ed25519_key(*p),
        }
    }

    /// The bytes of the pair's public key.
    pub open spec fn public_key(&self) -> Seq<u8> {
        match self {
            SchemedPair::Sr25519(p) => sr25519_public(sr25519_key(*p)),
            SchemedPair::Ed25519(p) => ed25519_public(ed25519_key(*p)),
        }
    }

    /// The secret key of the child pair behind the hard junction `n`.
    pub open spec fn child_key(&self, n: u64) -> Seq<u8> {
        match self {
            SchemedPair::Sr25519(p) => sr25519_child_key(sr25519_key(*p), n),
            SchemedPair::Ed25519(p) => ed25519_child_key(ed25519_key(*p), n),
        }
    }

    /// What the secret URI `uri` gives under `scheme`: the secret key of a
    /// pair, or the reason why there is none.
    pub open spec fn parsed_key(scheme: Scheme, uri: Seq<char>) -> Result<Seq<u8>, SecretError> {
        match scheme {
            Scheme::Sr25519 => sr25519_parsed_key(uri),
            Scheme::Ed25519 => ed25519_parsed_key(uri),
        }
    }

    /// Reads a key pair of `scheme` from a secret URI.
    pub fn from_string(scheme: Scheme, uri: &str) -> (r: Result<SchemedPair, SecretError>)
        ensures
            match r {
                Ok(pair) => pair.scheme() == scheme && SchemedPair::parsed_key(scheme, uri@) == Ok::<
                    Seq<u8>,
                    SecretError,
                >(pair.key()),
                Err(e) => SchemedPair::parsed_key(scheme, uri@) == Err::<Seq<u8>, SecretError>(e),
            },
    {
        match scheme {
            Scheme::Sr25519 => match sr25519_from_string(uri) {
                Ok(p) => Ok(SchemedPair::Sr25519(p)),
                Err(e) => Err(e),
            },
            Scheme::Ed25519 => match ed25519_from_string(uri) {
                Ok(p) => Ok(SchemedPair::Ed25519(p)),
                Err(e) => Err(e),
            },
        }
    }

    /// The account id of the pair's public key.
    pub fn account_id(&self) -> (account: AccountId32)
        ensures
            account_bytes(account) == self.public_key(),
    {
        match self {
            SchemedPair::Sr25519(p) => sr25519_account(p),
            SchemedPair::Ed25519(p) => ed25519_account(p),
        }
    }

    /// The child pair behind the hard junction `n`; the scheme stays the same.
    pub fn derive(&self, n: u64) -> (child: Self)
        ensures
            child.scheme() == self.scheme(),
            child.key() == self.child_key(n),
    {
        match self {
            SchemedPair::Sr25519(p) => match sr25519_derive_hard(p, n) {
                Some(q) => SchemedPair::Sr25519(q),
                None => vstd::pervasive::unreached(),
            },
            SchemedPair::Ed25519(p) => match ed25519_derive_hard(p, n) {
                Some(q) => SchemedPair::Ed25519(q),
                None => vstd::pervasive::unreached(),
            },
        }
    }
}

} // verus!
