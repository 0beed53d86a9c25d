use crate::keys::ss58_text;
use crate::keys::ss58check;
use crate::keys::SchemedPair;
use crate::keys::SecretError;
use crate::scheme::Scheme;
use crate::text::decimal;
use crate::text::decimal_string;
use vstd::prelude::*;

verus! {

/// The SS58 address format under which addresses are written.
pub const ADDRESS_FORMAT: u16 = 42;

/// The numbers of `secret` in decimal, joined by `//`.
pub open spec fn joined_secret(secret: Seq<u32>) -> Seq<char>
    decreases secret.len(),
{
    if secret.len() == 0 {
        Seq::empty()
    } else if secret.len() == 1 {
        decimal(secret[0] as nat)
    } else {
        joined_secret(secret.drop_last()) + "//"@ + decimal(secret.last() as nat)
    }
}

/// The secret URI of a base candidate: the seed prefix, then every number of
/// `secret` as a hard junction.
pub open spec fn base_seed(prefix: Seq<char>, secret: Seq<u32>) -> Seq<char> {
    prefix + "//"@ + joined_secret(secret)
}

/// The secret URI of the child of `seed` behind the hard junction `n`.
pub open spec fn child_seed(seed: Seq<char>, n: u32) -> Seq<char> {
    seed + "//"@ + decimal(n as nat)
}

/// A key pair under search, with the address it is ranked by and the secret URI
/// that leads to it.
#[derive(Clone)]
pub struct Candidate {
    /// The text by which the candidate is ranked.
    pub address: String,
    /// The key pair itself.
    pub pair: SchemedPair,
    /// The secret URI from which the key pair can be had again.
    pub seed: String,
}

impl Candidate {
    /// Whether the address is the SS58 text, under [`ADDRESS_FORMAT`], of the
    /// public key of the candidate's pair.
    pub open spec fn has_address_of_pair(&self) -> bool {
        self.address@ == ss58_text(self.pair.public_key(), ADDRESS_FORMAT)
    }

    /// Whether this is the candidate behind the hard junction `n` of `parent`:
    /// of the same scheme, with the child's key, the address of that key, and
    /// the parent's secret URI lengthened by the junction.
    pub open spec fn is_child_of(&self, parent: Candidate, n: u32) -> bool {
        &&& self.pair.scheme() == parent.pair.scheme()
        &&& self.pair.key() == parent.pair.child_key(n as u64)
        &&& self.seed@ == child_seed(parent.seed@, n)
        &&& self.has_address_of_pair()
    }

    /// The candidate at the root of a search: its secret URI is `seed` followed
    /// by the numbers of `secret` as hard junctions.
    pub fn base(scheme: Scheme, seed: &str, secret: [u32; 7]) -> (r: Result<Candidate, SecretError>)
        ensures
            match r {
                Ok(c) => SchemedPair::parsed_key(scheme, base_seed(seed@, secret@)) == Ok::<
                    Seq<u8>,
                    SecretError,
                >(c.pair.key()) && c.pair.scheme() == scheme && c.seed@ == base_seed(seed@, secret@)
                    && c.has_address_of_pair(),
                Err(e) => SchemedPair::parsed_key(scheme, base_seed(seed@, secret@)) == Err::<
                    Seq<u8>,
                    SecretError,
                >(e),
            },
    {
        let mut suffix = decimal_string(secret[0]);
        let mut i: usize = 1;
        while i < 7
            invariant
                1 <= i <= 7,
                suffix@ == joined_secret(secret@.take(i as int)),
            decreases 7 - i,
        {
            suffix.append("//");
            suffix.append(decimal_string(secret[i]).as_str());
            proof {
                let next = secret@.take(i + 1);
                assert(next.drop_last() =~= secret@.take(i as int));
                assert(next.last() == secret@[i as int]);
            }
            i = i + 1;
        }
        assert(secret@.take(7) =~= secret@);
        let full = String::from_str(seed).concat("//").concat(suffix.as_str());
        assert(full@ =~= base_seed(seed@, secret@));
        match SchemedPair::from_string(scheme, full.as_str()) {
            Ok(pair) => Ok(Candidate::new(pair, full)),
            Err(e) => Err(e),
        }
    }

    /// The candidate of `pair`, whose address is the SS58 text of the pair's
    /// account id.
    pub fn new(pair: SchemedPair, seed: String) -> (c: Candidate)
        ensures
            c.pair == pair,
            c.seed == seed,
            c.address@ == ss58_text(pair.public_key(), ADDRESS_FORMAT),
    {
        let address = ss58check(&pair.account_id(), ADDRESS_FORMAT);
        Candidate { address, pair, seed }
    }

    /// The candidate behind the hard junction `n` of this one.
    pub fn derive(&self, n: u32) -> (c: Candidate)
        ensures
            c.is_child_of(*self, n),
    {
        let new_pair = self.pair.derive(n as u64);
        let seed = self.seed.clone().concat("//").concat(decimal_string(n).as_str());
        assert(seed@ =~= child_seed(self.seed@, n));
        Candidate::new(new_pair, seed)
    }
}

} // verus!
