use crate::candidate::Candidate;
use crate::ranking::lemma_matching_prefix_len;
use crate::ranking::lemma_positional_matches_bound;
use crate::ranking::lemma_prefix_iff_full_match;
use crate::ranking::lemma_prefix_matches_everywhere;
use crate::ranking::matching_positions;
use crate::ranking::matching_prefix_len;
use crate::ranking::matching_prefix_length;
use crate::ranking::positional_matches;
use crate::scheme::Scheme;
use crate::text::fold_case;
use crate::text::folded;
use crate::text::lemma_ascii_lowercased_keeps_prefix;
use vstd::prelude::*;
use vstd::utf8::is_ascii_chars;

verus! {

/// What a search looks for and how candidates are ranked against it.
#[derive(Debug, Clone)]
pub struct Options {
    /// Desired prefix of the address.
    pub prefix: String,
    /// Prefix for the secret seed.
    pub seed_prefix: String,
    /// Whether the prefix is compared with regard to case.
    pub only_case_sensitive: bool,
    /// The scheme to generate keys for.
    pub scheme: Scheme,
}

/// The address of the best candidate so far, if there is one.
pub open spec fn address_of(best: Option<Candidate>) -> Option<Seq<char>> {
    match best {
        Some(b) => Some(b.address@),
        None => None,
    }
}

impl Options {
    /// First ranking criterion: how much of the desired prefix `address` starts
    /// with, in the configured case mode.
    pub open spec fn prefix_rank(&self, address: Seq<char>) -> nat {
        if self.only_case_sensitive {
            matching_prefix_len(self.prefix@, address)
        } else {
            matching_prefix_len(folded(self.prefix@), folded(address))
        }
    }

    /// Second ranking criterion: at how many positions `address` holds the very
    /// character of the desired prefix.
    pub open spec fn match_rank(&self, address: Seq<char>) -> nat {
        positional_matches(self.prefix@, address)
    }

    /// Whether `new` ranks strictly above `old`: by the first criterion, and by
    /// the second where the first ties. A tie on both is no improvement.
    pub open spec fn outranks(&self, new: Seq<char>, old: Seq<char>) -> bool {
        self.prefix_rank(new) > self.prefix_rank(old) || (self.prefix_rank(new) == self.prefix_rank(
            old,
        ) && self.match_rank(new) > self.match_rank(old))
    }

    /// Whether an address improves on the best so far; anything improves on
    /// nothing.
    pub open spec fn improves(&self, new: Seq<char>, best: Option<Seq<char>>) -> bool {
        match best {
            Some(b) => self.outranks(new, b),
            None => true,
        }
    }

    /// Whether `address` starts with the desired prefix as written.
    pub open spec fn perfect(&self, address: Seq<char>) -> bool {
        self.prefix@.is_prefix_of(address)
    }

    /// Whether `candidate` is strictly better than the best so far.
    pub fn is_better(&self, candidate: &Candidate, best_so_far: &Option<Candidate>) -> (better:
        bool)
        ensures
            better == self.improves(candidate.address@, address_of(*best_so_far)),
    {
        match best_so_far {
            Some(b) => self.str_is_better(candidate.address.as_str(), b.address.as_str()),
            None => true,
        }
    }

    /// Whether the address `new` ranks strictly above the address `old`.
    pub fn str_is_better(&self, new: &str, old: &str) -> (better: bool)
        ensures
            better == self.outranks(new@, old@),
    {
        let new_prefix = self.loose_prefix_match(new);
        let old_prefix = self.loose_prefix_match(old);
        if new_prefix > old_prefix {
            return true;
        }
        if new_prefix < old_prefix {
            return false;
        }
        let new_count = self.match_count(new);
        let old_count = self.match_count(old);
        new_count > old_count
    }

    /// How many leading characters `other` shares with the desired prefix, both
    /// lowercased first unless the search is case sensitive.
    pub fn loose_prefix_match(&self, other: &str) -> (n: usize)
        ensures
            n == self.prefix_rank(other@),
    {
        if self.only_case_sensitive {
            matching_prefix_length(self.prefix.as_str(), other)
        } else {
            let prefix = fold_case(self.prefix.as_str());
            let other = fold_case(other);
            matching_prefix_length(prefix.as_str(), other.as_str())
        }
    }

    /// At how many positions `other` holds the very character of the desired
    /// prefix.
    pub fn match_count(&self, other: &str) -> (n: usize)
        ensures
            n == self.match_rank(other@),
    {
        matching_positions(self.prefix.as_str(), other)
    }

    /// Whether the candidate's address starts with the desired prefix as
    /// written: the search is then over.
    pub fn is_perfect_match(&self, candidate: &Candidate) -> (perfect: bool)
        ensures
            perfect == self.perfect(candidate.address@),
    {
        let shared = matching_prefix_length(self.prefix.as_str(), candidate.address.as_str());
        let wanted = self.prefix.as_str().unicode_len();
        proof {
            lemma_prefix_iff_full_match(self.prefix@, candidate.address@);
        }
        shared == wanted
    }
}

/// No address ranks above itself.
pub proof fn lemma_outranks_is_irreflexive(options: Options, a: Seq<char>)
    ensures
        !options.outranks(a, a),
{
}

/// Of two addresses that tie on both criteria neither ranks above the other.
pub proof fn lemma_tie_is_no_improvement(options: Options, new: Seq<char>, old: Seq<char>)
    requires
        options.prefix_rank(new) == options.prefix_rank(old),
        options.match_rank(new) == options.match_rank(old),
    ensures
        !options.outranks(new, old),
        !options.outranks(old, new),
{
}

/// Any two addresses are comparable: one ranks above the other, or they tie on
/// both criteria.
pub proof fn lemma_outranks_or_ties(options: Options, a: Seq<char>, b: Seq<char>)
    ensures
        options.outranks(a, b) || options.outranks(b, a) || (options.prefix_rank(a)
            == options.prefix_rank(b) && options.match_rank(a) == options.match_rank(b)),
{
}

/// Of two addresses at most one ranks above the other.
pub proof fn lemma_outranks_is_asymmetric(options: Options, a: Seq<char>, b: Seq<char>)
    ensures
        options.outranks(a, b) ==> !options.outranks(b, a),
{
}

/// Nothing ranks above an address that starts with the desired prefix as
/// written. Where case is ignored this is stated of ASCII addresses, whose
/// letters are lowered one by one.
pub proof fn lemma_nothing_outranks_perfect(options: Options, best: Seq<char>, other: Seq<char>)
    requires
        options.perfect(best),
        options.only_case_sensitive || is_ascii_chars(best),
    ensures
        !options.outranks(other, best),
{
    let p = options.prefix@;
    lemma_prefix_matches_everywhere(p, best);
    lemma_positional_matches_bound(p, other);
    if options.only_case_sensitive {
        lemma_matching_prefix_len(p, other);
    } else {
        lemma_ascii_lowercased_keeps_prefix(p, best);
        lemma_prefix_matches_everywhere(folded(p), folded(best));
        lemma_matching_prefix_len(folded(p), folded(other));
    }
}

/// What ranks above an address ranks above everything that the address ranks
/// above.
pub proof fn lemma_outranks_is_transitive(
    options: Options,
    a: Seq<char>,
    b: Seq<char>,
    c: Seq<char>,
)
    requires
        options.outranks(a, b),
        options.outranks(b, c),
    ensures
        options.outranks(a, c),
{
}

} // verus!
