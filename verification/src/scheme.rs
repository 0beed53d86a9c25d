use crate::text::fold_case;
use crate::text::folded;
use crate::text::same_text;
use vstd::prelude::*;

verus! {

/// The signature schemes for which keys can be searched.
#[derive(Debug, Clone, Copy, PartialEq, Eq, Structural)]
pub enum Scheme {
    Sr25519,
    Ed25519,
}

/// The scheme that a lowercase name stands for.
pub open spec fn scheme_named(lower: Seq<char>) -> Option<Scheme> {
    if lower == "sr25519"@ {
        Some(Scheme::Sr25519)
    } else if lower == "eddsa"@ || lower == "ed25519"@ {
        Some(Scheme::Ed25519)
    } else {
        None
    }
}

impl Scheme {
    /// Looks a lowercase scheme name up.
    pub fn from_lowercase(lower: &str) -> (r: Option<Scheme>)
        ensures
            r == scheme_named(lower@),
    {
        if same_text(lower, "sr25519") {
            Some(Scheme::Sr25519)
        } else if same_text(lower, "eddsa") || same_text(lower, "ed25519") {
            Some(Scheme::Ed25519)
        } else {
            None
        }
    }

    /// Parses a scheme name without regard to case. An unknown name is handed
    /// back inside the error message.
    pub fn from_str(scheme: &str) -> (r: Result<Scheme, String>)
        ensures
            match scheme_named(folded(scheme@)) {
                Some(s) => r == Ok::<Scheme, String>(s),
                None => r matches Err(message) && message@ == "Unrecognized Scheme: "@ + scheme@,
            },
    {
        let lower = fold_case(scheme);
        match Scheme::from_lowercase(lower.as_str()) {
            Some(s) => Ok(s),
            None => Err(String::from_str("Unrecognized Scheme: ").concat(scheme)),
        }
    }
}

} // verus!
