//! Decentralized identifiers naming a credential's issuer.
use vstd::prelude::*;
use crate::barcode::strip_prefix;

verus! {

/// An issuer identifier. `did:web:` is the only supported method; a new
/// method is a new variant.
#[derive(Debug, Clone, PartialEq, Eq)]
pub enum DecentralizedIdentifier {
    /// `did:web:<domain>`, holding the domain part.
    Web(String),
}

/// The prefix of a web identifier.
pub open spec fn did_web_prefix() -> Seq<char> {
    seq!['d', 'i', 'd', ':', 'w', 'e', 'b', ':']
}

/// The domain named by an identifier text, when its method is `web`.
pub open spec fn web_domain(s: Seq<char>) -> Option<Seq<char>> {
    if did_web_prefix().is_prefix_of(s) {
        Some(s.skip(8))
    } else {
        None
    }
}

impl DecentralizedIdentifier {
    /// The characters of the domain part.
    pub open spec fn domain(&self) -> Seq<char> {
        match self {
            DecentralizedIdentifier::Web(d) => d@,
        }
    }

    /// Parses `did:web:<domain>`; the domain may be empty. Any other method
    /// gives `None`.
    pub fn parse(s: &str) -> (r: Option<DecentralizedIdentifier>)
        ensures
            match r {
                Some(id) => web_domain(s@) == Some(id.domain()),
                None => web_domain(s@) is None,
            },
            !did_web_prefix().is_prefix_of(s@) ==> r is None,
    {
        proof {
            reveal_strlit("did:web:");
        }
        match strip_prefix(s, "did:web:") {
            Some(rest) => {
                assert(rest@ =~= s@.skip(8));
                Some(DecentralizedIdentifier::Web(rest.to_owned()))
            },
            None => None,
        }
    }
}

} // verus!
