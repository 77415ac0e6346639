//! The capability through which a pass type supplies its credential subject.
use vstd::prelude::*;

verus! {

/// A credential subject schema. The type tag it claims is matched against the
/// second element of the credential's `type`, and it decodes its own subject
/// map from the claims record.
pub trait Pass: Sized {
    /// Why a subject was rejected.
    type Error;

    /// The credential type this pass decodes (e.g. `PublicCovidPass`).
    spec fn spec_credential_type() -> Seq<char>;

    /// Whether `v` is what the subject item at `pos` of `b` decodes to.
    spec fn decodes_to(b: Seq<u8>, pos: int, v: Self) -> bool;

    /// The error that decoding the subject item at `pos` of `b` gives, if any.
    spec fn decode_error(b: Seq<u8>, pos: int) -> Option<Self::Error>;

    /// The type ID of the pass, given in `vc.type[1]`.
    fn credential_type() -> (r: &'static str)
        ensures
            r@ == Self::spec_credential_type(),
    ;

    /// Decodes the subject item at `pos`.
    fn decode_subject(b: &[u8], pos: usize) -> (r: Result<Self, Self::Error>)
        ensures
            match r {
                Ok(v) => Self::decode_error(b@, pos as int) is None && Self::decodes_to(
                    b@,
                    pos as int,
                    v,
                ),
                Err(e) => Self::decode_error(b@, pos as int) == Some(e),
            },
    ;
}

} // verus!
