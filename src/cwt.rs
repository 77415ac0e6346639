//! The CWT claims record of a pass and its verifiable credential envelope.
use vstd::prelude::*;
use vstd::utf8::encode_utf8_decode_utf8;
use crate::barcode::QrBarcode;
use crate::cbor::{
    be_value, read_be, read_string, string_at, array_at, field_at, find_field, find_labelled_field, int_value, item_end, label_view,
    labelled_field_at, lemma_texts_from_len, map_at, read_head, read_int, read_text,
    read_text_array, skip, strings_view, text_array, text_value,
};
use crate::did::{did_web_prefix, web_domain, DecentralizedIdentifier};
use crate::pass::Pass;

verus! {

/// The claims a pass must carry.
#[derive(Debug, Clone, Copy, PartialEq, Eq, Structural)]
pub enum ClaimField {
    /// `cti`, the token identifier.
    TokenId,
    /// `iss`, the issuer.
    Issuer,
    /// `nbf`, the start of validity.
    NotBefore,
    /// `exp`, the end of validity.
    Expiry,
    /// `vc`, the verifiable credential envelope.
    VerifiableCredential,
    /// `@context` of the envelope.
    Context,
    /// `type` of the envelope.
    Type,
    /// `version` of the envelope.
    Version,
    /// `credentialSubject` of the envelope.
    CredentialSubject,
}

/// Why a claims record was rejected; `E` is the error of the pass subject.
#[derive(Debug, Clone, PartialEq, Eq)]
pub enum CwtError<E> {
    /// The bytes are not exactly one well-formed CBOR map.
    MalformedRecord,
    /// A required claim is absent.
    MissingField(ClaimField),
    /// A claim holds a value of the wrong kind.
    WrongFieldType(ClaimField),
    /// A timestamp claim names a time outside the calendar's range.
    TimestampOutOfRange(ClaimField),
    /// The token identifier is not a UUID.
    InvalidIdentifier,
    /// The issuer is not a `did:web:` identifier.
    UnsupportedIdentifierScheme,
    /// `@context` is not a non-empty array of text.
    WrongContextShape,
    /// `type` does not have exactly two elements.
    WrongTypeArity,
    /// The second element of `type` is not the requested pass type.
    CredentialTypeMismatch,
    /// The credential subject was rejected by the pass type.
    SubjectDecodeFailed(E),
}

/// A point in time, in whole seconds since the Unix epoch, that the calendar
/// can represent.
#[derive(Debug, Clone, Copy, PartialEq, Eq, Structural)]
pub struct Timestamp {
    seconds: i64,
}

/// The verifiable credential envelope.
#[derive(Debug, PartialEq, Eq)]
pub struct VerifiableCredential<T> {
    /// JSON-LD contexts, in order; never empty.
    pub context: Vec<String>,
    /// The two elements of `type`: `VerifiableCredential` and the pass type.
    pub credential_type: (String, String),
    /// The version of the pass format, kept as written.
    pub version: String,
    pub credential_subject: T,
}

/// The decoded claims of a pass.
#[derive(Debug, PartialEq, Eq)]
pub struct CwtPayload<T> {
    pub cwt_token_id: u128,
    pub issuer: DecentralizedIdentifier,
    pub not_before: Timestamp,
    pub expiry: Timestamp,
    pub verifiable_credential: VerifiableCredential<T>,
}

/// The value of a UUID text, as a big-endian 128-bit number.
pub uninterp spec fn uuid_value(s: Seq<char>) -> Option<u128>;

/// Whether a number of seconds since the epoch is a representable UTC time:
/// from the first second of year -262143 to the last of year 262142.
pub open spec fn utc_timestamp_exists(seconds: int) -> bool {
    -8_334_601_228_800 <= seconds <= 8_210_266_876_799
}

/// Relies on `uuid::Uuid::parse_str`, which reads the simple, hyphenated,
/// braced and `urn:uuid:` forms, and on `Uuid::as_u128`.
#[verifier::external_body]
fn parse_uuid(s: &str) -> (r: Option<u128>)
    ensures
        r == uuid_value(s@),
{
    uuid::Uuid::parse_str(s).ok().map(|u| u.as_u128())
}

/// Relies on `chrono::DateTime::from_timestamp`, which gives a time exactly
/// for the seconds whose date lies within chrono's years -262143 to 262142.
#[verifier::external_body]
fn timestamp_exists(seconds: i64) -> (r: bool)
    ensures
        r == utc_timestamp_exists(seconds as int),
{
    chrono::DateTime::from_timestamp(seconds, 0).is_some()
}

impl Timestamp {
    /// Every timestamp names a representable UTC time.
    #[verifier::type_invariant]
    spec fn representable(self) -> bool {
        utc_timestamp_exists(self.seconds as int)
    }

    pub closed spec fn spec_seconds(&self) -> i64 {
        self.seconds
    }

    /// Seconds since the Unix epoch.
    pub fn seconds(&self) -> (r: i64)
        ensures
            r == self.spec_seconds(),
            utc_timestamp_exists(r as int),
    {
        proof {
            use_type_invariant(self);
        }
        self.seconds
    }
}

pub open spec fn cti_key() -> Seq<u8> {
    seq![99u8, 116, 105]
}

pub open spec fn iss_key() -> Seq<u8> {
    seq![105u8, 115, 115]
}

pub open spec fn nbf_key() -> Seq<u8> {
    seq![110u8, 98, 102]
}

pub open spec fn exp_key() -> Seq<u8> {
    seq![101u8, 120, 112]
}

/// The registered CWT claim numbers, which stand for the claim names.
pub open spec fn iss_label() -> Option<nat> {
    Some(1)
}

pub open spec fn exp_label() -> Option<nat> {
    Some(4)
}

pub open spec fn nbf_label() -> Option<nat> {
    Some(5)
}

pub open spec fn cti_label() -> Option<nat> {
    Some(7)
}

pub open spec fn vc_key() -> Seq<u8> {
    seq![118u8, 99]
}

pub open spec fn context_key() -> Seq<u8> {
    seq![64u8, 99, 111, 110, 116, 101, 120, 116]
}

pub open spec fn type_key() -> Seq<u8> {
    seq![116u8, 121, 112, 101]
}

pub open spec fn version_key() -> Seq<u8> {
    seq![118u8, 101, 114, 115, 105, 111, 110]
}

pub open spec fn subject_key() -> Seq<u8> {
    seq![99u8, 114, 101, 100, 101, 110, 116, 105, 97, 108, 83, 117, 98, 106, 101, 99, 116]
}

/// Whether `b` is exactly one well-formed CBOR map.
pub open spec fn is_claims_record(b: Seq<u8>) -> bool {
    item_end(b, 0) == Some(b.len() as int) && map_at(b, 0) is Some
}

/// The text under `key` (or `label`) of the map at `m`, or why it is rejected.
pub open spec fn text_claim<E>(
    b: Seq<u8>,
    m: int,
    key: Seq<u8>,
    label: Option<nat>,
    field: ClaimField,
) -> Result<Seq<char>, CwtError<E>> {
    match labelled_field_at(b, m, key, label) {
        None => Err(CwtError::MissingField(field)),
        Some(v) => match text_value(b, v) {
            Some(t) => Ok(t),
            None => Err(CwtError::WrongFieldType(field)),
        },
    }
}

/// The token identifier of the record: a UUID text, or the 16 bytes of a
/// UUID read big-endian.
pub open spec fn token_id_claim<E>(b: Seq<u8>) -> Result<u128, CwtError<E>> {
    match labelled_field_at(b, 0, cti_key(), cti_label()) {
        None => Err(CwtError::MissingField(ClaimField::TokenId)),
        Some(v) => match text_value(b, v) {
            Some(t) => match uuid_value(t) {
                Some(u) => Ok(u),
                None => Err(CwtError::InvalidIdentifier),
            },
            None => match string_at(b, v, 2) {
                Some((start, end)) => if end - start == 16 {
                    Ok(be_value(b.subrange(start, end)) as u128)
                } else {
                    Err(CwtError::InvalidIdentifier)
                },
                None => Err(CwtError::WrongFieldType(ClaimField::TokenId)),
            },
        },
    }
}

/// The issuer domain of the record.
pub open spec fn issuer_claim<E>(b: Seq<u8>) -> Result<Seq<char>, CwtError<E>> {
    match text_claim(b, 0, iss_key(), iss_label(), ClaimField::Issuer) {
        Err(e) => Err(e),
        Ok(t) => match web_domain(t) {
            Some(d) => Ok(d),
            None => Err(CwtError::UnsupportedIdentifierScheme),
        },
    }
}

/// The timestamp under `key` (or `label`) of the record.
pub open spec fn time_claim<E>(b: Seq<u8>, key: Seq<u8>, label: Option<nat>, field: ClaimField) -> Result<
    i64,
    CwtError<E>,
> {
    match labelled_field_at(b, 0, key, label) {
        None => Err(CwtError::MissingField(field)),
        Some(v) => match int_value(b, v) {
            None => Err(CwtError::WrongFieldType(field)),
            Some(n) => if i64::MIN <= n <= i64::MAX && utc_timestamp_exists(n) {
                Ok(n as i64)
            } else {
                Err(CwtError::TimestampOutOfRange(field))
            },
        },
    }
}

/// Where the credential envelope map of the record starts.
pub open spec fn envelope_claim<E>(b: Seq<u8>) -> Result<int, CwtError<E>> {
    match field_at(b, 0, vc_key()) {
        None => Err(CwtError::MissingField(ClaimField::VerifiableCredential)),
        Some(v) => if map_at(b, v) is Some {
            Ok(v)
        } else {
            Err(CwtError::WrongFieldType(ClaimField::VerifiableCredential))
        },
    }
}

/// The contexts of the envelope at `v`.
pub open spec fn context_claim<E>(b: Seq<u8>, v: int) -> Result<Seq<Seq<char>>, CwtError<E>> {
    match field_at(b, v, context_key()) {
        None => Err(CwtError::MissingField(ClaimField::Context)),
        Some(c) => match text_array(b, c) {
            Some(s) => if s.len() > 0 {
                Ok(s)
            } else {
                Err(CwtError::WrongContextShape)
            },
            None => Err(CwtError::WrongContextShape),
        },
    }
}

/// The two elements of `type` of the envelope at `v`.
pub open spec fn type_claim<E>(b: Seq<u8>, v: int) -> Result<(Seq<char>, Seq<char>), CwtError<E>> {
    match field_at(b, v, type_key()) {
        None => Err(CwtError::MissingField(ClaimField::Type)),
        Some(t) => match array_at(b, t) {
            None => Err(CwtError::WrongFieldType(ClaimField::Type)),
            Some((count, _first)) => if count != 2 {
                Err(CwtError::WrongTypeArity)
            } else {
                match text_array(b, t) {
                    Some(s) => Ok((s[0], s[1])),
                    None => Err(CwtError::WrongFieldType(ClaimField::Type)),
                }
            },
        },
    }
}

/// Where the subject of the envelope at `v` starts, once the pass type
/// `tag` has been checked against the requested one.
pub open spec fn subject_claim<T: Pass>(b: Seq<u8>, v: int, tag: Seq<char>) -> Result<
    int,
    CwtError<T::Error>,
> {
    match field_at(b, v, subject_key()) {
        None => Err(CwtError::MissingField(ClaimField::CredentialSubject)),
        Some(s) => if tag != T::spec_credential_type() {
            Err(CwtError::CredentialTypeMismatch)
        } else {
            match T::decode_error(b, s) {
                Some(e) => Err(CwtError::SubjectDecodeFailed(e)),
                None => Ok(s),
            }
        },
    }
}

/// The first reason, in the order of its fields, for which the envelope at
/// `v` is rejected as holding a pass of type `T`.
pub open spec fn envelope_error<T: Pass>(b: Seq<u8>, v: int) -> Option<CwtError<T::Error>> {
    if let Err(e) = context_claim::<T::Error>(b, v) {
        Some(e)
    } else if let Err(e) = type_claim::<T::Error>(b, v) {
        Some(e)
    } else if let Err(e) = text_claim::<T::Error>(b, v, version_key(), None, ClaimField::Version) {
        Some(e)
    } else if let Err(e) = subject_claim::<T>(b, v, (type_claim::<T::Error>(b, v)->Ok_0).1) {
        Some(e)
    } else {
        None
    }
}

/// Whether every field of `vc` is the value that the envelope at `v` encodes.
pub open spec fn envelope_match<T: Pass>(b: Seq<u8>, v: int, vc: VerifiableCredential<T>) -> bool {
    &&& context_claim::<T::Error>(b, v) == Ok::<_, CwtError<T::Error>>(strings_view(vc.context@))
    &&& type_claim::<T::Error>(b, v) == Ok::<_, CwtError<T::Error>>(
        (vc.credential_type.0@, vc.credential_type.1@),
    )
    &&& text_claim::<T::Error>(b, v, version_key(), None, ClaimField::Version) == Ok::<
        _,
        CwtError<T::Error>,
    >(vc.version@)
    &&& T::decodes_to(b, field_at(b, v, subject_key())->Some_0, vc.credential_subject)
}

/// The first reason, in the order of the claims, for which the record `b`
/// is rejected as a pass of type `T`; `None` when it is accepted.
pub open spec fn claims_error<T: Pass>(b: Seq<u8>) -> Option<CwtError<T::Error>> {
    if !is_claims_record(b) {
        Some(CwtError::MalformedRecord)
    } else if let Err(e) = token_id_claim::<T::Error>(b) {
        Some(e)
    } else if let Err(e) = issuer_claim::<T::Error>(b) {
        Some(e)
    } else if let Err(e) = time_claim::<T::Error>(b, nbf_key(), nbf_label(), ClaimField::NotBefore) {
        Some(e)
    } else if let Err(e) = time_claim::<T::Error>(b, exp_key(), exp_label(), ClaimField::Expiry) {
        Some(e)
    } else if let Err(e) = envelope_claim::<T::Error>(b) {
        Some(e)
    } else {
        envelope_error::<T>(b, envelope_claim::<T::Error>(b)->Ok_0)
    }
}

/// Whether every field of `p` is the value that the record `b` encodes.
pub open spec fn claims_match<T: Pass>(b: Seq<u8>, p: CwtPayload<T>) -> bool {
    &&& token_id_claim::<T::Error>(b) == Ok::<_, CwtError<T::Error>>(p.cwt_token_id)
    &&& issuer_claim::<T::Error>(b) == Ok::<_, CwtError<T::Error>>(p.issuer.domain())
    &&& time_claim::<T::Error>(b, nbf_key(), nbf_label(), ClaimField::NotBefore) == Ok::<
        _,
        CwtError<T::Error>,
    >(p.not_before.spec_seconds())
    &&& time_claim::<T::Error>(b, exp_key(), exp_label(), ClaimField::Expiry) == Ok::<_, CwtError<T::Error>>(
        p.expiry.spec_seconds(),
    )
    &&& envelope_match(b, envelope_claim::<T::Error>(b)->Ok_0, p.verifiable_credential)
}

/// A well-formed record that lacks a required claim is rejected with
/// `MissingField` naming that claim, once every claim before it decodes.
pub proof fn lemma_missing_claim_is_named<T: Pass>(b: Seq<u8>)
    requires
        is_claims_record(b),
    ensures
        labelled_field_at(b, 0, cti_key(), cti_label()) is None ==> claims_error::<T>(b) == Some(
            CwtError::<T::Error>::MissingField(ClaimField::TokenId),
        ),
        token_id_claim::<T::Error>(b) is Ok && labelled_field_at(b, 0, iss_key(), iss_label()) is None
            ==> claims_error::<T>(b) == Some(CwtError::<T::Error>::MissingField(ClaimField::Issuer)),
        token_id_claim::<T::Error>(b) is Ok && issuer_claim::<T::Error>(b) is Ok && labelled_field_at(b, 0, nbf_key(), nbf_label()) is None ==> claims_error::<T>(b) == Some(
            CwtError::<T::Error>::MissingField(ClaimField::NotBefore),
        ),
        token_id_claim::<T::Error>(b) is Ok && issuer_claim::<T::Error>(b) is Ok && time_claim::<
            T::Error,
        >(b, nbf_key(), nbf_label(), ClaimField::NotBefore) is Ok && labelled_field_at(b, 0, exp_key(), exp_label()) is None
            ==> claims_error::<T>(b) == Some(CwtError::<T::Error>::MissingField(ClaimField::Expiry)),
        token_id_claim::<T::Error>(b) is Ok && issuer_claim::<T::Error>(b) is Ok && time_claim::<
            T::Error,
        >(b, nbf_key(), nbf_label(), ClaimField::NotBefore) is Ok && time_claim::<T::Error>(
            b,
            exp_key(),
            exp_label(),
            ClaimField::Expiry,
        ) is Ok && field_at(b, 0, vc_key()) is None ==> claims_error::<T>(b) == Some(
            CwtError::<T::Error>::MissingField(ClaimField::VerifiableCredential),
        ),
{
}

/// A record whose issuer is text not beginning with `did:web:` is rejected
/// with `UnsupportedIdentifierScheme`, once the token identifier decodes.
pub proof fn lemma_unsupported_issuer_rejected<T: Pass>(b: Seq<u8>, v: int)
    requires
        is_claims_record(b),
        token_id_claim::<T::Error>(b) is Ok,
        labelled_field_at(b, 0, iss_key(), iss_label()) == Some(v),
        text_value(b, v) is Some,
        !did_web_prefix().is_prefix_of(text_value(b, v)->Some_0),
    ensures
        claims_error::<T>(b) == Some(CwtError::<T::Error>::UnsupportedIdentifierScheme),
{
}

/// A record whose subject names a pass type other than the requested one
/// is rejected with `CredentialTypeMismatch`, once every claim before the
/// subject decodes.
pub proof fn lemma_other_pass_type_rejected<T: Pass>(b: Seq<u8>)
    requires
        is_claims_record(b),
        token_id_claim::<T::Error>(b) is Ok,
        issuer_claim::<T::Error>(b) is Ok,
        time_claim::<T::Error>(b, nbf_key(), nbf_label(), ClaimField::NotBefore) is Ok,
        time_claim::<T::Error>(b, exp_key(), exp_label(), ClaimField::Expiry) is Ok,
        envelope_claim::<T::Error>(b) is Ok,
        context_claim::<T::Error>(b, envelope_claim::<T::Error>(b)->Ok_0) is Ok,
        type_claim::<T::Error>(b, envelope_claim::<T::Error>(b)->Ok_0) is Ok,
        text_claim::<T::Error>(
            b,
            envelope_claim::<T::Error>(b)->Ok_0,
            version_key(),
            None,
            ClaimField::Version,
        ) is Ok,
        field_at(b, envelope_claim::<T::Error>(b)->Ok_0, subject_key()) is Some,
        (type_claim::<T::Error>(b, envelope_claim::<T::Error>(b)->Ok_0)->Ok_0).1
            != T::spec_credential_type(),
    ensures
        claims_error::<T>(b) == Some(CwtError::<T::Error>::CredentialTypeMismatch),
{
}

/// Whether two texts hold the same characters.
fn same_text(a: &str, b: &str) -> (r: bool)
    ensures
        r == (a@ == b@),
{
    let x = a.as_bytes();
    let y = b.as_bytes();
    proof {
        encode_utf8_decode_utf8(a@);
        encode_utf8_decode_utf8(b@);
    }
    if x.len() != y.len() {
        return false;
    }
    let mut i: usize = 0;
    while i < x.len()
        invariant
            x@.len() == y@.len(),
            x@ == vstd::utf8::encode_utf8(a@),
            y@ == vstd::utf8::encode_utf8(b@),
            i <= x@.len(),
            forall|j: int| 0 <= j < i ==> x@[j] == y@[j],
        decreases x@.len() - i,
    {
        if x[i] != y[i] {
            assert(x@ != y@);
            return false;
        }
        i = i + 1;
    }
    assert(x@ =~= y@);
    true
}

/// Reads the text under `key` (or `label`) of the map at `m`.
fn read_text_claim<E>(b: &[u8], m: usize, key: &[u8], label: Option<u64>, field: ClaimField) -> (r: Result<
    String,
    CwtError<E>,
>)
    ensures
        match r {
            Ok(s) => text_claim::<E>(b@, m as int, key@, label_view(label), field) == Ok::<
                _,
                CwtError<E>,
            >(s@),
            Err(e) => text_claim::<E>(b@, m as int, key@, label_view(label), field) == Err::<
                Seq<char>,
                _,
            >(e),
        },
{
    match find_labelled_field(b, m, key, label) {
        None => Err(CwtError::MissingField(field)),
        Some(v) => match read_text(b, v) {
            Some(t) => Ok(t),
            None => Err(CwtError::WrongFieldType(field)),
        },
    }
}

/// Reads the timestamp under `key` (or `label`) of the record.
fn read_time_claim<E>(b: &[u8], key: &[u8], label: Option<u64>, field: ClaimField) -> (r: Result<
    Timestamp,
    CwtError<E>,
>)
    ensures
        match r {
            Ok(t) => time_claim::<E>(b@, key@, label_view(label), field) == Ok::<_, CwtError<E>>(
                t.spec_seconds(),
            ),
            Err(e) => time_claim::<E>(b@, key@, label_view(label), field) == Err::<i64, _>(e),
        },
{
    let v = match find_labelled_field(b, 0, key, label) {
        None => {
            return Err(CwtError::MissingField(field));
        },
        Some(v) => v,
    };
    let n = match read_int(b, v) {
        None => {
            return Err(CwtError::WrongFieldType(field));
        },
        Some(n) => n,
    };
    if n < i64::MIN as i128 || n > i64::MAX as i128 {
        return Err(CwtError::TimestampOutOfRange(field));
    }
    if timestamp_exists(n as i64) {
        Ok(Timestamp { seconds: n as i64 })
    } else {
        Err(CwtError::TimestampOutOfRange(field))
    }
}

/// Checks that `b` is exactly one well-formed CBOR map.
fn check_record(b: &[u8]) -> (r: bool)
    ensures
        r == is_claims_record(b@),
{
    match skip(b, 0, 1) {
        Some(end) => {
            if end != b.len() {
                return false;
            }
        },
        None => {
            return false;
        },
    }
    match read_head(b, 0) {
        Some((major, _count, _next)) => major == 5,
        None => false,
    }
}

/// Reads the token identifier of the record.
fn read_token_id<E>(b: &[u8]) -> (r: Result<u128, CwtError<E>>)
    ensures
        r == token_id_claim::<E>(b@),
{
    let cti: [u8; 3] = [99, 116, 105];
    assert(cti@ =~= cti_key());
    let v = match find_labelled_field(b, 0, cti.as_slice(), Some(7)) {
        None => {
            return Err(CwtError::MissingField(ClaimField::TokenId));
        },
        Some(v) => v,
    };
    if let Some(text) = read_text(b, v) {
        return match parse_uuid(text.as_str()) {
            Some(u) => Ok(u),
            None => Err(CwtError::InvalidIdentifier),
        };
    }
    match read_string(b, v, 2) {
        Some((start, end)) => {
            if end - start == 16 {
                Ok(read_be(b, start, 16))
            } else {
                Err(CwtError::InvalidIdentifier)
            }
        },
        None => Err(CwtError::WrongFieldType(ClaimField::TokenId)),
    }
}

/// Reads the issuer of the record.
fn read_issuer<E>(b: &[u8]) -> (r: Result<DecentralizedIdentifier, CwtError<E>>)
    ensures
        match r {
            Ok(id) => issuer_claim::<E>(b@) == Ok::<_, CwtError<E>>(id.domain()),
            Err(e) => issuer_claim::<E>(b@) == Err::<Seq<char>, _>(e),
        },
{
    let iss: [u8; 3] = [105, 115, 115];
    assert(iss@ =~= iss_key());
    let text = match read_text_claim(b, 0, iss.as_slice(), Some(1), ClaimField::Issuer) {
        Ok(t) => t,
        Err(e) => {
            return Err(e);
        },
    };
    match DecentralizedIdentifier::parse(text.as_str()) {
        Some(id) => Ok(id),
        None => Err(CwtError::UnsupportedIdentifierScheme),
    }
}

/// Finds the credential envelope map of the record.
fn find_envelope<E>(b: &[u8]) -> (r: Result<usize, CwtError<E>>)
    ensures
        match r {
            Ok(v) => envelope_claim::<E>(b@) == Ok::<_, CwtError<E>>(v as int),
            Err(e) => envelope_claim::<E>(b@) == Err::<int, _>(e),
        },
{
    let vc: [u8; 2] = [118, 99];
    assert(vc@ =~= vc_key());
    let v = match find_field(b, 0, vc.as_slice()) {
        None => {
            return Err(CwtError::MissingField(ClaimField::VerifiableCredential));
        },
        Some(v) => v,
    };
    match read_head(b, v) {
        Some((major, _count, _next)) => {
            if major == 5 {
                Ok(v)
            } else {
                Err(CwtError::WrongFieldType(ClaimField::VerifiableCredential))
            }
        },
        None => Err(CwtError::WrongFieldType(ClaimField::VerifiableCredential)),
    }
}

/// Reads `@context` of the envelope at `v`.
fn read_context<E>(b: &[u8], v: usize) -> (r: Result<Vec<String>, CwtError<E>>)
    ensures
        match r {
            Ok(c) => context_claim::<E>(b@, v as int) == Ok::<_, CwtError<E>>(strings_view(c@)),
            Err(e) => context_claim::<E>(b@, v as int) == Err::<Seq<Seq<char>>, _>(e),
        },
{
    let context: [u8; 8] = [64, 99, 111, 110, 116, 101, 120, 116];
    assert(context@ =~= context_key());
    let contexts = match find_field(b, v, context.as_slice()) {
        None => {
            return Err(CwtError::MissingField(ClaimField::Context));
        },
        Some(c) => match read_text_array(b, c) {
            Some(s) => s,
            None => {
                return Err(CwtError::WrongContextShape);
            },
        },
    };
    if contexts.len() == 0 {
        return Err(CwtError::WrongContextShape);
    }
    Ok(contexts)
}

/// Reads the two elements of `type` of the envelope at `v`.
fn read_type<E>(b: &[u8], v: usize) -> (r: Result<(String, String), CwtError<E>>)
    ensures
        match r {
            Ok(t) => type_claim::<E>(b@, v as int) == Ok::<_, CwtError<E>>((t.0@, t.1@)),
            Err(e) => type_claim::<E>(b@, v as int) == Err::<(Seq<char>, Seq<char>), _>(e),
        },
{
    let type_tag: [u8; 4] = [116, 121, 112, 101];
    assert(type_tag@ =~= type_key());
    let t = match find_field(b, v, type_tag.as_slice()) {
        None => {
            return Err(CwtError::MissingField(ClaimField::Type));
        },
        Some(t) => t,
    };
    let first_pos = match read_head(b, t) {
        Some((major, count, next)) => {
            if major != 4 {
                return Err(CwtError::WrongFieldType(ClaimField::Type));
            }
            if count != 2 {
                return Err(CwtError::WrongTypeArity);
            }
            next
        },
        None => {
            return Err(CwtError::WrongFieldType(ClaimField::Type));
        },
    };
    let mut types = match read_text_array(b, t) {
        Some(s) => s,
        None => {
            return Err(CwtError::WrongFieldType(ClaimField::Type));
        },
    };
    let ghost all = strings_view(types@);
    proof {
        lemma_texts_from_len(b@, first_pos as int, 2);
    }
    assert(all.len() == 2);
    let second = types.pop().unwrap();
    let first = types.pop().unwrap();
    assert(all[0] == first@ && all[1] == second@);
    Ok((first, second))
}

/// Reads the envelope at `v`, whose subject must be a pass of type `T`.
fn read_envelope<T: Pass>(b: &[u8], v: usize) -> (r: Result<VerifiableCredential<T>, CwtError<T::Error>>)
    ensures
        match r {
            Ok(vc) => envelope_error::<T>(b@, v as int) is None && envelope_match(b@, v as int, vc),
            Err(e) => envelope_error::<T>(b@, v as int) == Some(e),
        },
{
    let version: [u8; 7] = [118, 101, 114, 115, 105, 111, 110];
    let subject: [u8; 17] = [
        99, 114, 101, 100, 101, 110, 116, 105, 97, 108, 83, 117, 98, 106, 101, 99, 116,
    ];
    assert(version@ =~= version_key());
    assert(subject@ =~= subject_key());
    let context = match read_context(b, v) {
        Ok(c) => c,
        Err(e) => {
            return Err(e);
        },
    };
    let credential_type = match read_type(b, v) {
        Ok(t) => t,
        Err(e) => {
            return Err(e);
        },
    };
    let version_text = match read_text_claim(b, v, version.as_slice(), None, ClaimField::Version) {
        Ok(t) => t,
        Err(e) => {
            return Err(e);
        },
    };
    let s = match find_field(b, v, subject.as_slice()) {
        None => {
            return Err(CwtError::MissingField(ClaimField::CredentialSubject));
        },
        Some(s) => s,
    };
    if !same_text(credential_type.1.as_str(), T::credential_type()) {
        return Err(CwtError::CredentialTypeMismatch);
    }
    let credential_subject = match T::decode_subject(b, s) {
        Ok(x) => x,
        Err(e) => {
            return Err(CwtError::SubjectDecodeFailed(e));
        },
    };
    Ok(VerifiableCredential { context, credential_type, version: version_text, credential_subject })
}

impl<T: Pass> CwtPayload<T> {
    /// Decodes a claims record: a CBOR map holding `cti`, `iss`, `nbf`, `exp`
    /// and `vc`, whose credential subject is a pass of type `T`. Unknown keys
    /// are ignored; the first rejected claim gives the error.
    pub fn decode(b: &[u8]) -> (r: Result<CwtPayload<T>, CwtError<T::Error>>)
        ensures
            match r {
                Ok(p) => claims_error::<T>(b@) is None && claims_match(b@, p),
                Err(e) => claims_error::<T>(b@) == Some(e),
            },
            claims_error::<T>(b@) is None ==> r is Ok,
    {
        if !check_record(b) {
            return Err(CwtError::MalformedRecord);
        }
        let nbf: [u8; 3] = [110, 98, 102];
        let exp: [u8; 3] = [101, 120, 112];
        assert(nbf@ =~= nbf_key() && exp@ =~= exp_key());
        let cwt_token_id = match read_token_id(b) {
            Ok(u) => u,
            Err(e) => {
                return Err(e);
            },
        };
        let issuer = match read_issuer(b) {
            Ok(id) => id,
            Err(e) => {
                return Err(e);
            },
        };
        let not_before = match read_time_claim(b, nbf.as_slice(), Some(5), ClaimField::NotBefore) {
            Ok(t) => t,
            Err(e) => {
                return Err(e);
            },
        };
        let expiry = match read_time_claim(b, exp.as_slice(), Some(4), ClaimField::Expiry) {
            Ok(t) => t,
            Err(e) => {
                return Err(e);
            },
        };
        let v = match find_envelope(b) {
            Ok(v) => v,
            Err(e) => {
                return Err(e);
            },
        };
        let verifiable_credential = match read_envelope(b, v) {
            Ok(vc) => vc,
            Err(e) => {
                return Err(e);
            },
        };
        Ok(CwtPayload { cwt_token_id, issuer, not_before, expiry, verifiable_credential })
    }

    /// Decodes the claims record carried by a barcode.
    pub fn from_barcode(barcode: &QrBarcode) -> (r: Result<CwtPayload<T>, CwtError<T::Error>>)
        ensures
            match r {
                Ok(p) => claims_error::<T>(barcode.0@) is None && claims_match(barcode.0@, p),
                Err(e) => claims_error::<T>(barcode.0@) == Some(e),
            },
    {
        CwtPayload::decode(barcode.0.as_slice())
    }
}

/// The context that the credentials data model requires first.
pub open spec fn credentials_context() -> Seq<char> {
    seq!['h', 't', 't', 'p', 's', ':', '/', '/', 'w', 'w', 'w', '.', 'w', '3', '.', 'o', 'r', 'g', '/', '2', '0', '1', '8', '/', 'c', 'r', 'e', 'd', 'e', 'n', 't', 'i', 'a', 'l', 's', '/', 'v', '1']
}

/// The type that the credentials data model requires first.
pub open spec fn verifiable_credential_type() -> Seq<char> {
    seq!['V', 'e', 'r', 'i', 'f', 'i', 'a', 'b', 'l', 'e', 'C', 'r', 'e', 'd', 'e', 'n', 't', 'i', 'a', 'l']
}

impl<T> VerifiableCredential<T> {
    /// Whether the envelope has the strict form: its first context is the
    /// credentials data model context and its first type is
    /// `VerifiableCredential`. Decoding accepts other values; callers that
    /// want the strict form check it here.
    pub fn is_strict(&self) -> (r: bool)
        ensures
            r == (self.context@.len() > 0 && self.context@[0]@ == credentials_context()
                && self.credential_type.0@ == verifiable_credential_type()),
    {
        let base_context = "https://www.w3.org/2018/credentials/v1";
        let base_type = "VerifiableCredential";
        proof {
            reveal_strlit("https://www.w3.org/2018/credentials/v1");
            reveal_strlit("VerifiableCredential");
            assert(base_context@ =~= credentials_context());
            assert(base_type@ =~= verifiable_credential_type());
        }
        if self.context.len() == 0 {
            return false;
        }
        same_text(self.context[0].as_str(), base_context) && same_text(
            self.credential_type.0.as_str(),
            base_type,
        )
    }
}

} // verus!
