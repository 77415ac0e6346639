use std::collections::BTreeMap;

use nzcp::barcode::{QrBarcode, QrBarcodeError};
use nzcp::cwt::{ClaimField, CwtError, CwtPayload};
use nzcp::decode_barcode;
use nzcp::did::DecentralizedIdentifier;
use nzcp::error::NzcpError;
use nzcp::public_covid_pass::{Date, PublicCovidPass, PublicCovidPassError};
use serde_cbor::Value;

fn text(s: &str) -> Value {
    Value::Text(s.to_string())
}

fn map(entries: Vec<(&str, Value)>) -> Value {
    let mut m = BTreeMap::new();
    for (k, v) in entries {
        m.insert(text(k), v);
    }
    Value::Map(m)
}

fn subject_value() -> Value {
    map(vec![
        ("givenName", text("John Andrew")),
        ("familyName", text("Doe")),
        ("dob", text("1979-04-14")),
    ])
}

fn envelope(pass_type: &str, subject: Value) -> Value {
    map(vec![
        (
            "@context",
            Value::Array(vec![
                text("https://www.w3.org/2018/credentials/v1"),
                text("https://nzcp.covid19.health.nz/contexts/v1"),
            ]),
        ),
        ("version", text("1.0.0")),
        ("type", Value::Array(vec![text("VerifiableCredential"), text(pass_type)])),
        ("credentialSubject", subject),
    ])
}

fn claims(leave_out: &str, replace: Option<(&str, Value)>) -> Vec<u8> {
    let mut entries = vec![
        ("iss", text("did:web:example.nz")),
        ("nbf", Value::Integer(1516239022)),
        ("exp", Value::Integer(1516239922)),
        ("cti", text("urn:uuid:cc599d04-0d51-4f7e-8ef5-d7b5f8461c5f")),
        ("vc", envelope("PublicCovidPass", subject_value())),
    ];
    entries.retain(|(k, _)| *k != leave_out);
    if let Some((key, value)) = replace {
        for entry in entries.iter_mut() {
            if entry.0 == key {
                entry.1 = value.clone();
            }
        }
    }
    serde_cbor::to_vec(&map(entries)).unwrap()
}

fn decode(bytes: &[u8]) -> Result<CwtPayload<PublicCovidPass>, CwtError<PublicCovidPassError>> {
    CwtPayload::<PublicCovidPass>::decode(bytes)
}

fn barcode_of(bytes: &[u8]) -> String {
    format!("NZCP:/1/{}", base32::encode(base32::Alphabet::RFC4648 { padding: false }, bytes))
}

fn expected_subject() -> PublicCovidPass {
    PublicCovidPass {
        given_name: String::from("John Andrew"),
        family_name: String::from("Doe"),
        date_of_birth: Date { year: 1979, month: 4, day: 14 },
    }
}

#[test]
fn cwt_deserialize_json() {
    let bytes = claims("", None);
    let payload = decode(&bytes).unwrap();
    assert_eq!(
        payload.cwt_token_id,
        uuid::Uuid::parse_str("urn:uuid:cc599d04-0d51-4f7e-8ef5-d7b5f8461c5f").unwrap().as_u128()
    );
    assert_eq!(payload.cwt_token_id, 0xcc599d04_0d51_4f7e_8ef5_d7b5f8461c5f_u128);
    assert_eq!(payload.issuer, DecentralizedIdentifier::Web(String::from("example.nz")));
    assert_eq!(payload.not_before.seconds(), 1516239022);
    assert_eq!(payload.expiry.seconds(), 1516239922);
    let vc = payload.verifiable_credential;
    assert_eq!(
        vc.context,
        vec![
            String::from("https://www.w3.org/2018/credentials/v1"),
            String::from("https://nzcp.covid19.health.nz/contexts/v1")
        ]
    );
    assert_eq!(
        vc.credential_type,
        (String::from("VerifiableCredential"), String::from("PublicCovidPass"))
    );
    assert_eq!(vc.version, "1.0.0");
    assert_eq!(vc.credential_subject, expected_subject());
}

#[test]
fn full_barcode_decodes_to_typed_pass() {
    let encoded = barcode_of(&claims("", None));
    let payload: CwtPayload<PublicCovidPass> = decode_barcode(&encoded).unwrap();
    assert_eq!(payload.issuer, DecentralizedIdentifier::Web(String::from("example.nz")));
    let nbf = chrono::DateTime::from_timestamp(payload.not_before.seconds(), 0).unwrap();
    let exp = chrono::DateTime::from_timestamp(payload.expiry.seconds(), 0).unwrap();
    assert_eq!(payload.not_before.seconds(), 1516239022);
    assert_eq!(payload.expiry.seconds(), 1516239922);
    assert_eq!(payload.expiry.seconds() - payload.not_before.seconds(), 15 * 60);
    assert_eq!(nbf.format("%Y-%m-%dT%H:%M:%SZ").to_string(), "2018-01-18T01:30:22Z");
    assert_eq!(exp.format("%Y-%m-%dT%H:%M:%SZ").to_string(), "2018-01-18T01:45:22Z");
    assert_eq!(payload.verifiable_credential.credential_subject, expected_subject());
}

#[test]
fn barcode_with_version_two_is_rejected() {
    let encoded = barcode_of(&claims("", None)).replacen("NZCP:/1/", "NZCP:/2/", 1);
    let r: Result<CwtPayload<PublicCovidPass>, _> = decode_barcode(&encoded);
    assert_eq!(r.err(), Some(NzcpError::QrBarcode(QrBarcodeError::InvalidVersion)));
}

#[test]
fn barcode_errors_pass_through() {
    let r: Result<CwtPayload<PublicCovidPass>, _> = decode_barcode("HC1:/1/ABC");
    assert_eq!(r.err(), Some(NzcpError::QrBarcode(QrBarcodeError::MissingNzcpPrefix)));
    let r: Result<CwtPayload<PublicCovidPass>, _> = decode_barcode("NZCP:/1/AB1C");
    assert_eq!(r.err(), Some(NzcpError::QrBarcode(QrBarcodeError::InvalidBase32)));
    let r: Result<CwtPayload<PublicCovidPass>, _> = decode_barcode("NZCP:/1/");
    assert_eq!(r.err(), Some(NzcpError::Payload(CwtError::MalformedRecord)));
}

#[test]
fn from_barcode_reads_barcode_bytes() {
    let barcode = QrBarcode::parse(&barcode_of(&claims("", None))).unwrap();
    let payload = CwtPayload::<PublicCovidPass>::from_barcode(&barcode).unwrap();
    assert_eq!(payload.expiry.seconds(), 1516239922);
}

#[test]
fn other_pass_type_is_rejected() {
    let bytes = claims("", Some(("vc", envelope("SomeOtherPass", subject_value()))));
    assert_eq!(decode(&bytes).err(), Some(CwtError::CredentialTypeMismatch));
}

#[test]
fn missing_claims_are_named() {
    let cases = [
        ("cti", ClaimField::TokenId),
        ("iss", ClaimField::Issuer),
        ("nbf", ClaimField::NotBefore),
        ("exp", ClaimField::Expiry),
        ("vc", ClaimField::VerifiableCredential),
    ];
    for (key, field) in cases {
        assert_eq!(decode(&claims(key, None)).err(), Some(CwtError::MissingField(field)), "{}", key);
    }
}

#[test]
fn missing_envelope_fields_are_named() {
    let cases = [
        ("@context", ClaimField::Context),
        ("type", ClaimField::Type),
        ("version", ClaimField::Version),
        ("credentialSubject", ClaimField::CredentialSubject),
    ];
    for (key, field) in cases {
        let mut vc = envelope("PublicCovidPass", subject_value());
        if let Value::Map(m) = &mut vc {
            m.remove(&text(key));
        }
        let bytes = claims("", Some(("vc", vc)));
        assert_eq!(decode(&bytes).err(), Some(CwtError::MissingField(field)), "{}", key);
    }
}

#[test]
fn unsupported_issuer_scheme_is_rejected() {
    for iss in ["did:key:z6Mk", "web:example.nz", "", "did:web"] {
        let bytes = claims("", Some(("iss", text(iss))));
        assert_eq!(decode(&bytes).err(), Some(CwtError::UnsupportedIdentifierScheme), "{}", iss);
    }
}

#[test]
fn empty_web_domain_is_accepted() {
    let bytes = claims("", Some(("iss", text("did:web:"))));
    assert_eq!(decode(&bytes).unwrap().issuer, DecentralizedIdentifier::Web(String::new()));
}

#[test]
fn parse_web_identifier() {
    assert_eq!(
        DecentralizedIdentifier::parse("did:web:nzcp.covid19.health.nz"),
        Some(DecentralizedIdentifier::Web(String::from("nzcp.covid19.health.nz")))
    );
    assert_eq!(DecentralizedIdentifier::parse("did:example:123"), None);
}

#[test]
fn invalid_token_id_is_rejected() {
    let bytes = claims("", Some(("cti", text("urn:uuid:not-a-uuid"))));
    assert_eq!(decode(&bytes).err(), Some(CwtError::InvalidIdentifier));
}

#[test]
fn hyphenated_token_id_is_accepted() {
    let bytes = claims("", Some(("cti", text("00000000-0000-0000-0000-000000000001"))));
    assert_eq!(decode(&bytes).unwrap().cwt_token_id, 1);
}

#[test]
fn wrong_claim_types_are_rejected() {
    let bytes = claims("", Some(("cti", Value::Integer(5))));
    assert_eq!(decode(&bytes).err(), Some(CwtError::WrongFieldType(ClaimField::TokenId)));
    let bytes = claims("", Some(("nbf", text("1516239022"))));
    assert_eq!(decode(&bytes).err(), Some(CwtError::WrongFieldType(ClaimField::NotBefore)));
    let bytes = claims("", Some(("vc", text("credential"))));
    assert_eq!(
        decode(&bytes).err(),
        Some(CwtError::WrongFieldType(ClaimField::VerifiableCredential))
    );
}

#[test]
fn out_of_range_timestamps_are_rejected() {
    let bytes = claims("", Some(("exp", Value::Integer(i64::MAX as i128))));
    assert_eq!(decode(&bytes).err(), Some(CwtError::TimestampOutOfRange(ClaimField::Expiry)));
    let bytes = claims("", Some(("nbf", Value::Integer(-(1i128 << 64)))));
    assert_eq!(decode(&bytes).err(), Some(CwtError::TimestampOutOfRange(ClaimField::NotBefore)));
}

#[test]
fn negative_timestamp_is_accepted() {
    let bytes = claims("", Some(("nbf", Value::Integer(-86400))));
    assert_eq!(decode(&bytes).unwrap().not_before.seconds(), -86400);
}

#[test]
fn malformed_records_are_rejected() {
    let good = claims("", None);
    assert_eq!(decode(&good[..good.len() - 1]).err(), Some(CwtError::MalformedRecord));
    let mut trailing = good.clone();
    trailing.push(0);
    assert_eq!(decode(&trailing).err(), Some(CwtError::MalformedRecord));
    let array = serde_cbor::to_vec(&Value::Array(vec![text("iss")])).unwrap();
    assert_eq!(decode(&array).err(), Some(CwtError::MalformedRecord));
    assert_eq!(decode(&[]).err(), Some(CwtError::MalformedRecord));
    assert_eq!(decode(&[0xbf, 0xff]).err(), Some(CwtError::MalformedRecord));
}

#[test]
fn unknown_claims_are_ignored() {
    let mut m = BTreeMap::new();
    if let Value::Map(base) = serde_cbor::from_slice::<Value>(&claims("", None)).unwrap() {
        m = base;
    }
    m.insert(Value::Integer(99), Value::Integer(1635883530));
    m.insert(text("extra"), Value::Array(vec![Value::Bool(true), Value::Null, Value::Bytes(vec![1, 2])]));
    m.insert(text("tagged"), Value::Tag(1, Box::new(Value::Integer(7))));
    let bytes = serde_cbor::to_vec(&Value::Map(m)).unwrap();
    assert_eq!(decode(&bytes).unwrap().verifiable_credential.credential_subject, expected_subject());
}

#[test]
fn context_must_be_non_empty_text_array() {
    for context in [Value::Array(vec![]), text("https://www.w3.org/2018/credentials/v1"), Value::Array(vec![Value::Integer(1)])] {
        let mut vc = envelope("PublicCovidPass", subject_value());
        if let Value::Map(m) = &mut vc {
            m.insert(text("@context"), context);
        }
        let bytes = claims("", Some(("vc", vc)));
        assert_eq!(decode(&bytes).err(), Some(CwtError::WrongContextShape));
    }
}

#[test]
fn type_must_have_two_elements() {
    let mut vc = envelope("PublicCovidPass", subject_value());
    if let Value::Map(m) = &mut vc {
        m.insert(text("type"), Value::Array(vec![text("VerifiableCredential"), text("PublicCovidPass"), text("X")]));
    }
    let bytes = claims("", Some(("vc", vc)));
    assert_eq!(decode(&bytes).err(), Some(CwtError::WrongTypeArity));
}

#[test]
fn subject_errors_are_wrapped() {
    let subject = map(vec![("givenName", text("A")), ("familyName", text("B")), ("dob", text("1979-02-30"))]);
    let bytes = claims("", Some(("vc", envelope("PublicCovidPass", subject))));
    assert_eq!(
        decode(&bytes).err(),
        Some(CwtError::SubjectDecodeFailed(PublicCovidPassError::InvalidDateOfBirth))
    );
}

#[test]
fn strict_form_is_reported() {
    let payload = decode(&claims("", None)).unwrap();
    assert!(payload.verifiable_credential.is_strict());
    let mut vc = envelope("PublicCovidPass", subject_value());
    if let Value::Map(m) = &mut vc {
        m.insert(text("@context"), Value::Array(vec![text("https://nzcp.covid19.health.nz/contexts/v1")]));
    }
    let lenient = decode(&claims("", Some(("vc", vc)))).unwrap();
    assert!(!lenient.verifiable_credential.is_strict());
}

#[test]
fn registered_claim_numbers_stand_for_names() {
    let mut m = BTreeMap::new();
    m.insert(Value::Integer(1), text("did:web:nzcp.covid19.health.nz"));
    m.insert(Value::Integer(4), Value::Integer(1951416330));
    m.insert(Value::Integer(5), Value::Integer(1635883530));
    m.insert(Value::Integer(7), text("60a4f54d-4e30-4332-be33-ad78b1eafa4b"));
    m.insert(text("vc"), envelope("PublicCovidPass", subject_value()));
    let bytes = serde_cbor::to_vec(&Value::Map(m)).unwrap();
    let payload = decode(&bytes).unwrap();
    assert_eq!(payload.issuer, DecentralizedIdentifier::Web(String::from("nzcp.covid19.health.nz")));
    assert_eq!(payload.not_before.seconds(), 1635883530);
    assert_eq!(payload.expiry.seconds(), 1951416330);
    assert_eq!(payload.cwt_token_id, 0x60a4f54d_4e30_4332_be33_ad78b1eafa4b_u128);
}

#[test]
fn token_id_as_sixteen_bytes_is_accepted() {
    let id = uuid::Uuid::parse_str("60a4f54d-4e30-4332-be33-ad78b1eafa4b").unwrap();
    let bytes = claims("", Some(("cti", Value::Bytes(id.as_bytes().to_vec()))));
    assert_eq!(decode(&bytes).unwrap().cwt_token_id, 0x60a4f54d_4e30_4332_be33_ad78b1eafa4b_u128);
    let short = claims("", Some(("cti", Value::Bytes(vec![1, 2, 3]))));
    assert_eq!(decode(&short).err(), Some(CwtError::InvalidIdentifier));
}

#[test]
fn timestamp_range_edges() {
    let last = claims("", Some(("exp", Value::Integer(8_210_266_876_799))));
    assert_eq!(decode(&last).unwrap().expiry.seconds(), 8_210_266_876_799);
    let past = claims("", Some(("exp", Value::Integer(8_210_266_876_800))));
    assert_eq!(decode(&past).err(), Some(CwtError::TimestampOutOfRange(ClaimField::Expiry)));
    let first = claims("", Some(("nbf", Value::Integer(-8_334_601_228_800))));
    assert_eq!(decode(&first).unwrap().not_before.seconds(), -8_334_601_228_800);
    let before = claims("", Some(("nbf", Value::Integer(-8_334_601_228_801))));
    assert_eq!(decode(&before).err(), Some(CwtError::TimestampOutOfRange(ClaimField::NotBefore)));
}
