use std::collections::BTreeMap;

use nzcp::pass::Pass;
use nzcp::public_covid_pass::{Date, PublicCovidPass, PublicCovidPassError, SubjectField};
use serde_cbor::Value;

fn subject(entries: &[(&str, &str)]) -> Vec<u8> {
    let mut map = BTreeMap::new();
    for (k, v) in entries {
        map.insert(Value::Text(k.to_string()), Value::Text(v.to_string()));
    }
    serde_cbor::to_vec(&Value::Map(map)).unwrap()
}

#[test]
fn public_covid_pass_deserialize_json() {
    let bytes = subject(&[("givenName", "John Andrew"), ("familyName", "Doe"), ("dob", "1979-04-14")]);

    let payload = PublicCovidPass::decode_subject(&bytes, 0).unwrap();
    assert_eq!(
        payload,
        PublicCovidPass {
            given_name: String::from("John Andrew"),
            family_name: String::from("Doe"),
            date_of_birth: Date { year: 1979, month: 4, day: 14 },
        }
    )
}

#[test]
fn public_covid_pass_type_tag() {
    assert_eq!(PublicCovidPass::credential_type(), "PublicCovidPass");
}

#[test]
fn leap_day_is_a_valid_date_of_birth() {
    let bytes = subject(&[("givenName", "A"), ("familyName", "B"), ("dob", "2000-02-29")]);
    let pass = PublicCovidPass::decode_subject(&bytes, 0).unwrap();
    assert_eq!(pass.date_of_birth, Date { year: 2000, month: 2, day: 29 });
}

#[test]
fn impossible_date_of_birth_is_rejected() {
    for dob in ["1979-02-30", "1900-02-29", "1979-13-01", "1979-00-10", "1979-04-31", "1979-04-00"] {
        let bytes = subject(&[("givenName", "A"), ("familyName", "B"), ("dob", dob)]);
        assert_eq!(
            PublicCovidPass::decode_subject(&bytes, 0).err(),
            Some(PublicCovidPassError::InvalidDateOfBirth),
            "{}",
            dob
        );
    }
}

#[test]
fn badly_shaped_date_of_birth_is_rejected() {
    for dob in ["79-04-14", "1979-4-14", "1979/04/14", "1979-04-14T00", "", "19a9-04-14"] {
        let bytes = subject(&[("givenName", "A"), ("familyName", "B"), ("dob", dob)]);
        assert_eq!(
            PublicCovidPass::decode_subject(&bytes, 0).err(),
            Some(PublicCovidPassError::InvalidDateOfBirth),
            "{}",
            dob
        );
    }
}

#[test]
fn missing_subject_field_is_named() {
    let bytes = subject(&[("familyName", "B"), ("dob", "1979-04-14")]);
    assert_eq!(
        PublicCovidPass::decode_subject(&bytes, 0).err(),
        Some(PublicCovidPassError::MissingSubjectField(SubjectField::GivenName))
    );
    let bytes = subject(&[("givenName", "A"), ("familyName", "B")]);
    assert_eq!(
        PublicCovidPass::decode_subject(&bytes, 0).err(),
        Some(PublicCovidPassError::MissingSubjectField(SubjectField::DateOfBirth))
    );
}

#[test]
fn non_text_name_is_rejected() {
    let mut map = BTreeMap::new();
    map.insert(Value::Text("givenName".to_string()), Value::Text("A".to_string()));
    map.insert(Value::Text("familyName".to_string()), Value::Integer(7));
    map.insert(Value::Text("dob".to_string()), Value::Text("1979-04-14".to_string()));
    let bytes = serde_cbor::to_vec(&Value::Map(map)).unwrap();
    assert_eq!(
        PublicCovidPass::decode_subject(&bytes, 0).err(),
        Some(PublicCovidPassError::WrongSubjectFieldType(SubjectField::FamilyName))
    );
}
