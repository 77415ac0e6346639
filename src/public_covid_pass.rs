//! The public health pass subject: names and a date of birth.
use vstd::prelude::*;
use crate::cbor::{field_at, find_field, read_string, read_text, text_bytes, text_value};
use crate::pass::Pass;

verus! {

/// Why a public health pass subject was rejected.
#[derive(Debug, Clone, Copy, PartialEq, Eq, Structural)]
pub enum PublicCovidPassError {
    /// `dob` is not `YYYY-MM-DD` text naming a real calendar date.
    InvalidDateOfBirth,
    /// A required subject field is absent.
    MissingSubjectField(SubjectField),
    /// A name field is not UTF-8 text.
    WrongSubjectFieldType(SubjectField),
}

/// The fields of a public health pass subject.
#[derive(Debug, Clone, Copy, PartialEq, Eq, Structural)]
pub enum SubjectField {
    GivenName,
    FamilyName,
    DateOfBirth,
}

/// A calendar date.
#[derive(Debug, Clone, Copy, PartialEq, Eq, Structural)]
pub struct Date {
    pub year: i32,
    pub month: u32,
    pub day: u32,
}

/// The subject of a public health pass.
#[derive(Debug, Clone, PartialEq, Eq)]
pub struct PublicCovidPass {
    /// Given name(s) of the subject of the pass.
    pub given_name: String,
    /// Family name(s) of the subject of the pass.
    pub family_name: String,
    pub date_of_birth: Date,
}

pub open spec fn is_leap_year(y: int) -> bool {
    y % 4 == 0 && (y % 100 != 0 || y % 400 == 0)
}

pub open spec fn days_in_month(y: int, m: int) -> int {
    if m == 2 {
        if is_leap_year(y) {
            29
        } else {
            28
        }
    } else if m == 4 || m == 6 || m == 9 || m == 11 {
        30
    } else {
        31
    }
}

/// Whether year `y`, month `m`, day `d` is a date of the proleptic Gregorian calendar.
pub open spec fn is_valid_date(y: int, m: int, d: int) -> bool {
    1 <= m <= 12 && 1 <= d <= days_in_month(y, m)
}

pub open spec fn is_digit(c: u8) -> bool {
    48 <= c <= 57
}

/// The decimal number written in `t[from..to]`.
pub open spec fn digits_value(t: Seq<u8>, from: int, to: int) -> int
    decreases to - from,
{
    if to <= from {
        0
    } else {
        digits_value(t, from, to - 1) * 10 + (t[to - 1] - 48)
    }
}

/// Whether `t` has the shape `YYYY-MM-DD`.
pub open spec fn is_iso_date_shape(t: Seq<u8>) -> bool {
    &&& t.len() == 10
    &&& t[4] == 45 && t[7] == 45
    &&& forall|i: int| 0 <= i < 10 && i != 4 && i != 7 ==> is_digit(#[trigger] t[i])
}

/// The date written `YYYY-MM-DD` in `t`, when it names a real date.
pub open spec fn iso_date(t: Seq<u8>) -> Option<Date> {
    if is_iso_date_shape(t) && is_valid_date(
        digits_value(t, 0, 4),
        digits_value(t, 5, 7),
        digits_value(t, 8, 10),
    ) {
        Some(
            Date {
                year: digits_value(t, 0, 4) as i32,
                month: digits_value(t, 5, 7) as u32,
                day: digits_value(t, 8, 10) as u32,
            },
        )
    } else {
        None
    }
}

/// Relies on `chrono::NaiveDate::from_ymd_opt`, which accepts a month and day
/// exactly when they form a date of the proleptic Gregorian calendar in a
/// year of its range (which holds every year from 0 to 9999).
#[verifier::external_body]
fn calendar_date_exists(year: i32, month: u32, day: u32) -> (r: bool)
    ensures
        0 <= year <= 9999 ==> r == is_valid_date(year as int, month as int, day as int),
{
    chrono::NaiveDate::from_ymd_opt(year, month, day).is_some()
}

/// Parses the `YYYY-MM-DD` text whose bytes are `b[start..end]`.
fn parse_iso_date(b: &[u8], start: usize, end: usize) -> (r: Option<Date>)
    requires
        start <= end <= b@.len(),
    ensures
        r == iso_date(b@.subrange(start as int, end as int)),
{
    let ghost t = b@.subrange(start as int, end as int);
    if end - start != 10 {
        return None;
    }
    let mut i: usize = 0;
    while i < 10
        invariant
            end - start == 10,
            start <= end <= b@.len(),
            t == b@.subrange(start as int, end as int),
            i <= 10,
            forall|j: int| 0 <= j < i && j != 4 && j != 7 ==> is_digit(#[trigger] t[j]),
            i > 4 ==> t[4] == 45,
            i > 7 ==> t[7] == 45,
        decreases 10 - i,
    {
        let c = b[start + i];
        if i == 4 || i == 7 {
            if c != 45 {
                return None;
            }
        } else if c < 48 || c > 57 {
            assert(!is_digit(t[i as int]));
            return None;
        }
        i = i + 1;
    }
    proof {
        assert(forall|j: int| 0 <= j < 10 ==> t[j] == b@[start + j]);
        assert(is_digit(t[0]) && is_digit(t[1]) && is_digit(t[2]) && is_digit(t[3]));
        assert(is_digit(t[5]) && is_digit(t[6]) && is_digit(t[8]) && is_digit(t[9]));
    }
    let y = (b[start] - 48) as i32 * 1000 + (b[start + 1] - 48) as i32 * 100 + (b[start + 2]
        - 48) as i32 * 10 + (b[start + 3] - 48) as i32;
    let m = (b[start + 5] - 48) as u32 * 10 + (b[start + 6] - 48) as u32;
    let d = (b[start + 8] - 48) as u32 * 10 + (b[start + 9] - 48) as u32;
    proof {
        reveal_with_fuel(digits_value, 5);
        assert(y == digits_value(t, 0, 4));
        assert(m == digits_value(t, 5, 7));
        assert(d == digits_value(t, 8, 10));
    }
    if calendar_date_exists(y, m, d) {
        Some(Date { year: y, month: m, day: d })
    } else {
        None
    }
}

/// The key `givenName`.
pub open spec fn given_name_key() -> Seq<u8> {
    seq![103u8, 105, 118, 101, 110, 78, 97, 109, 101]
}

/// The key `familyName`.
pub open spec fn family_name_key() -> Seq<u8> {
    seq![102u8, 97, 109, 105, 108, 121, 78, 97, 109, 101]
}

/// The key `dob`.
pub open spec fn dob_key() -> Seq<u8> {
    seq![100u8, 111, 98]
}

/// The date of birth held by the `dob` value at `pos`.
pub open spec fn date_of_birth_at(b: Seq<u8>, pos: int) -> Option<Date> {
    match text_bytes(b, pos) {
        Some(t) => iso_date(t),
        None => None,
    }
}

/// A name field of the subject map at `pos`: its text, or why it is rejected.
pub open spec fn name_field(b: Seq<u8>, pos: int, key: Seq<u8>, field: SubjectField) -> Result<
    Seq<char>,
    PublicCovidPassError,
> {
    match field_at(b, pos, key) {
        None => Err(PublicCovidPassError::MissingSubjectField(field)),
        Some(v) => match text_value(b, v) {
            Some(t) => Ok(t),
            None => Err(PublicCovidPassError::WrongSubjectFieldType(field)),
        },
    }
}

/// The `dob` field of the subject map at `pos`, or why it is rejected.
pub open spec fn dob_field(b: Seq<u8>, pos: int) -> Result<Date, PublicCovidPassError> {
    match field_at(b, pos, dob_key()) {
        None => Err(PublicCovidPassError::MissingSubjectField(SubjectField::DateOfBirth)),
        Some(v) => match date_of_birth_at(b, v) {
            Some(d) => Ok(d),
            None => Err(PublicCovidPassError::InvalidDateOfBirth),
        },
    }
}

/// The first field of the subject map at `pos` that is rejected, in the
/// order given name, family name, date of birth.
pub open spec fn subject_error(b: Seq<u8>, pos: int) -> Option<PublicCovidPassError> {
    match name_field(b, pos, given_name_key(), SubjectField::GivenName) {
        Err(e) => Some(e),
        Ok(_) => match name_field(b, pos, family_name_key(), SubjectField::FamilyName) {
            Err(e) => Some(e),
            Ok(_) => match dob_field(b, pos) {
                Err(e) => Some(e),
                Ok(_) => None,
            },
        },
    }
}

/// A subject whose names decode but whose `dob` is not `YYYY-MM-DD` text,
/// or names a day that the calendar does not have, is rejected with
/// `InvalidDateOfBirth`.
pub proof fn lemma_invalid_date_of_birth_rejected(b: Seq<u8>, pos: int, d: int)
    requires
        name_field(b, pos, given_name_key(), SubjectField::GivenName) is Ok,
        name_field(b, pos, family_name_key(), SubjectField::FamilyName) is Ok,
        field_at(b, pos, dob_key()) == Some(d),
        match text_bytes(b, d) {
            Some(t) => !is_iso_date_shape(t) || !is_valid_date(
                digits_value(t, 0, 4),
                digits_value(t, 5, 7),
                digits_value(t, 8, 10),
            ),
            None => true,
        },
    ensures
        subject_error(b, pos) == Some(PublicCovidPassError::InvalidDateOfBirth),
{
}

impl PublicCovidPass {
    /// Reads the `dob` value at `pos`.
    fn read_date_of_birth(b: &[u8], pos: usize) -> (r: Option<Date>)
        ensures
            r == date_of_birth_at(b@, pos as int),
    {
        match read_string(b, pos, 3) {
            Some((start, end)) => parse_iso_date(b, start, end),
            None => None,
        }
    }

    /// Reads a name field of the subject map at `pos`.
    fn read_name(b: &[u8], pos: usize, key: &[u8], field: SubjectField) -> (r: Result<
        String,
        PublicCovidPassError,
    >)
        ensures
            match r {
                Ok(s) => name_field(b@, pos as int, key@, field) == Ok::<_, PublicCovidPassError>(
                    s@,
                ),
                Err(e) => name_field(b@, pos as int, key@, field) == Err::<Seq<char>, _>(e),
            },
    {
        match find_field(b, pos, key) {
            None => Err(PublicCovidPassError::MissingSubjectField(field)),
            Some(v) => match read_text(b, v) {
                Some(t) => Ok(t),
                None => Err(PublicCovidPassError::WrongSubjectFieldType(field)),
            },
        }
    }
}

impl Pass for PublicCovidPass {
    type Error = PublicCovidPassError;

    open spec fn spec_credential_type() -> Seq<char> {
        seq!['P', 'u', 'b', 'l', 'i', 'c', 'C', 'o', 'v', 'i', 'd', 'P', 'a', 's', 's']
    }

    open spec fn decodes_to(b: Seq<u8>, pos: int, v: PublicCovidPass) -> bool {
        &&& name_field(b, pos, given_name_key(), SubjectField::GivenName) == Ok::<
            _,
            PublicCovidPassError,
        >(v.given_name@)
        &&& name_field(b, pos, family_name_key(), SubjectField::FamilyName) == Ok::<
            _,
            PublicCovidPassError,
        >(v.family_name@)
        &&& dob_field(b, pos) == Ok::<_, PublicCovidPassError>(v.date_of_birth)
    }

    open spec fn decode_error(b: Seq<u8>, pos: int) -> Option<PublicCovidPassError> {
        subject_error(b, pos)
    }

    fn credential_type() -> (r: &'static str) {
        proof {
            reveal_strlit("PublicCovidPass");
        }
        "PublicCovidPass"
    }

    /// Decodes a map with text fields `givenName` and `familyName` and a
    /// `YYYY-MM-DD` text field `dob`.
    fn decode_subject(b: &[u8], pos: usize) -> (r: Result<PublicCovidPass, PublicCovidPassError>) {
        let given_key: [u8; 9] = [103, 105, 118, 101, 110, 78, 97, 109, 101];
        let family_key: [u8; 10] = [102, 97, 109, 105, 108, 121, 78, 97, 109, 101];
        let dob: [u8; 3] = [100, 111, 98];
        assert(given_key@ =~= given_name_key());
        assert(family_key@ =~= family_name_key());
        assert(dob@ =~= dob_key());
        let given_name = match PublicCovidPass::read_name(
            b,
            pos,
            given_key.as_slice(),
            SubjectField::GivenName,
        ) {
            Ok(s) => s,
            Err(e) => {
                return Err(e);
            },
        };
        let family_name = match PublicCovidPass::read_name(
            b,
            pos,
            family_key.as_slice(),
            SubjectField::FamilyName,
        ) {
            Ok(s) => s,
            Err(e) => {
                return Err(e);
            },
        };
        let date_of_birth = match find_field(b, pos, dob.as_slice()) {
            None => {
                return Err(PublicCovidPassError::MissingSubjectField(SubjectField::DateOfBirth));
            },
            Some(v) => match PublicCovidPass::read_date_of_birth(b, v) {
                Some(d) => d,
                None => {
                    return Err(PublicCovidPassError::InvalidDateOfBirth);
                },
            },
        };
        Ok(PublicCovidPass { given_name, family_name, date_of_birth })
    }
}

} // verus!
