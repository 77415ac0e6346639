use vstd::prelude::*;

verus! {

/// Why a barcode text was rejected.
#[derive(Debug, Clone, Copy, PartialEq, Eq, Structural)]
pub enum QrBarcodeError {
    /// The body is not base-32 text.
    InvalidBase32,
    /// The version segment after the prefix is not `1/`.
    InvalidVersion,
    /// The text does not begin with `NZCP:/`.
    MissingNzcpPrefix,
}

/// The CBOR bytes carried by a barcode of the form
/// `NZCP:/<version-identifier>/<base32-encoded-CWT>`.
pub struct QrBarcode(pub Vec<u8>);

/// The scheme prefix every barcode starts with.
pub open spec fn scheme_prefix() -> Seq<char> {
    seq!['N', 'Z', 'C', 'P', ':', '/']
}

/// The only version segment that is accepted.
pub open spec fn version_segment() -> Seq<char> {
    seq!['1', '/']
}

/// The base-32 body of a barcode text, or why the envelope is rejected.
pub open spec fn barcode_body(s: Seq<char>) -> Result<Seq<char>, QrBarcodeError> {
    if !scheme_prefix().is_prefix_of(s) {
        Err(QrBarcodeError::MissingNzcpPrefix)
    } else if !version_segment().is_prefix_of(s.skip(6)) {
        Err(QrBarcodeError::InvalidVersion)
    } else {
        Ok(s.skip(8))
    }
}

/// A symbol of the unpadded base-32 alphabet: a letter in either case or a
/// digit from 2 to 7.
pub open spec fn is_base32_symbol(c: char) -> bool {
    ('A' <= c && c <= 'Z') || ('a' <= c && c <= 'z') || ('2' <= c && c <= '7')
}

/// Whether an unpadded base-32 text of `n` symbols ends on a whole byte:
/// a final group of 1, 3 or 6 symbols cannot.
pub open spec fn is_base32_length(n: nat) -> bool {
    n % 8 != 1 && n % 8 != 3 && n % 8 != 6
}

/// Whether `s` is well-formed unpadded base-32 text.
pub open spec fn is_base32_text(s: Seq<char>) -> bool {
    &&& forall|i: int| 0 <= i < s.len() ==> is_base32_symbol(#[trigger] s[i])
    &&& is_base32_length(s.len())
}

/// What the unpadded RFC 4648 base-32 decoder gives for a text.
pub uninterp spec fn base32_decoded(s: Seq<char>) -> Option<Seq<u8>>;

/// The whole decoding of a barcode text.
pub open spec fn barcode_bytes(s: Seq<char>) -> Result<Seq<u8>, QrBarcodeError> {
    match barcode_body(s) {
        Err(e) => Err(e),
        Ok(body) => if !is_base32_text(body) {
            Err(QrBarcodeError::InvalidBase32)
        } else {
            match base32_decoded(body) {
                None => Err(QrBarcodeError::InvalidBase32),
                Some(bytes) => Ok(bytes),
            }
        },
    }
}

/// Relies on `str::strip_prefix`: the rest of `s` exactly when `s` starts with `p`.
#[verifier::external_body]
pub(crate) fn strip_prefix<'a>(s: &'a str, p: &str) -> (r: Option<&'a str>)
    ensures
        match r {
            Some(rest) => s@ == p@ + rest@,
            None => !p@.is_prefix_of(s@),
        },
{
    s.strip_prefix(p)
}

/// Relies on `base32::decode` with the unpadded RFC 4648 alphabet.
#[verifier::external_body]
fn decode_base32(s: &str) -> (r: Option<Vec<u8>>)
    ensures
        match r {
            Some(v) => base32_decoded(s@) == Some(v@),
            None => base32_decoded(s@) is None,
        },
{
    base32::decode(base32::Alphabet::RFC4648 { padding: false }, s)
}

/// Whether `r` is what decoding the barcode text `s` gives.
pub open spec fn parsed_from(s: Seq<char>, r: Result<QrBarcode, QrBarcodeError>) -> bool {
    &&& match r {
        Ok(b) => barcode_bytes(s) == Ok::<_, QrBarcodeError>(b.0@),
        Err(e) => barcode_bytes(s) == Err::<Seq<u8>, _>(e),
    }
    &&& !scheme_prefix().is_prefix_of(s) ==> r == Err::<QrBarcode, _>(
        QrBarcodeError::MissingNzcpPrefix,
    )
    &&& scheme_prefix().is_prefix_of(s) && !version_segment().is_prefix_of(s.skip(6)) ==> r
        == Err::<QrBarcode, _>(QrBarcodeError::InvalidVersion)
    &&& barcode_body(s) is Ok && (exists|i: int|
        8 <= i < s.len() && !is_base32_symbol(#[trigger] s[i])) ==> r == Err::<QrBarcode, _>(
        QrBarcodeError::InvalidBase32,
    )
    &&& barcode_body(s) is Ok && !is_base32_length((s.len() - 8) as nat) ==> r == Err::<
        QrBarcode,
        _,
    >(QrBarcodeError::InvalidBase32)
}

/// Checks that `s` is well-formed unpadded base-32 text.
fn check_base32_text(s: &str) -> (r: bool)
    ensures
        r == is_base32_text(s@),
{
    if !s.is_ascii() {
        proof {
            let i = choose|i: int| 0 <= i < s@.len() && !('\0' <= #[trigger] s@[i] <= '\u{7f}');
            assert(!is_base32_symbol(s@[i]));
        }
        return false;
    }
    let b = s.as_bytes();
    proof {
        vstd::string::is_ascii_spec_bytes(s);
    }
    let n = b.len();
    assert(n == s@.len());
    let mut i: usize = 0;
    while i < n
        invariant
            n == b@.len() == s@.len(),
            i <= n,
            b@ == Seq::new(s@.len(), |j: int| s@[j] as u8),
            vstd::string::is_ascii(s),
            forall|j: int| 0 <= j < i ==> is_base32_symbol(#[trigger] s@[j]),
        decreases n - i,
    {
        let c = b[i];
        proof {
            assert('\0' <= s@[i as int] <= '\u{7f}');
            assert(c == s@[i as int] as u8);
        }
        if !((65 <= c && c <= 90) || (97 <= c && c <= 122) || (50 <= c && c <= 55)) {
            assert(!is_base32_symbol(s@[i as int]));
            return false;
        }
        i = i + 1;
    }
    n % 8 != 1 && n % 8 != 3 && n % 8 != 6
}

impl QrBarcode {
    /// Strips the scheme prefix and version segment and decodes the base-32
    /// body, which must be well-formed unpadded base-32 text.
    pub fn parse(s: &str) -> (r: Result<QrBarcode, QrBarcodeError>)
        ensures
            parsed_from(s@, r),
    {
        proof {
            reveal_strlit("NZCP:/");
            reveal_strlit("1/");
        }
        let after_prefix = match strip_prefix(s, "NZCP:/") {
            Some(rest) => rest,
            None => {
                return Err(QrBarcodeError::MissingNzcpPrefix);
            },
        };
        assert(after_prefix@ =~= s@.skip(6));
        let body = match strip_prefix(after_prefix, "1/") {
            Some(rest) => rest,
            None => {
                return Err(QrBarcodeError::InvalidVersion);
            },
        };
        assert(body@ =~= s@.skip(8));
        if !check_base32_text(body) {
            return Err(QrBarcodeError::InvalidBase32);
        }
        match decode_base32(body) {
            Some(bytes) => Ok(QrBarcode(bytes)),
            None => Err(QrBarcodeError::InvalidBase32),
        }
    }
}

impl std::str::FromStr for QrBarcode {
    type Err = QrBarcodeError;

    /// Same as [`QrBarcode::parse`].
    fn from_str(s: &str) -> (r: Result<QrBarcode, QrBarcodeError>)
        ensures
            parsed_from(s@, r),
    {
        QrBarcode::parse(s)
    }
}

} // verus!
