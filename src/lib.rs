//! Decoding of New Zealand COVID Pass barcodes into typed credentials.
//!
//! The pipeline runs strictly downward: barcode text, base-32 body, CBOR
//! claims record, typed fields, credential subject.
use vstd::prelude::*;

pub mod barcode;
pub mod cbor;
pub mod cwt;
pub mod did;
pub mod error;
pub mod pass;
pub mod public_covid_pass;

use crate::barcode::{
    barcode_body, barcode_bytes, is_base32_length, is_base32_symbol, scheme_prefix, version_segment, QrBarcode,
    QrBarcodeError,
};
use crate::cwt::{claims_error, claims_match, CwtPayload};
use crate::error::NzcpError;
use crate::pass::Pass;

verus! {

/// Decodes a scanned barcode text into the claims of a pass of type `T`.
pub fn decode_barcode<T: Pass>(s: &str) -> (r: Result<CwtPayload<T>, NzcpError<T::Error>>)
    ensures
        match barcode_bytes(s@) {
            Err(e) => r == Err::<CwtPayload<T>, _>(NzcpError::<T::Error>::QrBarcode(e)),
            Ok(bytes) => match r {
                Ok(p) => claims_error::<T>(bytes) is None && claims_match(bytes, p),
                Err(e) => claims_error::<T>(bytes) matches Some(c) && e == NzcpError::<
                    T::Error,
                >::Payload(c),
            },
        },
        !scheme_prefix().is_prefix_of(s@) ==> r == Err::<CwtPayload<T>, _>(
            NzcpError::<T::Error>::QrBarcode(QrBarcodeError::MissingNzcpPrefix),
        ),
        scheme_prefix().is_prefix_of(s@) && !version_segment().is_prefix_of(s@.skip(6)) ==> r
            == Err::<CwtPayload<T>, _>(NzcpError::<T::Error>::QrBarcode(QrBarcodeError::InvalidVersion)),
        barcode_body(s@) is Ok && (exists|i: int|
            8 <= i < s@.len() && !is_base32_symbol(#[trigger] s@[i])) ==> r == Err::<
            CwtPayload<T>,
            _,
        >(NzcpError::<T::Error>::QrBarcode(QrBarcodeError::InvalidBase32)),
        barcode_body(s@) is Ok && !is_base32_length((s@.len() - 8) as nat) ==> r == Err::<
            CwtPayload<T>,
            _,
        >(NzcpError::<T::Error>::QrBarcode(QrBarcodeError::InvalidBase32)),
{
    let barcode = match QrBarcode::parse(s) {
        Ok(b) => b,
        Err(e) => {
            return Err(NzcpError::QrBarcode(e));
        },
    };
    match CwtPayload::from_barcode(&barcode) {
        Ok(p) => Ok(p),
        Err(e) => Err(NzcpError::Payload(e)),
    }
}

} // verus!
