//! The errors of the whole decoding pipeline.
use vstd::prelude::*;
use crate::barcode::QrBarcodeError;
use crate::cwt::CwtError;

verus! {

/// Why a barcode text did not decode to a pass; `E` is the error of the pass subject.
#[derive(Debug, Clone, PartialEq, Eq)]
pub enum NzcpError<E> {
    /// The barcode envelope or its base-32 body was rejected.
    QrBarcode(QrBarcodeError),
    /// The claims record was rejected.
    Payload(CwtError<E>),
}

} // verus!
