//! Reader for EU Digital COVID Certificate health-pass tokens.
//!
//! A token is the text of a scanned QR code: the marker `HC1:`, then Base45
//! text that holds a zlib stream, which holds a COSE_Sign1 envelope, whose
//! payload is a CBOR map of claims. [`decode`] walks these layers and returns
//! the certificate record, or the stage at which the token was rejected.
//! Signatures are parsed, never checked.
//!
//! Each layer has a module of its own, with a mathematical description of
//! what it accepts and a function that is proved to compute it:
//!
//! - [`prefix`]: the marker and the trailing white space;
//! - [`b45`]: Base45 text;
//! - [`zlib`]: the compressed stream;
//! - [`cbor`]: CBOR data items;
//! - [`cose`]: the COSE_Sign1 envelope;
//! - [`claims`]: the claims of the payload;
//! - [`record`] and [`schema`]: the certificate and its records;
//! - [`decoder`]: the layers in a row, and what holds of the whole.
//!
//! Base45, zlib and CBOR are decoded by the crates `base45`, `flate2` and
//! `ciborium`. What is assumed of them is stated where they are called.

pub mod b45;
pub mod cbor;
pub mod claims;
pub mod cose;
pub mod decoder;
pub mod error;
pub mod prefix;
pub mod record;
pub mod schema;
pub mod zlib;

pub use crate::cbor::Cbor;
pub use crate::claims::Payload;
pub use crate::decoder::decode;
pub use crate::error::{Claim, FormatError};
pub use crate::schema::{Certificate, Name, RecoveryRecord, TestRecord, VaccineRecord};
