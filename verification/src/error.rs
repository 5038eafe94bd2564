//! The ways in which a token can be rejected.

use vstd::prelude::*;

verus! {

/// One of the four claims that every payload must carry.
#[derive(Clone, Copy, Debug, PartialEq, Eq, Structural)]
pub enum Claim {
    /// Claim key 1: who issued the certificate.
    Issuer,
    /// Claim key 6: when it was issued.
    IssuedAt,
    /// Claim key 4: when it expires.
    ExpiresAt,
    /// Claim key -260: the health certificate itself.
    HealthCertificate,
}

/// Why a token was rejected, by the stage that rejected it.
#[derive(Clone, Copy, Debug, PartialEq, Eq, Structural)]
pub enum FormatError {
    /// The text does not start with `HC1:`.
    MissingPrefix,
    /// The text after the marker is not Base45.
    InvalidBase45,
    /// The bytes are not a complete, intact zlib stream.
    DecompressionFailed,
    /// The envelope is not a tag-18 array of four items with a byte-string payload.
    NotCOSESign1,
    /// The bytes are not well-formed CBOR.
    CBORDecode,
    /// A required claim is absent from the payload.
    MissingClaim(Claim),
    /// A required claim occurs more than once in the payload.
    DuplicateClaim(Claim),
    /// The health-certificate claim has no entry for schema version 1.
    UnsupportedSchemaVersion,
    /// A value does not have the shape that the schema asks for.
    SchemaMismatch,
}

} // verus!
