//! The whole way from the scanned text to the certificate.

use vstd::prelude::*;
use crate::b45;
use crate::cbor;
use crate::claims::{
    claims_record, first_missing, has_claim, lemma_claims_record_tag_free,
    lemma_claims_round_trip, lemma_missing_claim, payload_of, scanned, version_1, Payload,
};
use crate::cose;
use crate::error::{Claim, FormatError};
use crate::prefix;
use crate::schema::{Certificate, CertificateView};
use crate::zlib;

verus! {

/// The certificate in the claims that the bytes `bytes` encode. The claims
/// are read without their tags, so that a tagged date is read as its text.
pub open spec fn certificate_in(bytes: Seq<u8>) -> Result<CertificateView, FormatError> {
    match cbor::parsed(bytes) {
        None => Err(FormatError::CBORDecode),
        Some(claims) => match payload_of(claims.plain()) {
            Ok(payload) => version_1(payload),
            Err(e) => Err(e),
        },
    }
}

/// The certificate in the envelope that the bytes `bytes` encode.
pub open spec fn certificate_under(bytes: Seq<u8>) -> Result<CertificateView, FormatError> {
    match cbor::parsed(bytes) {
        None => Err(FormatError::CBORDecode),
        Some(envelope) => match cose::payload(envelope) {
            Ok(payload) => certificate_in(payload),
            Err(e) => Err(e),
        },
    }
}

/// The certificate that the token `input` holds, or the error of the first
/// stage that rejects it: marker, Base45, zlib, envelope, claims.
pub open spec fn decoded(input: Seq<char>) -> Result<CertificateView, FormatError> {
    match prefix::stripped(input) {
        None => Err(FormatError::MissingPrefix),
        Some(body) => match b45::decoded(body) {
            None => Err(FormatError::InvalidBase45),
            Some(packed) => match zlib::inflated(packed) {
                None => Err(FormatError::DecompressionFailed),
                Some(bytes) => certificate_under(bytes),
            },
        },
    }
}

/// The envelope item of the token `input`, where the marker, the Base45 text,
/// the zlib stream and the CBOR encoding under them are all well formed.
pub open spec fn envelope_of(input: Seq<char>) -> Option<cbor::CborView> {
    match prefix::stripped(input) {
        None => None,
        Some(body) => match b45::decoded(body) {
            None => None,
            Some(packed) => match zlib::inflated(packed) {
                None => None,
                Some(bytes) => cbor::parsed(bytes),
            },
        },
    }
}

/// The claims item of the token `input`, without its tags, where all that
/// wraps it is well formed.
pub open spec fn claims_of(input: Seq<char>) -> Option<cbor::CborView> {
    match envelope_of(input) {
        None => None,
        Some(envelope) => match cose::payload(envelope) {
            Ok(bytes) => match cbor::parsed(bytes) {
                Some(claims) => Some(claims.plain()),
                None => None,
            },
            Err(_) => None,
        },
    }
}

/// A text that does not start with `HC1:` is rejected for its missing
/// marker.
pub proof fn lemma_missing_prefix(input: Seq<char>)
    requires
        !prefix::starts_with_marker(input),
    ensures
        decoded(input) == Err::<CertificateView, _>(FormatError::MissingPrefix),
{
    prefix::lemma_stripped_exact(input);
}

/// A token with a character that is no Base45 symbol behind its marker, and
/// before its trailing white space, is rejected as invalid Base45.
pub proof fn lemma_invalid_base45(input: Seq<char>, at: int)
    requires
        prefix::starts_with_marker(input),
        4 <= at < prefix::trimmed_len(input),
        b45::digit(input[at]) is None,
    ensures
        decoded(input) == Err::<CertificateView, _>(FormatError::InvalidBase45),
{
    prefix::lemma_stripped_exact(input);
    prefix::lemma_trimmed_len_exact(input);
    let body = prefix::stripped(input)->Some_0;
    assert(body[at - 4] == input[at]);
    b45::lemma_decoded_needs_symbols(body, at - 4);
}

/// A token whose layers down to the CBOR item are well formed, and whose
/// item does not carry the tag 18, is rejected as no COSE_Sign1 envelope.
pub proof fn lemma_not_cose_sign1(input: Seq<char>)
    requires
        envelope_of(input) is Some,
        !(envelope_of(input)->Some_0 is Tag && envelope_of(input)->Some_0->Tag_0
            == cose::SIGN1_TAG),
    ensures
        decoded(input) == Err::<CertificateView, _>(FormatError::NotCOSESign1),
{
    cose::lemma_payload_needs_tag(envelope_of(input)->Some_0);
}

/// A token whose claims lack one of the four required claims is rejected
/// for the first claim that it lacks, where the pass over the claims meets
/// no repeated claim and no value of the wrong kind.
pub proof fn lemma_decode_missing_claim(
    input: Seq<char>,
    entries: Seq<(cbor::CborView, cbor::CborView)>,
    claim: Claim,
)
    requires
        claims_of(input) == Some(cbor::CborView::Mapping(entries)),
        scanned(entries) is Ok,
        !has_claim(entries, claim),
    ensures
        first_missing(entries) is Some,
        !has_claim(entries, first_missing(entries)->Some_0),
        decoded(input) == Err::<CertificateView, _>(
            FormatError::MissingClaim(first_missing(entries)->Some_0),
        ),
{
    lemma_missing_claim(entries, claim);
}

/// Whether `outcome` is what decoding `input` may return.
pub open spec fn decodes_to(
    input: Seq<char>,
    outcome: Result<CertificateView, FormatError>,
) -> bool {
    outcome == decoded(input)
}

/// Decoding depends on the text alone: two outcomes for one text are equal.
pub proof fn lemma_decode_deterministic(
    input: Seq<char>,
    first: Result<CertificateView, FormatError>,
    second: Result<CertificateView, FormatError>,
)
    requires
        decodes_to(input, first),
        decodes_to(input, second),
    ensures
        first == second,
{
}

/// A token made of a certificate decodes to that certificate.
///
/// The token is made in the reverse order of decoding: `claims` encodes the
/// claims of `cert`, `sealed` encodes the envelope around `claims`, `packed`
/// inflates to `sealed`, and the text is the marker and the Base45 text of
/// `packed`. The headers and the signature of the envelope are free.
pub proof fn lemma_round_trip(
    cert: CertificateView,
    issuer: Seq<char>,
    issued_at: u64,
    expires_at: u64,
    claims: Seq<u8>,
    protected: cbor::CborView,
    unprotected: cbor::CborView,
    signature: cbor::CborView,
    sealed: Seq<u8>,
    packed: Seq<u8>,
)
    requires
        cbor::parsed(claims) == Some(claims_record(issuer, issued_at, expires_at, cert)),
        cbor::parsed(sealed) == Some(cose::envelope(protected, unprotected, claims, signature)),
        zlib::inflated(packed) == Some(sealed),
    ensures
        decoded(prefix::marker() + b45::encoded(packed)) == Ok::<_, FormatError>(cert),
{
    let text = b45::encoded(packed);
    b45::lemma_encoded_last(packed);
    prefix::lemma_stripped_marked(text);
    b45::lemma_decoded_encoded(packed);
    cose::lemma_payload_of_envelope(protected, unprotected, claims, signature);
    lemma_claims_record_tag_free(issuer, issued_at, expires_at, cert);
    claims_record(issuer, issued_at, expires_at, cert).lemma_plain_of_tag_free();
    lemma_claims_round_trip(issuer, issued_at, expires_at, cert);
}

/// Decodes a health-pass token into its certificate.
///
/// The result is [`decoded`] of the text: the certificate, or the error of
/// the first stage that rejects the token.
pub fn decode(data: String) -> (r: Result<Certificate, FormatError>)
    ensures
        match r {
            Ok(cert) => decodes_to(data@, Ok(cert@)),
            Err(e) => decodes_to(data@, Err(e)),
        },
{
    let body = prefix::strip_marker(data.as_str())?;
    let packed = b45::decode(body)?;
    let bytes = zlib::inflate(packed.as_slice())?;
    let envelope = cbor::parse(bytes.as_slice())?;
    let payload = cose::unwrap(&envelope)?;
    let claims = cbor::parse(payload.as_slice())?.without_tags();
    Payload::from_cbor(&claims)?.into_certificate()
}

} // verus!
