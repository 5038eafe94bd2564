//! The claims of the payload: issuer, two timestamps and the health
//! certificates by schema version.

use std::collections::HashMap;
use vstd::prelude::*;
use crate::cbor::{entries_view, lemma_mapping_view, Cbor, CborView};
use crate::error::{Claim, FormatError};
use crate::schema::{
    certificate_of, certificate_record, lemma_certificate_record_tag_free,
    lemma_certificate_round_trip, Certificate, CertificateView,
};

verus! {

/// Claim key of the issuer.
pub const KEY_ISSUER: i128 = 1;

/// Claim key of the expiry time.
pub const KEY_EXPIRES_AT: i128 = 4;

/// Claim key of the time of issue.
pub const KEY_ISSUED_AT: i128 = 6;

/// Claim key of the health certificates.
pub const KEY_HCERT: i128 = -260;

/// Key of schema version 1 among the health certificates.
pub const DCC_V1: usize = 1;

/// The claims of a token.
#[derive(Debug, PartialEq)]
pub struct Payload {
    /// When the certificate expires, in seconds since the epoch.
    pub expires_at: u64,
    /// When the certificate was issued, in seconds since the epoch.
    pub issued_at: u64,
    /// Who issued the certificate.
    pub issuer: String,
    /// The health certificates, by schema version.
    pub certs: HashMap<usize, Certificate>,
}

/// The mathematical value of a [`Payload`].
pub struct PayloadView {
    pub expires_at: u64,
    pub issued_at: u64,
    pub issuer: Seq<char>,
    pub certs: Map<usize, CertificateView>,
}

/// The values of the certificates of a map.
pub open spec fn certs_view(m: Map<usize, Certificate>) -> Map<usize, CertificateView> {
    Map::new(|k: usize| m.contains_key(k), |k: usize| m[k]@)
}

impl View for Payload {
    type V = PayloadView;

    open spec fn view(&self) -> PayloadView {
        PayloadView {
            expires_at: self.expires_at,
            issued_at: self.issued_at,
            issuer: self.issuer@,
            certs: certs_view(self.certs@),
        }
    }
}

/// The claims met so far in one pass over the entries of the payload.
pub struct Found {
    pub issuer: Option<Seq<char>>,
    pub issued_at: Option<u64>,
    pub expires_at: Option<u64>,
    pub certs: Option<Map<usize, CertificateView>>,
}

/// The claim that the key `key` stands for, if any.
pub open spec fn claim_of(key: CborView) -> Option<Claim> {
    match key {
        CborView::Integer(k) => if k == KEY_ISSUER {
            Some(Claim::Issuer)
        } else if k == KEY_ISSUED_AT {
            Some(Claim::IssuedAt)
        } else if k == KEY_EXPIRES_AT {
            Some(Claim::ExpiresAt)
        } else if k == KEY_HCERT {
            Some(Claim::HealthCertificate)
        } else {
            None
        },
        _ => None,
    }
}

/// A timestamp: an integer that fits in 64 bits without sign.
pub open spec fn timestamp_of(v: CborView) -> Result<u64, FormatError> {
    match v {
        CborView::Integer(n) => if 0 <= n <= u64::MAX {
            Ok(n as u64)
        } else {
            Err(FormatError::SchemaMismatch)
        },
        _ => Err(FormatError::SchemaMismatch),
    }
}

/// A text.
pub open spec fn issuer_of(v: CborView) -> Result<Seq<char>, FormatError> {
    match v {
        CborView::Text(t) => Ok(t),
        _ => Err(FormatError::SchemaMismatch),
    }
}

/// The certificates among `entries`, by schema version. An entry under the
/// key 1 must hold a certificate, and a later one replaces an earlier one; an
/// entry under another key is passed over.
pub open spec fn versions(entries: Seq<(CborView, CborView)>) -> Result<
    Map<usize, CertificateView>,
    FormatError,
>
    decreases entries.len(),
{
    if entries.len() == 0 {
        Ok(Map::empty())
    } else {
        match versions(entries.drop_last()) {
            Ok(m) => if entries.last().0 == CborView::Integer(DCC_V1 as int) {
                match certificate_of(entries.last().1) {
                    Ok(c) => Ok(m.insert(DCC_V1, c)),
                    Err(e) => Err(e),
                }
            } else {
                Ok(m)
            },
            Err(e) => Err(e),
        }
    }
}

/// The health certificates that `v` holds: `v` must be a map.
pub open spec fn certificates_of(v: CborView) -> Result<Map<usize, CertificateView>, FormatError> {
    match v {
        CborView::Mapping(entries) => versions(entries),
        _ => Err(FormatError::SchemaMismatch),
    }
}

/// The claims after one more entry. A claim that was met before is a
/// [`FormatError::DuplicateClaim`], whatever its value; a value of the wrong
/// kind is a [`FormatError::SchemaMismatch`]; a key that stands for no claim
/// is passed over.
pub open spec fn step(found: Found, key: CborView, value: CborView) -> Result<Found, FormatError> {
    match claim_of(key) {
        Some(Claim::Issuer) => if found.issuer is Some {
            Err(FormatError::DuplicateClaim(Claim::Issuer))
        } else {
            match issuer_of(value) {
                Ok(t) => Ok(Found { issuer: Some(t), ..found }),
                Err(e) => Err(e),
            }
        },
        Some(Claim::IssuedAt) => if found.issued_at is Some {
            Err(FormatError::DuplicateClaim(Claim::IssuedAt))
        } else {
            match timestamp_of(value) {
                Ok(t) => Ok(Found { issued_at: Some(t), ..found }),
                Err(e) => Err(e),
            }
        },
        Some(Claim::ExpiresAt) => if found.expires_at is Some {
            Err(FormatError::DuplicateClaim(Claim::ExpiresAt))
        } else {
            match timestamp_of(value) {
                Ok(t) => Ok(Found { expires_at: Some(t), ..found }),
                Err(e) => Err(e),
            }
        },
        Some(Claim::HealthCertificate) => if found.certs is Some {
            Err(FormatError::DuplicateClaim(Claim::HealthCertificate))
        } else {
            match certificates_of(value) {
                Ok(m) => Ok(Found { certs: Some(m), ..found }),
                Err(e) => Err(e),
            }
        },
        None => Ok(found),
    }
}

/// The claims met in one pass over `entries`, or the first error on the way.
pub open spec fn scanned(entries: Seq<(CborView, CborView)>) -> Result<Found, FormatError>
    decreases entries.len(),
{
    if entries.len() == 0 {
        Ok(Found { issuer: None, issued_at: None, expires_at: None, certs: None })
    } else {
        match scanned(entries.drop_last()) {
            Ok(found) => step(found, entries.last().0, entries.last().1),
            Err(e) => Err(e),
        }
    }
}

/// The payload made of `found`, or the first claim that is missing, in the
/// order issuer, time of issue, expiry time, health certificates.
pub open spec fn completed(found: Found) -> Result<PayloadView, FormatError> {
    match (found.issuer, found.issued_at, found.expires_at, found.certs) {
        (None, _, _, _) => Err(FormatError::MissingClaim(Claim::Issuer)),
        (_, None, _, _) => Err(FormatError::MissingClaim(Claim::IssuedAt)),
        (_, _, None, _) => Err(FormatError::MissingClaim(Claim::ExpiresAt)),
        (_, _, _, None) => Err(FormatError::MissingClaim(Claim::HealthCertificate)),
        (Some(issuer), Some(issued_at), Some(expires_at), Some(certs)) => Ok(
            PayloadView { expires_at, issued_at, issuer, certs },
        ),
    }
}

/// The certificate of schema version 1 in `payload`.
pub open spec fn version_1(payload: PayloadView) -> Result<CertificateView, FormatError> {
    if payload.certs.contains_key(DCC_V1) {
        Ok(payload.certs[DCC_V1])
    } else {
        Err(FormatError::UnsupportedSchemaVersion)
    }
}

/// The payload that `v` holds: `v` must be a map, its entries are scanned
/// once, and all four claims must have been met at the end.
pub open spec fn payload_of(v: CborView) -> Result<PayloadView, FormatError> {
    match v {
        CborView::Mapping(entries) => match scanned(entries) {
            Ok(found) => completed(found),
            Err(e) => Err(e),
        },
        _ => Err(FormatError::SchemaMismatch),
    }
}

/// Whether an entry of `entries` has the key of `claim`.
pub open spec fn has_claim(entries: Seq<(CborView, CborView)>, claim: Claim) -> bool {
    exists|i: int| 0 <= i < entries.len() && claim_of((#[trigger] entries[i]).0) == Some(claim)
}

/// The first claim that `entries` lacks, in the order issuer, time of issue,
/// expiry time, health certificates; `None` where all four are there.
pub open spec fn first_missing(entries: Seq<(CborView, CborView)>) -> Option<Claim> {
    if !has_claim(entries, Claim::Issuer) {
        Some(Claim::Issuer)
    } else if !has_claim(entries, Claim::IssuedAt) {
        Some(Claim::IssuedAt)
    } else if !has_claim(entries, Claim::ExpiresAt) {
        Some(Claim::ExpiresAt)
    } else if !has_claim(entries, Claim::HealthCertificate) {
        Some(Claim::HealthCertificate)
    } else {
        None
    }
}

/// After a pass without error, a claim has been met exactly where an entry
/// has its key.
pub proof fn lemma_scanned_claims(entries: Seq<(CborView, CborView)>)
    requires
        scanned(entries) is Ok,
    ensures
        scanned(entries)->Ok_0.issuer is Some <==> has_claim(entries, Claim::Issuer),
        scanned(entries)->Ok_0.issued_at is Some <==> has_claim(entries, Claim::IssuedAt),
        scanned(entries)->Ok_0.expires_at is Some <==> has_claim(entries, Claim::ExpiresAt),
        scanned(entries)->Ok_0.certs is Some <==> has_claim(entries, Claim::HealthCertificate),
    decreases entries.len(),
{
    if entries.len() > 0 {
        let front = entries.drop_last();
        let last = entries.len() - 1;
        lemma_scanned_claims(front);
        assert(entries.last() == entries[last]);
        assert forall|c: Claim| has_claim(entries, c) <==> has_claim(front, c) || claim_of(
            entries[last].0,
        ) == Some(c) by {
            if has_claim(front, c) {
                let i = choose|i: int|
                    0 <= i < front.len() && claim_of((#[trigger] front[i]).0) == Some(c);
                assert(entries[i] == front[i]);
            }
            if has_claim(entries, c) {
                let i = choose|i: int|
                    0 <= i < entries.len() && claim_of((#[trigger] entries[i]).0) == Some(c);
                if i < last {
                    assert(front[i] == entries[i]);
                }
            }
        }
    }
}

/// A payload that lacks a claim is rejected for the first claim it lacks,
/// where the pass over its entries meets no repeated claim and no value of
/// the wrong kind before.
pub proof fn lemma_missing_claim(entries: Seq<(CborView, CborView)>, claim: Claim)
    requires
        scanned(entries) is Ok,
        !has_claim(entries, claim),
    ensures
        first_missing(entries) is Some,
        !has_claim(entries, first_missing(entries)->Some_0),
        payload_of(CborView::Mapping(entries)) == Err::<PayloadView, _>(
            FormatError::MissingClaim(first_missing(entries)->Some_0),
        ),
{
    lemma_scanned_claims(entries);
}

/// The claims of a token that holds the certificate `cert` under schema
/// version 1.
pub open spec fn claims_record(
    issuer: Seq<char>,
    issued_at: u64,
    expires_at: u64,
    cert: CertificateView,
) -> CborView {
    CborView::Mapping(
        seq![
            (CborView::Integer(KEY_ISSUER as int), CborView::Text(issuer)),
            (CborView::Integer(KEY_ISSUED_AT as int), CborView::Integer(issued_at as int)),
            (CborView::Integer(KEY_EXPIRES_AT as int), CborView::Integer(expires_at as int)),
            (
                CborView::Integer(KEY_HCERT as int),
                CborView::Mapping(
                    seq![(CborView::Integer(DCC_V1 as int), certificate_record(cert))],
                ),
            ),
        ],
    )
}

/// The claims of a certificate hold no tagged item.
pub proof fn lemma_claims_record_tag_free(
    issuer: Seq<char>,
    issued_at: u64,
    expires_at: u64,
    cert: CertificateView,
)
    ensures
        claims_record(issuer, issued_at, expires_at, cert).tag_free(),
{
    reveal_with_fuel(CborView::tag_free, 3);
    lemma_certificate_record_tag_free(cert);
}

/// Reading the claims of a certificate gives the four claims back, and the
/// certificate under schema version 1.
pub proof fn lemma_claims_round_trip(
    issuer: Seq<char>,
    issued_at: u64,
    expires_at: u64,
    cert: CertificateView,
)
    ensures
        payload_of(claims_record(issuer, issued_at, expires_at, cert)) == Ok::<_, FormatError>(
            PayloadView {
                expires_at,
                issued_at,
                issuer,
                certs: Map::<usize, CertificateView>::empty().insert(DCC_V1, cert),
            },
        ),
        version_1(payload_of(claims_record(issuer, issued_at, expires_at, cert))->Ok_0) == Ok::<
            _,
            FormatError,
        >(cert),
{
    let entries = claims_record(issuer, issued_at, expires_at, cert)->Mapping_0;
    let inner = seq![(CborView::Integer(DCC_V1 as int), certificate_record(cert))];
    lemma_certificate_round_trip(cert);
    assert(versions(inner) == Ok::<_, FormatError>(
        Map::<usize, CertificateView>::empty().insert(DCC_V1, cert),
    )) by {
        assert(inner.drop_last() =~= Seq::empty());
        reveal_with_fuel(versions, 2);
    }
    let e0 = entries.take(0);
    let e1 = entries.take(1);
    let e2 = entries.take(2);
    let e3 = entries.take(3);
    assert(e1.drop_last() =~= e0);
    assert(e2.drop_last() =~= e1);
    assert(e3.drop_last() =~= e2);
    assert(entries.drop_last() =~= e3);
    assert(scanned(e0) is Ok);
    assert(scanned(e1) is Ok);
    assert(scanned(e2) is Ok);
    assert(scanned(e3) is Ok);
    assert(scanned(entries) is Ok);
}

/// An error met on the way stays the result, whatever follows.
proof fn lemma_versions_error(entries: Seq<(CborView, CborView)>, n: int)
    requires
        0 <= n <= entries.len(),
        versions(entries.take(n)) is Err,
    ensures
        versions(entries) == versions(entries.take(n)),
    decreases entries.len() - n,
{
    if n == entries.len() {
        assert(entries.take(n) == entries);
    } else {
        assert(entries.take(n + 1).drop_last() == entries.take(n));
        lemma_versions_error(entries, n + 1);
    }
}

/// An error met on the way stays the result, whatever follows.
proof fn lemma_scanned_error(entries: Seq<(CborView, CborView)>, n: int)
    requires
        0 <= n <= entries.len(),
        scanned(entries.take(n)) is Err,
    ensures
        scanned(entries) == scanned(entries.take(n)),
    decreases entries.len() - n,
{
    if n == entries.len() {
        assert(entries.take(n) == entries);
    } else {
        assert(entries.take(n + 1).drop_last() == entries.take(n));
        lemma_scanned_error(entries, n + 1);
    }
}

/// Reads a timestamp.
fn timestamp(value: &Cbor) -> (r: Result<u64, FormatError>)
    ensures
        match r {
            Ok(t) => timestamp_of(value@) == Ok::<_, FormatError>(t),
            Err(e) => timestamp_of(value@) == Err::<u64, _>(e),
        },
{
    match value {
        Cbor::Integer(n) => {
            if 0 <= *n && *n <= 0xFFFF_FFFF_FFFF_FFFF {
                Ok(*n as u64)
            } else {
                Err(FormatError::SchemaMismatch)
            }
        },
        _ => Err(FormatError::SchemaMismatch),
    }
}

/// Reads the health certificates, by schema version.
fn certificates(value: &Cbor) -> (r: Result<HashMap<usize, Certificate>, FormatError>)
    ensures
        match r {
            Ok(m) => certificates_of(value@) == Ok::<_, FormatError>(certs_view(m@)),
            Err(e) => certificates_of(value@) == Err::<Map<usize, CertificateView>, _>(e),
        },
{
    broadcast use vstd::std_specs::hash::group_hash_axioms;

    let entries = match value {
        Cbor::Mapping(entries) => entries,
        _ => {
            return Err(FormatError::SchemaMismatch);
        },
    };
    proof {
        lemma_mapping_view(*entries);
    }
    let ghost view = entries_view(entries@);
    let mut certs: HashMap<usize, Certificate> = HashMap::new();
    assert(certs_view(certs@) =~= Map::<usize, CertificateView>::empty());
    let mut i: usize = 0;
    while i < entries.len()
        invariant
            i <= entries.len(),
            view == entries_view(entries@),
            value@ == CborView::Mapping(view),
            versions(view.take(i as int)) == Ok::<_, FormatError>(certs_view(certs@)),
        decreases entries.len() - i,
    {
        proof {
            assert(view.take(i + 1).drop_last() == view.take(i as int));
        }
        let is_v1 = match &entries[i].0 {
            Cbor::Integer(k) => *k == 1,
            _ => false,
        };
        if is_v1 {
            match Certificate::from_cbor(&entries[i].1) {
                Ok(cert) => {
                    let ghost before = certs@;
                    certs.insert(DCC_V1, cert);
                    assert(certs_view(certs@) =~= certs_view(before).insert(DCC_V1, cert@));
                },
                Err(e) => {
                    proof {
                        lemma_versions_error(view, i + 1);
                    }
                    return Err(e);
                },
            }
        }
        i = i + 1;
    }
    proof {
        assert(view.take(i as int) == view);
    }
    Ok(certs)
}

/// The value of a text that may be absent.
pub open spec fn text_view(t: Option<String>) -> Option<Seq<char>> {
    match t {
        Some(t) => Some(t@),
        None => None,
    }
}

/// The value of a map of certificates that may be absent.
pub open spec fn found_certs_view(m: Option<HashMap<usize, Certificate>>) -> Option<
    Map<usize, CertificateView>,
> {
    match m {
        Some(m) => Some(certs_view(m@)),
        None => None,
    }
}

impl Payload {
    /// Hands out the certificate of schema version 1.
    ///
    /// Fails with [`FormatError::UnsupportedSchemaVersion`] exactly where the
    /// payload holds none.
    pub fn into_certificate(self) -> (r: Result<Certificate, FormatError>)
        ensures
            match r {
                Ok(cert) => version_1(self@) == Ok::<_, FormatError>(cert@),
                Err(e) => version_1(self@) == Err::<CertificateView, _>(e),
            },
    {
        broadcast use vstd::std_specs::hash::group_hash_axioms;

        let mut certs = self.certs;
        match certs.remove(&DCC_V1) {
            Some(cert) => Ok(cert),
            None => Err(FormatError::UnsupportedSchemaVersion),
        }
    }

    /// Reads the claims from a CBOR item in one pass over its entries. The
    /// result is [`payload_of`] of the item.
    pub fn from_cbor(value: &Cbor) -> (r: Result<Payload, FormatError>)
        ensures
            match r {
                Ok(p) => payload_of(value@) == Ok::<_, FormatError>(p@),
                Err(e) => payload_of(value@) == Err::<PayloadView, _>(e),
            },
    {
        let entries = match value {
            Cbor::Mapping(entries) => entries,
            _ => {
                return Err(FormatError::SchemaMismatch);
            },
        };
        proof {
            lemma_mapping_view(*entries);
        }
        let ghost view = entries_view(entries@);
        let mut issuer: Option<String> = None;
        let mut issued_at: Option<u64> = None;
        let mut expires_at: Option<u64> = None;
        let mut certs: Option<HashMap<usize, Certificate>> = None;
        let mut i: usize = 0;
        while i < entries.len()
            invariant
                i <= entries.len(),
                view == entries_view(entries@),
                value@ == CborView::Mapping(view),
                scanned(view.take(i as int)) == Ok::<_, FormatError>(
                    Found {
                        issuer: text_view(issuer),
                        issued_at,
                        expires_at,
                        certs: found_certs_view(certs),
                    },
                ),
            decreases entries.len() - i,
        {
            proof {
                assert(view.take(i + 1).drop_last() == view.take(i as int));
                if scanned(view.take(i + 1)) is Err {
                    lemma_scanned_error(view, i + 1);
                }
            }
            let key = &entries[i].0;
            let item = &entries[i].1;
            match key {
                Cbor::Integer(k) => {
                    if *k == KEY_ISSUER {
                        if issuer.is_some() {
                            return Err(FormatError::DuplicateClaim(Claim::Issuer));
                        }
                        match item {
                            Cbor::Text(t) => {
                                issuer = Some(t.clone());
                            },
                            _ => {
                                return Err(FormatError::SchemaMismatch);
                            },
                        }
                    } else if *k == KEY_ISSUED_AT {
                        if issued_at.is_some() {
                            return Err(FormatError::DuplicateClaim(Claim::IssuedAt));
                        }
                        issued_at = Some(timestamp(item)?);
                    } else if *k == KEY_EXPIRES_AT {
                        if expires_at.is_some() {
                            return Err(FormatError::DuplicateClaim(Claim::ExpiresAt));
                        }
                        expires_at = Some(timestamp(item)?);
                    } else if *k == KEY_HCERT {
                        if certs.is_some() {
                            return Err(FormatError::DuplicateClaim(Claim::HealthCertificate));
                        }
                        certs = Some(certificates(item)?);
                    }
                },
                _ => {},
            }
            i = i + 1;
        }
        proof {
            assert(view.take(i as int) == view);
        }
        match (issuer, issued_at, expires_at, certs) {
            (None, _, _, _) => Err(FormatError::MissingClaim(Claim::Issuer)),
            (_, None, _, _) => Err(FormatError::MissingClaim(Claim::IssuedAt)),
            (_, _, None, _) => Err(FormatError::MissingClaim(Claim::ExpiresAt)),
            (_, _, _, None) => Err(FormatError::MissingClaim(Claim::HealthCertificate)),
            (Some(issuer), Some(issued_at), Some(expires_at), Some(certs)) => Ok(
                Payload { expires_at, issued_at, issuer, certs },
            ),
        }
    }
}

} // verus!
