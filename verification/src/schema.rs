//! The certificate record and its parts, and how each is read from CBOR.
//!
//! A record is a CBOR map with text keys. A key that the record does not know
//! is passed over, a key that it knows may occur once, and every mismatch is
//! the same error, [`FormatError::SchemaMismatch`]. Items are read as they
//! are: a tagged text is no text. The decoder takes the tags off the claims
//! before it reads them.

use vstd::prelude::*;
use crate::cbor::{entries_view, items_view, Cbor, CborView};
use crate::error::FormatError;
use crate::record::{
    distinct_keys, each, entries_of, get, get_list, get_small_int, get_text, get_text_or_empty,
    lemma_field_found, list, record, required, small_int, text, text_or_empty,
};

verus! {

/// The values of a sequence of records.
pub open spec fn views<T: View>(s: Seq<T>) -> Seq<T::V> {
    Seq::new(s.len(), |i: int| s[i]@)
}

/// The holder's name.
#[derive(Clone, Debug, PartialEq)]
pub struct Name {
    /// Surname (key `fn`).
    pub fn_: String,
    /// Surname, transliterated (key `fnt`).
    pub fnt: String,
    /// Given name (key `gn`).
    pub gn: String,
    /// Given name, transliterated (key `gnt`).
    pub gnt: String,
}

/// The mathematical value of a [`Name`].
pub struct NameView {
    pub fn_: Seq<char>,
    pub fnt: Seq<char>,
    pub gn: Seq<char>,
    pub gnt: Seq<char>,
}

impl View for Name {
    type V = NameView;

    open spec fn view(&self) -> NameView {
        NameView { fn_: self.fn_@, fnt: self.fnt@, gn: self.gn@, gnt: self.gnt@ }
    }
}

/// One vaccination.
#[derive(Clone, Debug, PartialEq)]
pub struct VaccineRecord {
    /// Disease or agent targeted.
    pub tg: String,
    /// Vaccine or prophylaxis.
    pub vp: String,
    /// Medicinal product.
    pub mp: String,
    /// Manufacturer or marketing authorisation holder.
    pub ma: String,
    /// Number of this dose in the series.
    pub dn: i32,
    /// Number of doses in the series.
    pub sd: i32,
    /// Date of vaccination.
    pub dt: String,
    /// Country of vaccination.
    pub co: String,
    /// Issuer of the certificate.
    pub is: String,
    /// Unique certificate identifier.
    pub ci: String,
}

/// The mathematical value of a [`VaccineRecord`].
pub struct VaccineRecordView {
    pub tg: Seq<char>,
    pub vp: Seq<char>,
    pub mp: Seq<char>,
    pub ma: Seq<char>,
    pub dn: i32,
    pub sd: i32,
    pub dt: Seq<char>,
    pub co: Seq<char>,
    pub is: Seq<char>,
    pub ci: Seq<char>,
}

impl View for VaccineRecord {
    type V = VaccineRecordView;

    open spec fn view(&self) -> VaccineRecordView {
        VaccineRecordView {
            tg: self.tg@,
            vp: self.vp@,
            mp: self.mp@,
            ma: self.ma@,
            dn: self.dn,
            sd: self.sd,
            dt: self.dt@,
            co: self.co@,
            is: self.is@,
            ci: self.ci@,
        }
    }
}

/// One recovery from the disease.
#[derive(Clone, Debug, PartialEq)]
pub struct RecoveryRecord {
    /// Disease or agent recovered from.
    pub tg: String,
    /// Date of the first positive test.
    pub fr: String,
    /// Country of the test.
    pub co: String,
    /// Issuer of the certificate.
    pub is: String,
    /// First day on which the certificate is valid.
    pub df: String,
    /// Last day on which the certificate is valid.
    pub du: String,
    /// Unique certificate identifier.
    pub ci: String,
}

/// The mathematical value of a [`RecoveryRecord`].
pub struct RecoveryRecordView {
    pub tg: Seq<char>,
    pub fr: Seq<char>,
    pub co: Seq<char>,
    pub is: Seq<char>,
    pub df: Seq<char>,
    pub du: Seq<char>,
    pub ci: Seq<char>,
}

impl View for RecoveryRecord {
    type V = RecoveryRecordView;

    open spec fn view(&self) -> RecoveryRecordView {
        RecoveryRecordView {
            tg: self.tg@,
            fr: self.fr@,
            co: self.co@,
            is: self.is@,
            df: self.df@,
            du: self.du@,
            ci: self.ci@,
        }
    }
}

/// One test.
#[derive(Clone, Debug, PartialEq)]
pub struct TestRecord {
    /// Disease or agent tested for.
    pub tg: String,
    /// Type of test.
    pub tt: String,
    /// Name of the test; empty where the certificate gives none.
    pub nm: String,
    /// Manufacturer of the test device; empty where the certificate gives none.
    pub ma: String,
    /// Date and time at which the sample was taken.
    pub sc: String,
    /// Date and time of the result; empty where the certificate gives none.
    pub dr: String,
    /// Result of the test.
    pub tr: String,
    /// Testing centre.
    pub tc: String,
    /// Country of the test.
    pub co: String,
    /// Issuer of the certificate.
    pub is: String,
    /// Unique certificate identifier.
    pub ci: String,
}

/// The mathematical value of a [`TestRecord`].
pub struct TestRecordView {
    pub tg: Seq<char>,
    pub tt: Seq<char>,
    pub nm: Seq<char>,
    pub ma: Seq<char>,
    pub sc: Seq<char>,
    pub dr: Seq<char>,
    pub tr: Seq<char>,
    pub tc: Seq<char>,
    pub co: Seq<char>,
    pub is: Seq<char>,
    pub ci: Seq<char>,
}

impl View for TestRecord {
    type V = TestRecordView;

    open spec fn view(&self) -> TestRecordView {
        TestRecordView {
            tg: self.tg@,
            tt: self.tt@,
            nm: self.nm@,
            ma: self.ma@,
            sc: self.sc@,
            dr: self.dr@,
            tr: self.tr@,
            tc: self.tc@,
            co: self.co@,
            is: self.is@,
            ci: self.ci@,
        }
    }
}

/// A health certificate of schema version 1.
#[derive(Clone, Debug, PartialEq)]
pub struct Certificate {
    /// Version of the schema.
    pub ver: String,
    /// Name of the holder.
    pub nam: Name,
    /// Date of birth of the holder.
    pub dob: String,
    /// Vaccinations, in the order of the encoding.
    pub v: Vec<VaccineRecord>,
    /// Recoveries, in the order of the encoding.
    pub r: Vec<RecoveryRecord>,
    /// Tests, in the order of the encoding.
    pub t: Vec<TestRecord>,
}

/// The mathematical value of a [`Certificate`].
pub struct CertificateView {
    pub ver: Seq<char>,
    pub nam: NameView,
    pub dob: Seq<char>,
    pub v: Seq<VaccineRecordView>,
    pub r: Seq<RecoveryRecordView>,
    pub t: Seq<TestRecordView>,
}

impl View for Certificate {
    type V = CertificateView;

    open spec fn view(&self) -> CertificateView {
        CertificateView {
            ver: self.ver@,
            nam: self.nam@,
            dob: self.dob@,
            v: views(self.v@),
            r: views(self.r@),
            t: views(self.t@),
        }
    }
}

/// The name that `v` holds: a record with the text fields `fn`, `fnt`, `gn`
/// and `gnt`.
pub open spec fn name_of(v: CborView) -> Result<NameView, FormatError> {
    match record(v) {
        Ok(e) => match (text(e, "fn"@), text(e, "fnt"@), text(e, "gn"@), text(e, "gnt"@)) {
            (Ok(fn_), Ok(fnt), Ok(gn), Ok(gnt)) => Ok(NameView { fn_, fnt, gn, gnt }),
            _ => Err(FormatError::SchemaMismatch),
        },
        Err(e) => Err(e),
    }
}

/// The vaccination that `v` holds: a record with the text fields `tg`, `vp`,
/// `mp`, `ma`, `dt`, `co`, `is`, `ci` and the integer fields `dn` and `sd`.
pub open spec fn vaccine_of(v: CborView) -> Result<VaccineRecordView, FormatError> {
    match record(v) {
        Ok(e) => match (
            (text(e, "tg"@), text(e, "vp"@), text(e, "mp"@), text(e, "ma"@)),
            (small_int(e, "dn"@), small_int(e, "sd"@)),
            (text(e, "dt"@), text(e, "co"@), text(e, "is"@), text(e, "ci"@)),
        ) {
            (
                (Ok(tg), Ok(vp), Ok(mp), Ok(ma)),
                (Ok(dn), Ok(sd)),
                (Ok(dt), Ok(co), Ok(is), Ok(ci)),
            ) => Ok(VaccineRecordView { tg, vp, mp, ma, dn, sd, dt, co, is, ci }),
            _ => Err(FormatError::SchemaMismatch),
        },
        Err(e) => Err(e),
    }
}

/// The recovery that `v` holds: a record with the text fields `tg`, `fr`,
/// `co`, `is`, `df`, `du` and `ci`.
pub open spec fn recovery_of(v: CborView) -> Result<RecoveryRecordView, FormatError> {
    match record(v) {
        Ok(e) => match (
            (text(e, "tg"@), text(e, "fr"@), text(e, "co"@), text(e, "is"@)),
            (text(e, "df"@), text(e, "du"@), text(e, "ci"@)),
        ) {
            ((Ok(tg), Ok(fr), Ok(co), Ok(is)), (Ok(df), Ok(du), Ok(ci))) => Ok(
                RecoveryRecordView { tg, fr, co, is, df, du, ci },
            ),
            _ => Err(FormatError::SchemaMismatch),
        },
        Err(e) => Err(e),
    }
}

/// The test that `v` holds: a record with the text fields `tg`, `tt`, `sc`,
/// `tr`, `tc`, `co`, `is`, `ci`, and the text fields `nm`, `ma` and `dr`,
/// which are empty where their key is absent.
pub open spec fn test_of(v: CborView) -> Result<TestRecordView, FormatError> {
    match record(v) {
        Ok(e) => match (
            (text(e, "tg"@), text(e, "tt"@), text_or_empty(e, "nm"@), text_or_empty(e, "ma"@)),
            (text(e, "sc"@), text_or_empty(e, "dr"@), text(e, "tr"@), text(e, "tc"@)),
            (text(e, "co"@), text(e, "is"@), text(e, "ci"@)),
        ) {
            (
                (Ok(tg), Ok(tt), Ok(nm), Ok(ma)),
                (Ok(sc), Ok(dr), Ok(tr), Ok(tc)),
                (Ok(co), Ok(is), Ok(ci)),
            ) => Ok(TestRecordView { tg, tt, nm, ma, sc, dr, tr, tc, co, is, ci }),
            _ => Err(FormatError::SchemaMismatch),
        },
        Err(e) => Err(e),
    }
}

/// The records of the list field `name`, each read by `read`; none where the
/// key is absent.
pub open spec fn records<T>(
    entries: Seq<(CborView, CborView)>,
    name: Seq<char>,
    read: spec_fn(CborView) -> Result<T, FormatError>,
) -> Result<Seq<T>, FormatError> {
    match list(entries, name) {
        Ok(items) => each(items, read),
        Err(e) => Err(e),
    }
}

/// The vaccinations under the key `v`.
pub open spec fn vaccinations_of(entries: Seq<(CborView, CborView)>) -> Result<
    Seq<VaccineRecordView>,
    FormatError,
> {
    records(entries, "v"@, |x: CborView| vaccine_of(x))
}

/// The recoveries under the key `r`.
pub open spec fn recoveries_of(entries: Seq<(CborView, CborView)>) -> Result<
    Seq<RecoveryRecordView>,
    FormatError,
> {
    records(entries, "r"@, |x: CborView| recovery_of(x))
}

/// The tests under the key `t`.
pub open spec fn tests_of(entries: Seq<(CborView, CborView)>) -> Result<
    Seq<TestRecordView>,
    FormatError,
> {
    records(entries, "t"@, |x: CborView| test_of(x))
}

/// The name under the key `nam`.
pub open spec fn holder(entries: Seq<(CborView, CborView)>) -> Result<NameView, FormatError> {
    match required(entries, "nam"@) {
        Ok(v) => name_of(v),
        Err(e) => Err(e),
    }
}

/// The certificate that `v` holds: a record with the text fields `ver` and
/// `dob`, the name `nam`, and the lists `v`, `r` and `t`, each empty where
/// its key is absent.
pub open spec fn certificate_of(v: CborView) -> Result<CertificateView, FormatError> {
    match record(v) {
        Ok(e) => match (
            (text(e, "ver"@), holder(e), text(e, "dob"@)),
            (vaccinations_of(e), recoveries_of(e), tests_of(e)),
        ) {
            ((Ok(ver), Ok(nam), Ok(dob)), (Ok(v), Ok(r), Ok(t))) => Ok(
                CertificateView { ver, nam, dob, v, r, t },
            ),
            _ => Err(FormatError::SchemaMismatch),
        },
        Err(e) => Err(e),
    }
}

/// A record entry that holds a text.
pub open spec fn text_entry(key: Seq<char>, value: Seq<char>) -> (CborView, CborView) {
    (CborView::Text(key), CborView::Text(value))
}

/// A record entry that holds an integer.
pub open spec fn int_entry(key: Seq<char>, value: int) -> (CborView, CborView) {
    (CborView::Text(key), CborView::Integer(value))
}

/// The record that holds the name `n`.
pub open spec fn name_record(n: NameView) -> CborView {
    CborView::Mapping(
        seq![
            text_entry("fn"@, n.fn_),
            text_entry("fnt"@, n.fnt),
            text_entry("gn"@, n.gn),
            text_entry("gnt"@, n.gnt),
        ],
    )
}

/// Reading the record of a name gives the name back.
pub proof fn lemma_name_round_trip(n: NameView)
    ensures
        name_of(name_record(n)) == Ok::<_, FormatError>(n),
{
    reveal_strlit("fn");
    reveal_strlit("fnt");
    reveal_strlit("gn");
    reveal_strlit("gnt");
    let e = name_record(n)->Mapping_0;
    assert("fn"@.len() == 2 && "fn"@[0] == 'f');
    assert("fnt"@.len() == 3 && "fnt"@[0] == 'f');
    assert("gn"@.len() == 2 && "gn"@[0] == 'g');
    assert("gnt"@.len() == 3 && "gnt"@[0] == 'g');
    assert(distinct_keys(e));
    lemma_field_found(e, 0, "fn"@);
    lemma_field_found(e, 1, "fnt"@);
    lemma_field_found(e, 2, "gn"@);
    lemma_field_found(e, 3, "gnt"@);
}

/// The record that holds the vaccination `r`.
pub open spec fn vaccine_record(r: VaccineRecordView) -> CborView {
    CborView::Mapping(
        seq![
            text_entry("tg"@, r.tg),
            text_entry("vp"@, r.vp),
            text_entry("mp"@, r.mp),
            text_entry("ma"@, r.ma),
            int_entry("dn"@, r.dn as int),
            int_entry("sd"@, r.sd as int),
            text_entry("dt"@, r.dt),
            text_entry("co"@, r.co),
            text_entry("is"@, r.is),
            text_entry("ci"@, r.ci),
        ],
    )
}

/// Reading the record of a vaccination gives the vaccination back.
pub proof fn lemma_vaccine_round_trip(r: VaccineRecordView)
    ensures
        vaccine_of(vaccine_record(r)) == Ok::<_, FormatError>(r),
{
    reveal_strlit("tg");
    reveal_strlit("vp");
    reveal_strlit("mp");
    reveal_strlit("ma");
    reveal_strlit("dn");
    reveal_strlit("sd");
    reveal_strlit("dt");
    reveal_strlit("co");
    reveal_strlit("is");
    reveal_strlit("ci");
    assert("tg"@.len() == 2 && "tg"@[0] == 't' && "tg"@[1] == 'g');
    assert("vp"@.len() == 2 && "vp"@[0] == 'v' && "vp"@[1] == 'p');
    assert("mp"@.len() == 2 && "mp"@[0] == 'm' && "mp"@[1] == 'p');
    assert("ma"@.len() == 2 && "ma"@[0] == 'm' && "ma"@[1] == 'a');
    assert("dn"@.len() == 2 && "dn"@[0] == 'd' && "dn"@[1] == 'n');
    assert("sd"@.len() == 2 && "sd"@[0] == 's' && "sd"@[1] == 'd');
    assert("dt"@.len() == 2 && "dt"@[0] == 'd' && "dt"@[1] == 't');
    assert("co"@.len() == 2 && "co"@[0] == 'c' && "co"@[1] == 'o');
    assert("is"@.len() == 2 && "is"@[0] == 'i' && "is"@[1] == 's');
    assert("ci"@.len() == 2 && "ci"@[0] == 'c' && "ci"@[1] == 'i');
    let e = vaccine_record(r)->Mapping_0;
    assert(distinct_keys(e));
    lemma_field_found(e, 0, "tg"@);
    lemma_field_found(e, 1, "vp"@);
    lemma_field_found(e, 2, "mp"@);
    lemma_field_found(e, 3, "ma"@);
    lemma_field_found(e, 4, "dn"@);
    lemma_field_found(e, 5, "sd"@);
    lemma_field_found(e, 6, "dt"@);
    lemma_field_found(e, 7, "co"@);
    lemma_field_found(e, 8, "is"@);
    lemma_field_found(e, 9, "ci"@);
}

/// The record that holds the recovery `r`.
pub open spec fn recovery_record(r: RecoveryRecordView) -> CborView {
    CborView::Mapping(
        seq![
            text_entry("tg"@, r.tg),
            text_entry("fr"@, r.fr),
            text_entry("co"@, r.co),
            text_entry("is"@, r.is),
            text_entry("df"@, r.df),
            text_entry("du"@, r.du),
            text_entry("ci"@, r.ci),
        ],
    )
}

/// Reading the record of a recovery gives the recovery back.
pub proof fn lemma_recovery_round_trip(r: RecoveryRecordView)
    ensures
        recovery_of(recovery_record(r)) == Ok::<_, FormatError>(r),
{
    reveal_strlit("tg");
    reveal_strlit("fr");
    reveal_strlit("co");
    reveal_strlit("is");
    reveal_strlit("df");
    reveal_strlit("du");
    reveal_strlit("ci");
    assert("tg"@.len() == 2 && "tg"@[0] == 't' && "tg"@[1] == 'g');
    assert("fr"@.len() == 2 && "fr"@[0] == 'f' && "fr"@[1] == 'r');
    assert("co"@.len() == 2 && "co"@[0] == 'c' && "co"@[1] == 'o');
    assert("is"@.len() == 2 && "is"@[0] == 'i' && "is"@[1] == 's');
    assert("df"@.len() == 2 && "df"@[0] == 'd' && "df"@[1] == 'f');
    assert("du"@.len() == 2 && "du"@[0] == 'd' && "du"@[1] == 'u');
    assert("ci"@.len() == 2 && "ci"@[0] == 'c' && "ci"@[1] == 'i');
    let e = recovery_record(r)->Mapping_0;
    assert(distinct_keys(e));
    lemma_field_found(e, 0, "tg"@);
    lemma_field_found(e, 1, "fr"@);
    lemma_field_found(e, 2, "co"@);
    lemma_field_found(e, 3, "is"@);
    lemma_field_found(e, 4, "df"@);
    lemma_field_found(e, 5, "du"@);
    lemma_field_found(e, 6, "ci"@);
}

/// The record that holds the test `r`.
pub open spec fn test_record(r: TestRecordView) -> CborView {
    CborView::Mapping(
        seq![
            text_entry("tg"@, r.tg),
            text_entry("tt"@, r.tt),
            text_entry("nm"@, r.nm),
            text_entry("ma"@, r.ma),
            text_entry("sc"@, r.sc),
            text_entry("dr"@, r.dr),
            text_entry("tr"@, r.tr),
            text_entry("tc"@, r.tc),
            text_entry("co"@, r.co),
            text_entry("is"@, r.is),
            text_entry("ci"@, r.ci),
        ],
    )
}

/// Reading the record of a test gives the test back.
pub proof fn lemma_test_round_trip(r: TestRecordView)
    ensures
        test_of(test_record(r)) == Ok::<_, FormatError>(r),
{
    reveal_strlit("tg");
    reveal_strlit("tt");
    reveal_strlit("nm");
    reveal_strlit("ma");
    reveal_strlit("sc");
    reveal_strlit("dr");
    reveal_strlit("tr");
    reveal_strlit("tc");
    reveal_strlit("co");
    reveal_strlit("is");
    reveal_strlit("ci");
    assert("tg"@.len() == 2 && "tg"@[0] == 't' && "tg"@[1] == 'g');
    assert("tt"@.len() == 2 && "tt"@[0] == 't' && "tt"@[1] == 't');
    assert("nm"@.len() == 2 && "nm"@[0] == 'n' && "nm"@[1] == 'm');
    assert("ma"@.len() == 2 && "ma"@[0] == 'm' && "ma"@[1] == 'a');
    assert("sc"@.len() == 2 && "sc"@[0] == 's' && "sc"@[1] == 'c');
    assert("dr"@.len() == 2 && "dr"@[0] == 'd' && "dr"@[1] == 'r');
    assert("tr"@.len() == 2 && "tr"@[0] == 't' && "tr"@[1] == 'r');
    assert("tc"@.len() == 2 && "tc"@[0] == 't' && "tc"@[1] == 'c');
    assert("co"@.len() == 2 && "co"@[0] == 'c' && "co"@[1] == 'o');
    assert("is"@.len() == 2 && "is"@[0] == 'i' && "is"@[1] == 's');
    assert("ci"@.len() == 2 && "ci"@[0] == 'c' && "ci"@[1] == 'i');
    let e = test_record(r)->Mapping_0;
    assert(distinct_keys(e));
    lemma_field_found(e, 0, "tg"@);
    lemma_field_found(e, 1, "tt"@);
    lemma_field_found(e, 2, "nm"@);
    lemma_field_found(e, 3, "ma"@);
    lemma_field_found(e, 4, "sc"@);
    lemma_field_found(e, 5, "dr"@);
    lemma_field_found(e, 6, "tr"@);
    lemma_field_found(e, 7, "tc"@);
    lemma_field_found(e, 8, "co"@);
    lemma_field_found(e, 9, "is"@);
    lemma_field_found(e, 10, "ci"@);
}

/// A record entry that holds a list.
pub open spec fn list_entry(key: Seq<char>, items: Seq<CborView>) -> (CborView, CborView) {
    (CborView::Text(key), CborView::Array(items))
}

/// The record that holds the certificate `c`, with all six keys.
pub open spec fn certificate_record(c: CertificateView) -> CborView {
    CborView::Mapping(
        seq![
            text_entry("ver"@, c.ver),
            (CborView::Text("nam"@), name_record(c.nam)),
            text_entry("dob"@, c.dob),
            list_entry("v"@, Seq::new(c.v.len(), |i: int| vaccine_record(c.v[i]))),
            list_entry("r"@, Seq::new(c.r.len(), |i: int| recovery_record(c.r[i]))),
            list_entry("t"@, Seq::new(c.t.len(), |i: int| test_record(c.t[i]))),
        ],
    )
}

/// Reading the record of a certificate gives the certificate back.
pub proof fn lemma_certificate_round_trip(c: CertificateView)
    ensures
        certificate_of(certificate_record(c)) == Ok::<_, FormatError>(c),
{
    reveal_strlit("ver");
    reveal_strlit("nam");
    reveal_strlit("dob");
    reveal_strlit("v");
    reveal_strlit("r");
    reveal_strlit("t");
    assert("ver"@.len() == 3 && "ver"@[0] == 'v' && "ver"@[1] == 'e' && "ver"@[2] == 'r');
    assert("nam"@.len() == 3 && "nam"@[0] == 'n' && "nam"@[1] == 'a' && "nam"@[2] == 'm');
    assert("dob"@.len() == 3 && "dob"@[0] == 'd' && "dob"@[1] == 'o' && "dob"@[2] == 'b');
    assert("v"@.len() == 1 && "v"@[0] == 'v');
    assert("r"@.len() == 1 && "r"@[0] == 'r');
    assert("t"@.len() == 1 && "t"@[0] == 't');
    let e = certificate_record(c)->Mapping_0;
    assert(distinct_keys(e));
    lemma_field_found(e, 0, "ver"@);
    lemma_field_found(e, 1, "nam"@);
    lemma_field_found(e, 2, "dob"@);
    lemma_field_found(e, 3, "v"@);
    lemma_field_found(e, 4, "r"@);
    lemma_field_found(e, 5, "t"@);
    lemma_name_round_trip(c.nam);
    assert(vaccinations_of(e) == Ok::<_, FormatError>(c.v)) by {
        let items = Seq::new(c.v.len(), |i: int| vaccine_record(c.v[i]));
        assert forall|i: int| 0 <= i < items.len() implies vaccine_of(#[trigger] items[i]) == Ok::<
            _,
            FormatError,
        >(c.v[i]) by {
            lemma_vaccine_round_trip(c.v[i]);
        }
        assert(each(items, |x: CborView| vaccine_of(x))->Ok_0 =~= c.v);
    }
    assert(recoveries_of(e) == Ok::<_, FormatError>(c.r)) by {
        let items = Seq::new(c.r.len(), |i: int| recovery_record(c.r[i]));
        assert forall|i: int| 0 <= i < items.len() implies recovery_of(#[trigger] items[i])
            == Ok::<_, FormatError>(c.r[i]) by {
            lemma_recovery_round_trip(c.r[i]);
        }
        assert(each(items, |x: CborView| recovery_of(x))->Ok_0 =~= c.r);
    }
    assert(tests_of(e) == Ok::<_, FormatError>(c.t)) by {
        let items = Seq::new(c.t.len(), |i: int| test_record(c.t[i]));
        assert forall|i: int| 0 <= i < items.len() implies test_of(#[trigger] items[i]) == Ok::<
            _,
            FormatError,
        >(c.t[i]) by {
            lemma_test_round_trip(c.t[i]);
        }
        assert(each(items, |x: CborView| test_of(x))->Ok_0 =~= c.t);
    }
}

/// The record of a certificate holds no tagged item.
pub proof fn lemma_certificate_record_tag_free(c: CertificateView)
    ensures
        certificate_record(c).tag_free(),
{
    reveal_with_fuel(CborView::tag_free, 5);
    let e = certificate_record(c)->Mapping_0;
    assert(name_record(c.nam).tag_free());
    assert forall|i: int| 0 <= i < c.v.len() implies vaccine_record(
        #[trigger] c.v[i],
    ).tag_free() by {}
    assert forall|i: int| 0 <= i < c.r.len() implies recovery_record(
        #[trigger] c.r[i],
    ).tag_free() by {}
    assert forall|i: int| 0 <= i < c.t.len() implies test_record(
        #[trigger] c.t[i],
    ).tag_free() by {}
    assert(e[3].1.tag_free());
    assert(e[4].1.tag_free());
    assert(e[5].1.tag_free());
}

impl Name {
    /// Reads a name from a CBOR item. The result is [`name_of`] of the item.
    pub fn from_cbor(value: &Cbor) -> (r: Result<Name, FormatError>)
        ensures
            match r {
                Ok(name) => name_of(value@) == Ok::<_, FormatError>(name@),
                Err(e) => e == FormatError::SchemaMismatch && name_of(value@) is Err,
            },
    {
        let e = entries_of(value)?;
        let fn_ = get_text(e, "fn")?;
        let fnt = get_text(e, "fnt")?;
        let gn = get_text(e, "gn")?;
        let gnt = get_text(e, "gnt")?;
        Ok(Name { fn_, fnt, gn, gnt })
    }
}

impl VaccineRecord {
    /// Reads a vaccination from a CBOR item. The result is [`vaccine_of`] of
    /// the item.
    pub fn from_cbor(value: &Cbor) -> (r: Result<VaccineRecord, FormatError>)
        ensures
            match r {
                Ok(rec) => vaccine_of(value@) == Ok::<_, FormatError>(rec@),
                Err(e) => e == FormatError::SchemaMismatch && vaccine_of(value@) is Err,
            },
    {
        let e = entries_of(value)?;
        let tg = get_text(e, "tg")?;
        let vp = get_text(e, "vp")?;
        let mp = get_text(e, "mp")?;
        let ma = get_text(e, "ma")?;
        let dn = get_small_int(e, "dn")?;
        let sd = get_small_int(e, "sd")?;
        let dt = get_text(e, "dt")?;
        let co = get_text(e, "co")?;
        let is = get_text(e, "is")?;
        let ci = get_text(e, "ci")?;
        Ok(VaccineRecord { tg, vp, mp, ma, dn, sd, dt, co, is, ci })
    }
}

impl RecoveryRecord {
    /// Reads a recovery from a CBOR item. The result is [`recovery_of`] of
    /// the item.
    pub fn from_cbor(value: &Cbor) -> (r: Result<RecoveryRecord, FormatError>)
        ensures
            match r {
                Ok(rec) => recovery_of(value@) == Ok::<_, FormatError>(rec@),
                Err(e) => e == FormatError::SchemaMismatch && recovery_of(value@) is Err,
            },
    {
        let e = entries_of(value)?;
        let tg = get_text(e, "tg")?;
        let fr = get_text(e, "fr")?;
        let co = get_text(e, "co")?;
        let is = get_text(e, "is")?;
        let df = get_text(e, "df")?;
        let du = get_text(e, "du")?;
        let ci = get_text(e, "ci")?;
        Ok(RecoveryRecord { tg, fr, co, is, df, du, ci })
    }
}

impl TestRecord {
    /// Reads a test from a CBOR item. The result is [`test_of`] of the item.
    pub fn from_cbor(value: &Cbor) -> (r: Result<TestRecord, FormatError>)
        ensures
            match r {
                Ok(rec) => test_of(value@) == Ok::<_, FormatError>(rec@),
                Err(e) => e == FormatError::SchemaMismatch && test_of(value@) is Err,
            },
    {
        let e = entries_of(value)?;
        let tg = get_text(e, "tg")?;
        let tt = get_text(e, "tt")?;
        let nm = get_text_or_empty(e, "nm")?;
        let ma = get_text_or_empty(e, "ma")?;
        let sc = get_text(e, "sc")?;
        let dr = get_text_or_empty(e, "dr")?;
        let tr = get_text(e, "tr")?;
        let tc = get_text(e, "tc")?;
        let co = get_text(e, "co")?;
        let is = get_text(e, "is")?;
        let ci = get_text(e, "ci")?;
        Ok(TestRecord { tg, tt, nm, ma, sc, dr, tr, tc, co, is, ci })
    }
}

/// Reads the vaccinations under the key `v`.
fn vaccinations(entries: &Vec<(Cbor, Cbor)>) -> (r: Result<Vec<VaccineRecord>, FormatError>)
    ensures
        match r {
            Ok(out) => vaccinations_of(entries_view(entries@)) == Ok::<_, FormatError>(
                views(out@),
            ),
            Err(e) => e == FormatError::SchemaMismatch && vaccinations_of(entries_view(entries@))
                is Err,
        },
{
    let mut out: Vec<VaccineRecord> = Vec::new();
    if let Some(items) = get_list(entries, "v")? {
        let ghost iv = items_view(items@);
        let mut i: usize = 0;
        while i < items.len()
            invariant
                i <= items.len(),
                iv == items_view(items@),
                list(entries_view(entries@), "v"@) == Ok::<_, FormatError>(iv),
                out@.len() == i,
                forall|j: int| 0 <= j < i ==> vaccine_of(#[trigger] iv[j]) == Ok::<_, FormatError>(
                    out@[j]@,
                ),
            decreases items.len() - i,
        {
            match VaccineRecord::from_cbor(&items[i]) {
                Ok(rec) => out.push(rec),
                Err(e) => {
                    assert(vaccine_of(iv[i as int]) is Err);
                    return Err(e);
                },
            }
            i = i + 1;
        }
    }
    proof {
        let want = vaccinations_of(entries_view(entries@));
        assert(want is Ok);
        assert(want->Ok_0 =~= views(out@));
    }
    Ok(out)
}

/// Reads the recoveries under the key `r`.
fn recoveries(entries: &Vec<(Cbor, Cbor)>) -> (r: Result<Vec<RecoveryRecord>, FormatError>)
    ensures
        match r {
            Ok(out) => recoveries_of(entries_view(entries@)) == Ok::<_, FormatError>(
                views(out@),
            ),
            Err(e) => e == FormatError::SchemaMismatch && recoveries_of(entries_view(entries@))
                is Err,
        },
{
    let mut out: Vec<RecoveryRecord> = Vec::new();
    if let Some(items) = get_list(entries, "r")? {
        let ghost iv = items_view(items@);
        let mut i: usize = 0;
        while i < items.len()
            invariant
                i <= items.len(),
                iv == items_view(items@),
                list(entries_view(entries@), "r"@) == Ok::<_, FormatError>(iv),
                out@.len() == i,
                forall|j: int| 0 <= j < i ==> recovery_of(#[trigger] iv[j]) == Ok::<_, FormatError>(
                    out@[j]@,
                ),
            decreases items.len() - i,
        {
            match RecoveryRecord::from_cbor(&items[i]) {
                Ok(rec) => out.push(rec),
                Err(e) => {
                    assert(recovery_of(iv[i as int]) is Err);
                    return Err(e);
                },
            }
            i = i + 1;
        }
    }
    proof {
        let want = recoveries_of(entries_view(entries@));
        assert(want is Ok);
        assert(want->Ok_0 =~= views(out@));
    }
    Ok(out)
}

/// Reads the tests under the key `t`.
fn tests(entries: &Vec<(Cbor, Cbor)>) -> (r: Result<Vec<TestRecord>, FormatError>)
    ensures
        match r {
            Ok(out) => tests_of(entries_view(entries@)) == Ok::<_, FormatError>(
                views(out@),
            ),
            Err(e) => e == FormatError::SchemaMismatch && tests_of(entries_view(entries@))
                is Err,
        },
{
    let mut out: Vec<TestRecord> = Vec::new();
    if let Some(items) = get_list(entries, "t")? {
        let ghost iv = items_view(items@);
        let mut i: usize = 0;
        while i < items.len()
            invariant
                i <= items.len(),
                iv == items_view(items@),
                list(entries_view(entries@), "t"@) == Ok::<_, FormatError>(iv),
                out@.len() == i,
                forall|j: int| 0 <= j < i ==> test_of(#[trigger] iv[j]) == Ok::<_, FormatError>(
                    out@[j]@,
                ),
            decreases items.len() - i,
        {
            match TestRecord::from_cbor(&items[i]) {
                Ok(rec) => out.push(rec),
                Err(e) => {
                    assert(test_of(iv[i as int]) is Err);
                    return Err(e);
                },
            }
            i = i + 1;
        }
    }
    proof {
        let want = tests_of(entries_view(entries@));
        assert(want is Ok);
        assert(want->Ok_0 =~= views(out@));
    }
    Ok(out)
}

impl Certificate {
    /// Reads a certificate from a CBOR item. The result is
    /// [`certificate_of`] of the item.
    pub fn from_cbor(value: &Cbor) -> (r: Result<Certificate, FormatError>)
        ensures
            match r {
                Ok(cert) => certificate_of(value@) == Ok::<_, FormatError>(cert@),
                Err(e) => e == FormatError::SchemaMismatch && certificate_of(value@) is Err,
            },
    {
        let e = entries_of(value)?;
        let ver = get_text(e, "ver")?;
        let nam = Name::from_cbor(get(e, "nam")?)?;
        let dob = get_text(e, "dob")?;
        let v = vaccinations(e)?;
        let r = recoveries(e)?;
        let t = tests(e)?;
        Ok(Certificate { ver, nam, dob, v, r, t })
    }
}

} // verus!
