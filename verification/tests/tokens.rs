use std::io::Write;

use ciborium::value::Value;
use eudcc::{decode, Certificate, Claim, FormatError, Name, RecoveryRecord, TestRecord, VaccineRecord};

fn text(s: &str) -> Value {
    Value::Text(s.to_string())
}

fn field(key: &str, value: &str) -> (Value, Value) {
    (text(key), text(value))
}

fn number(n: i64) -> Value {
    Value::Integer(n.into())
}

fn encoded(value: &Value) -> Vec<u8> {
    let mut out = Vec::new();
    ciborium::ser::into_writer(value, &mut out).unwrap();
    out
}

fn deflated(data: &[u8]) -> Vec<u8> {
    let mut encoder = flate2::write::ZlibEncoder::new(Vec::new(), flate2::Compression::default());
    encoder.write_all(data).unwrap();
    encoder.finish().unwrap()
}

fn token_of_bytes(sealed: &[u8]) -> String {
    format!("HC1:{}", base45::encode(deflated(sealed)))
}

fn sealed(tag: u64, parts: Vec<Value>) -> Value {
    Value::Tag(tag, Box::new(Value::Array(parts)))
}

fn envelope(payload: Vec<u8>) -> Value {
    sealed(
        18,
        vec![
            Value::Bytes(vec![0xa2, 0x01, 0x26, 0x04, 0x48, 1, 2, 3, 4, 5, 6, 7, 8]),
            Value::Map(vec![]),
            Value::Bytes(payload),
            Value::Bytes(vec![0x5a; 64]),
        ],
    )
}

fn token_of_claims(claims: &Value) -> String {
    token_of_bytes(&encoded(&envelope(encoded(claims))))
}

fn name_value() -> Value {
    Value::Map(vec![
        field("fn", "d'Ars\u{f8}ns - van Halen"),
        field("fnt", "DARSONS<VAN<HALEN"),
        field("gn", "Fran\u{e7}ois-Joan"),
        field("gnt", "FRANCOIS<JOAN"),
    ])
}

fn vaccine_value(dose: i64) -> Value {
    Value::Map(vec![
        field("tg", "840539006"),
        field("vp", "1119349007"),
        field("mp", "EU/1/20/1528"),
        field("ma", "ORG-100030215"),
        (text("dn"), number(dose)),
        (text("sd"), number(2)),
        field("dt", "2021-02-18"),
        field("co", "NL"),
        field("is", "Ministry of Health Welfare and Sport"),
        field("ci", "URN:UVCI:01:NL:PlA8UWS60Z4RZXVALl6GAZ#%"),
    ])
}

fn recovery_value() -> Value {
    Value::Map(vec![
        field("tg", "840539006"),
        field("fr", "2021-04-21"),
        field("co", "NL"),
        field("is", "Ministry of Health Welfare and Sport"),
        field("df", "2021-05-01"),
        field("du", "2021-10-21"),
        field("ci", "URN:UVCI:01:NL:LSP/REC/1289821"),
    ])
}

fn test_value() -> Value {
    Value::Map(vec![
        field("tg", "840539006"),
        field("tt", "LP217198-3"),
        field("ma", ""),
        field("sc", "2021-04-13T14:20:00+00:00"),
        field("tr", "260415000"),
        field("tc", "GGD Frysl\u{e2}n, L-Heliconweg"),
        field("co", "NL"),
        field("is", "Ministry of Health Welfare and Sport"),
        field("ci", "URN:UVCI:01:NL:GGD/81AAH16AZ"),
    ])
}

fn certificate_value() -> Value {
    Value::Map(vec![
        field("ver", "1.3.0"),
        (text("nam"), name_value()),
        field("dob", "2009-02-28"),
        (text("v"), Value::Array(vec![vaccine_value(1), vaccine_value(2)])),
        (text("r"), Value::Array(vec![recovery_value()])),
        (text("t"), Value::Array(vec![test_value()])),
    ])
}

fn vaccine(dose: i32) -> VaccineRecord {
    VaccineRecord {
        tg: "840539006".to_string(),
        vp: "1119349007".to_string(),
        mp: "EU/1/20/1528".to_string(),
        ma: "ORG-100030215".to_string(),
        dn: dose,
        sd: 2,
        dt: "2021-02-18".to_string(),
        co: "NL".to_string(),
        is: "Ministry of Health Welfare and Sport".to_string(),
        ci: "URN:UVCI:01:NL:PlA8UWS60Z4RZXVALl6GAZ#%".to_string(),
    }
}

fn certificate() -> Certificate {
    Certificate {
        ver: "1.3.0".to_string(),
        nam: Name {
            fn_: "d'Ars\u{f8}ns - van Halen".to_string(),
            fnt: "DARSONS<VAN<HALEN".to_string(),
            gn: "Fran\u{e7}ois-Joan".to_string(),
            gnt: "FRANCOIS<JOAN".to_string(),
        },
        dob: "2009-02-28".to_string(),
        v: vec![vaccine(1), vaccine(2)],
        r: vec![RecoveryRecord {
            tg: "840539006".to_string(),
            fr: "2021-04-21".to_string(),
            co: "NL".to_string(),
            is: "Ministry of Health Welfare and Sport".to_string(),
            df: "2021-05-01".to_string(),
            du: "2021-10-21".to_string(),
            ci: "URN:UVCI:01:NL:LSP/REC/1289821".to_string(),
        }],
        t: vec![TestRecord {
            tg: "840539006".to_string(),
            tt: "LP217198-3".to_string(),
            nm: String::new(),
            ma: String::new(),
            sc: "2021-04-13T14:20:00+00:00".to_string(),
            dr: String::new(),
            tr: "260415000".to_string(),
            tc: "GGD Frysl\u{e2}n, L-Heliconweg".to_string(),
            co: "NL".to_string(),
            is: "Ministry of Health Welfare and Sport".to_string(),
            ci: "URN:UVCI:01:NL:GGD/81AAH16AZ".to_string(),
        }],
    }
}

fn claims_with(hcert: Value) -> Value {
    Value::Map(vec![
        (number(4), number(1643356073)),
        (number(6), number(1622316073)),
        (number(1), text("NL")),
        (number(-260), hcert),
    ])
}

fn claims() -> Value {
    claims_with(Value::Map(vec![(number(1), certificate_value())]))
}

fn claims_without(key: i64) -> Value {
    match claims() {
        Value::Map(entries) => Value::Map(entries.into_iter().filter(|(k, _)| *k != number(key)).collect()),
        other => other,
    }
}

#[test]
fn token_made_of_a_certificate_decodes_to_it() {
    assert_eq!(decode(token_of_claims(&claims())), Ok(certificate()));
}

#[test]
fn token_decodes_whatever_its_headers_and_signature_are() {
    let payload = encoded(&claims());
    for parts in [
        vec![Value::Null, Value::Null, Value::Bytes(payload.clone()), Value::Null],
        vec![
            Value::Bytes(vec![]),
            Value::Map(vec![(number(4), Value::Bytes(vec![9; 8]))]),
            Value::Bytes(payload.clone()),
            Value::Bytes(vec![]),
        ],
        vec![text("x"), Value::Float(1.5), Value::Bytes(payload.clone()), Value::Bool(false)],
    ] {
        assert_eq!(decode(token_of_bytes(&encoded(&sealed(18, parts)))), Ok(certificate()));
    }
}

#[test]
fn token_with_trailing_white_space_decodes() {
    for tail in ["\n", "\r\n", " ", "   \t\n", "\u{a0}\u{2003}\u{3000}"] {
        let token = format!("{}{}", token_of_claims(&claims()), tail);
        assert_eq!(decode(token), Ok(certificate()), "{:?}", tail);
    }
}

#[test]
fn decoding_twice_gives_the_same() {
    let token = token_of_claims(&claims());
    let first = decode(token.clone());
    let second = decode(token);
    assert_eq!(first, second);
    assert_eq!(first, Ok(certificate()));
    let broken = "HC1:6BF%%%".to_string();
    assert_eq!(decode(broken.clone()), decode(broken));
}

#[test]
fn token_without_the_marker_is_rejected() {
    let token = token_of_claims(&claims());
    let body = token.strip_prefix("HC1:").unwrap();
    for text in [
        String::new(),
        body.to_string(),
        format!("HC1{}", body),
        format!("hc1:{}", body),
        format!("HC2:{}", body),
        format!(" {}", token),
        format!("\n{}", token),
        format!("{}HC1:", body),
        "HC1".to_string(),
        "not a certificate".to_string(),
    ] {
        assert_eq!(decode(text.clone()), Err(FormatError::MissingPrefix), "{:?}", text);
    }
}

#[test]
fn token_with_a_character_outside_the_alphabet_is_rejected() {
    let token = token_of_claims(&claims());
    for (at, c) in [(4, 'a'), (5, '_'), (10, '\n'), (20, '\u{e9}'), (token.len() - 1, '#'), (token.len() - 2, '=')] {
        let mut chars: Vec<char> = token.chars().collect();
        chars[at] = c;
        let text: String = chars.into_iter().collect();
        assert_eq!(decode(text), Err(FormatError::InvalidBase45), "{} {:?}", at, c);
    }
    assert_eq!(decode(format!("{}\n6BF", token)), Err(FormatError::InvalidBase45));
    assert_eq!(decode("HC1:abc".to_string()), Err(FormatError::InvalidBase45));
}

#[test]
fn token_with_one_symbol_left_over_is_rejected() {
    assert_eq!(decode("HC1:6".to_string()), Err(FormatError::InvalidBase45));
    assert_eq!(decode("HC1:6BFO".to_string()), Err(FormatError::InvalidBase45));
}

#[test]
fn token_with_a_group_out_of_range_is_rejected() {
    assert_eq!(decode("HC1::::".to_string()), Err(FormatError::InvalidBase45));
}

#[test]
fn token_that_is_all_marker_has_no_stream() {
    assert_eq!(decode("HC1:".to_string()), Err(FormatError::DecompressionFailed));
    assert_eq!(decode("HC1:\n".to_string()), Err(FormatError::DecompressionFailed));
}

#[test]
fn token_without_a_zlib_stream_is_rejected() {
    let raw = encoded(&envelope(encoded(&claims())));
    assert_eq!(decode(format!("HC1:{}", base45::encode(&raw))), Err(FormatError::DecompressionFailed));
    assert_eq!(decode("HC1:BB8".to_string()), Err(FormatError::DecompressionFailed));
}

#[test]
fn token_with_a_cut_zlib_stream_is_rejected() {
    let packed = deflated(&encoded(&envelope(encoded(&claims()))));
    for keep in [1, 2, 10, packed.len() / 2, packed.len() - 5, packed.len() - 1] {
        let token = format!("HC1:{}", base45::encode(&packed[..keep]));
        assert_eq!(decode(token), Err(FormatError::DecompressionFailed), "{}", keep);
    }
}

#[test]
fn token_with_a_corrupt_zlib_stream_is_rejected() {
    let mut packed = deflated(&encoded(&envelope(encoded(&claims()))));
    let last = packed.len() - 1;
    packed[last] ^= 0x55;
    assert_eq!(decode(format!("HC1:{}", base45::encode(&packed))), Err(FormatError::DecompressionFailed));
}

#[test]
fn token_that_holds_no_cbor_is_rejected() {
    assert_eq!(decode(token_of_bytes(&[])), Err(FormatError::CBORDecode));
    assert_eq!(decode(token_of_bytes(&[0xd2, 0x84, 0x40])), Err(FormatError::CBORDecode));
    assert_eq!(decode(token_of_bytes(&[0xff, 0xff])), Err(FormatError::CBORDecode));
}

#[test]
fn token_without_the_tag_18_is_rejected() {
    let parts =
        || vec![Value::Bytes(vec![]), Value::Map(vec![]), Value::Bytes(encoded(&claims())), Value::Bytes(vec![])];
    for item in [
        sealed(17, parts()),
        sealed(19, parts()),
        sealed(98, parts()),
        sealed(0, parts()),
        Value::Array(parts()),
        Value::Bytes(encoded(&claims())),
        claims(),
        Value::Null,
        number(18),
    ] {
        assert_eq!(decode(token_of_bytes(&encoded(&item))), Err(FormatError::NotCOSESign1));
    }
}

#[test]
fn token_whose_envelope_has_not_four_parts_is_rejected() {
    let payload = || Value::Bytes(encoded(&claims()));
    for count in [0usize, 1, 2, 3, 5] {
        let parts: Vec<Value> = (0..count).map(|_| payload()).collect();
        assert_eq!(
            decode(token_of_bytes(&encoded(&sealed(18, parts)))),
            Err(FormatError::NotCOSESign1),
            "{}",
            count
        );
    }
    let item = Value::Tag(18, Box::new(payload()));
    assert_eq!(decode(token_of_bytes(&encoded(&item))), Err(FormatError::NotCOSESign1));
}

#[test]
fn token_whose_payload_is_no_byte_string_is_rejected() {
    for payload in [claims(), Value::Null, text("x")] {
        let parts = vec![Value::Bytes(vec![]), Value::Map(vec![]), payload, Value::Bytes(vec![])];
        assert_eq!(decode(token_of_bytes(&encoded(&sealed(18, parts)))), Err(FormatError::NotCOSESign1));
    }
}

#[test]
fn token_whose_payload_holds_no_cbor_is_rejected() {
    for payload in [vec![], vec![0xa4, 0x01], vec![0xff]] {
        assert_eq!(decode(token_of_bytes(&encoded(&envelope(payload)))), Err(FormatError::CBORDecode));
    }
}

#[test]
fn token_that_lacks_a_claim_is_rejected_for_it() {
    for (key, claim) in [
        (1, Claim::Issuer),
        (6, Claim::IssuedAt),
        (4, Claim::ExpiresAt),
        (-260, Claim::HealthCertificate),
    ] {
        assert_eq!(decode(token_of_claims(&claims_without(key))), Err(FormatError::MissingClaim(claim)));
    }
    assert_eq!(
        decode(token_of_claims(&Value::Map(vec![]))),
        Err(FormatError::MissingClaim(Claim::Issuer))
    );
}

#[test]
fn token_that_repeats_a_claim_is_rejected_for_it() {
    for (key, value, claim) in [
        (1, text("XX"), Claim::Issuer),
        (6, number(0), Claim::IssuedAt),
        (4, number(0), Claim::ExpiresAt),
        (-260, Value::Map(vec![]), Claim::HealthCertificate),
    ] {
        let repeated = match claims() {
            Value::Map(mut entries) => {
                entries.push((number(key), value));
                Value::Map(entries)
            }
            other => other,
        };
        assert_eq!(decode(token_of_claims(&repeated)), Err(FormatError::DuplicateClaim(claim)));
    }
}

#[test]
fn token_with_claims_that_it_does_not_know_decodes() {
    let more = match claims() {
        Value::Map(mut entries) => {
            entries.insert(0, (number(2), text("subject")));
            entries.insert(2, (number(7), Value::Bytes(vec![1, 2, 3])));
            entries.push((text("note"), Value::Bool(true)));
            entries.push((number(-65537), Value::Null));
            Value::Map(entries)
        }
        other => other,
    };
    assert_eq!(decode(token_of_claims(&more)), Ok(certificate()));
}

fn tagged(tag: u64, value: Value) -> Value {
    Value::Tag(tag, Box::new(value))
}

#[test]
fn token_with_tagged_claims_decodes_as_without_the_tags() {
    let name = match name_value() {
        Value::Map(entries) => Value::Map(entries.into_iter().map(|(k, v)| (k, tagged(5, v))).collect()),
        other => other,
    };
    let cert = tagged(
        7,
        Value::Map(vec![
            field("ver", "1.3.0"),
            (tagged(8, text("nam")), tagged(9, name)),
            (text("dob"), tagged(1004, text("2009-02-28"))),
            (text("v"), tagged(10, Value::Array(vec![tagged(11, vaccine_value(1)), vaccine_value(2)]))),
            (text("r"), Value::Array(vec![recovery_value()])),
            (text("t"), Value::Array(vec![test_value()])),
        ]),
    );
    let claims = tagged(
        61,
        Value::Map(vec![
            (number(4), tagged(1, number(1643356073))),
            (tagged(12, number(6)), number(1622316073)),
            (number(1), tagged(13, text("NL"))),
            (number(-260), tagged(14, Value::Map(vec![(tagged(15, number(1)), cert)]))),
        ]),
    );
    assert_eq!(decode(token_of_claims(&claims)), Ok(certificate()));
}

#[test]
fn token_with_a_tagged_envelope_is_rejected() {
    let inner = envelope(encoded(&claims()));
    assert_eq!(decode(token_of_bytes(&encoded(&tagged(61, inner)))), Err(FormatError::NotCOSESign1));
    let parts = vec![Value::Bytes(vec![]), Value::Map(vec![]), Value::Bytes(encoded(&claims())), Value::Bytes(vec![])];
    let item = tagged(18, tagged(5, Value::Array(parts)));
    assert_eq!(decode(token_of_bytes(&encoded(&item))), Err(FormatError::NotCOSESign1));
    let parts = vec![
        Value::Bytes(vec![]),
        Value::Map(vec![]),
        tagged(24, Value::Bytes(encoded(&claims()))),
        Value::Bytes(vec![]),
    ];
    assert_eq!(decode(token_of_bytes(&encoded(&sealed(18, parts)))), Err(FormatError::NotCOSESign1));
}

#[test]
fn token_without_schema_version_1_is_unsupported() {
    for hcert in [
        Value::Map(vec![]),
        Value::Map(vec![(number(2), certificate_value())]),
        Value::Map(vec![(text("1"), certificate_value())]),
    ] {
        assert_eq!(decode(token_of_claims(&claims_with(hcert))), Err(FormatError::UnsupportedSchemaVersion));
    }
}

#[test]
fn token_with_another_schema_version_beside_1_decodes() {
    let hcert = Value::Map(vec![(number(2), Value::Null), (number(1), certificate_value())]);
    assert_eq!(decode(token_of_claims(&claims_with(hcert))), Ok(certificate()));
}

#[test]
fn token_whose_claims_are_of_the_wrong_kind_is_rejected() {
    for claims in [
        Value::Array(vec![]),
        text("x"),
        claims_with(Value::Array(vec![])),
        claims_with(Value::Map(vec![(number(1), Value::Null)])),
        claims_with(Value::Map(vec![(number(1), Value::Map(vec![field("ver", "1.3.0"), field("dob", "2009-02-28")]))])),
        Value::Map(vec![(number(1), number(5))]),
        Value::Map(vec![(number(4), number(-5))]),
        Value::Map(vec![(number(6), Value::Float(1622316073.0))]),
    ] {
        assert_eq!(decode(token_of_claims(&claims)), Err(FormatError::SchemaMismatch));
    }
}

#[test]
fn token_whose_certificate_lacks_a_field_is_rejected() {
    for key in ["ver", "nam", "dob"] {
        let cert = match certificate_value() {
            Value::Map(entries) => Value::Map(entries.into_iter().filter(|(k, _)| *k != text(key)).collect()),
            other => other,
        };
        let hcert = Value::Map(vec![(number(1), cert)]);
        assert_eq!(decode(token_of_claims(&claims_with(hcert))), Err(FormatError::SchemaMismatch), "{}", key);
    }
}

#[test]
fn token_whose_certificate_has_no_lists_decodes_to_empty_lists() {
    let cert = Value::Map(vec![field("ver", "1.3.0"), (text("nam"), name_value()), field("dob", "2009-02-28")]);
    let hcert = Value::Map(vec![(number(1), cert)]);
    let mut expected = certificate();
    expected.v = vec![];
    expected.r = vec![];
    expected.t = vec![];
    assert_eq!(decode(token_of_claims(&claims_with(hcert))), Ok(expected));
}
