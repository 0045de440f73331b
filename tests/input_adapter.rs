use ecdsa_spartan2::bignum::BigNum;
use ecdsa_spartan2::circuits::{prepare_shared_values, show_shared_values, JwtShape, JWT_MAX_CLAIMS_LENGTH, JWT_MAX_MATCHES};
use ecdsa_spartan2::error::InputError;
use ecdsa_spartan2::field::{bigint_to_scalar, convert_bigint_to_scalar, FieldElement};
use ecdsa_spartan2::inputs::{parse_ecdsa_inputs, parse_inputs, parse_jwt_inputs, parse_show_inputs, FieldParser};
use ecdsa_spartan2::json::Json;

const P256_MODULUS: &str =
    "115792089210356248762697446949407573530086143415290314195533631308867097853951";

fn s(text: &str) -> Json {
    Json::Str(text.to_string())
}

fn arr(items: Vec<Json>) -> Json {
    Json::Array(items)
}

fn obj(entries: Vec<(&str, Json)>) -> Json {
    Json::Object(entries.into_iter().map(|(k, v)| (k.to_string(), v)).collect())
}

fn values(v: &[BigNum]) -> Vec<(bool, Vec<u8>)> {
    v.iter().map(|b| (b.negative, b.magnitude.clone())).collect()
}

fn num(n: u64) -> (bool, Vec<u8>) {
    let b = BigNum::from_u64(n);
    (b.negative, b.magnitude)
}

fn le_bytes_of(fe: &FieldElement) -> Vec<u8> {
    fe.bytes.clone()
}

fn jwt_document() -> Json {
    obj(vec![
        ("sig_r", s("123")),
        ("sig_s_inverse", s("456")),
        ("pubKeyX", s("789")),
        ("pubKeyY", s("1011")),
        ("messageLength", Json::UInt(5)),
        ("periodIndex", Json::UInt(2)),
        ("matchesCount", Json::UInt(1)),
        ("message", arr(vec![s("1"), s("2"), s("3")])),
        ("matchIndex", arr(vec![Json::UInt(7)])),
        ("matchLength", arr(vec![Json::UInt(3)])),
        ("claimLengths", arr(vec![s("4")])),
        ("decodeFlags", arr(vec![Json::UInt(0), Json::UInt(1)])),
        ("matchSubstring", arr(vec![arr(vec![s("10"), s("11")]), arr(vec![s("12")])])),
        ("claims", arr(vec![arr(vec![s("20")]), arr(vec![]), arr(vec![s("21"), s("22")])])),
    ])
}

#[test]
fn bignum_parses_decimal_strings() {
    let n = BigNum::parse("258").unwrap();
    assert!(!n.negative);
    assert_eq!(n.magnitude, vec![2, 1]);
    let z = BigNum::parse("0").unwrap();
    assert_eq!(z.magnitude, vec![0]);
    let m = BigNum::parse("-5").unwrap();
    assert!(m.negative);
    assert_eq!(m.magnitude, vec![5]);
    assert!(BigNum::parse("12a").is_none());
    assert!(BigNum::parse("").is_none());
}

#[test]
fn bignum_from_u64_is_minimal() {
    assert_eq!(BigNum::from_u64(0).magnitude, vec![0]);
    assert_eq!(BigNum::from_u64(255).magnitude, vec![255]);
    assert_eq!(BigNum::from_u64(256).magnitude, vec![0, 1]);
    assert_eq!(BigNum::from_u64(u64::MAX).magnitude, vec![255; 8]);
}

#[test]
fn scalar_conversion_pads_little_endian() {
    let f = bigint_to_scalar(BigNum::parse("258").unwrap()).unwrap();
    let mut expected = vec![0u8; 32];
    expected[0] = 2;
    expected[1] = 1;
    assert_eq!(le_bytes_of(&f), expected);
}

#[test]
fn scalar_conversion_uses_the_magnitude() {
    let f = bigint_to_scalar(BigNum::parse("-7").unwrap()).unwrap();
    assert_eq!(f.bytes[0], 7);
    assert!(f.bytes[1..].iter().all(|b| *b == 0));
}

#[test]
fn oversized_value_is_unsatisfiable() {
    // 2^256 needs 33 bytes.
    let big = BigNum::parse(
        "115792089210356248762697446949407573529996955224135760342422259061068512044369",
    )
    .unwrap();
    assert!(big.magnitude.len() <= 32);
    let wide = BigNum::parse(
        "115792089210356248762697446949407573530086143415290314195533631308867097853952000",
    )
    .unwrap();
    assert!(wide.magnitude.len() > 32);
    assert_eq!(bigint_to_scalar(wide).err(), Some(InputError::Unsatisfiable));
}

#[test]
fn modulus_is_not_a_field_element() {
    let p = BigNum::parse(P256_MODULUS).unwrap();
    assert_eq!(p.magnitude.len(), 32);
    assert_eq!(bigint_to_scalar(p).err(), Some(InputError::Unsatisfiable));
    let below = BigNum::parse(
        "115792089210356248762697446949407573530086143415290314195533631308867097853950",
    )
    .unwrap();
    let f = bigint_to_scalar(below).unwrap();
    assert_eq!(f.bytes[0], 0xfe);
    assert_eq!(f.bytes[31], 0xff);
}

#[test]
fn witness_conversion_stops_at_first_oversized_value() {
    let ok = vec![BigNum::from_u64(1), BigNum::from_u64(2)];
    let fs = convert_bigint_to_scalar(ok).unwrap();
    assert_eq!(fs.len(), 2);
    assert_eq!(fs[1].bytes[0], 2);
    let bad = vec![BigNum::from_u64(1), BigNum::parse(P256_MODULUS).unwrap()];
    assert_eq!(convert_bigint_to_scalar(bad).err(), Some(InputError::Unsatisfiable));
    assert_eq!(convert_bigint_to_scalar(vec![]).unwrap().len(), 0);
}

#[test]
fn json_lookup_finds_members() {
    let doc = obj(vec![("a", Json::UInt(1)), ("b", s("x"))]);
    assert_eq!(doc.get("a").and_then(|v| v.as_u64()), Some(1));
    assert_eq!(doc.get("b").and_then(|v| v.as_str()), Some("x"));
    assert!(doc.get("c").is_none());
    assert!(Json::UInt(3).get("a").is_none());
}

#[test]
fn parse_inputs_reads_each_kind() {
    let doc = jwt_document();
    let defs: &[(&str, FieldParser)] = &[
        ("sig_r", FieldParser::BigIntScalar),
        ("periodIndex", FieldParser::U64Scalar),
        ("message", FieldParser::BigIntArray),
        ("decodeFlags", FieldParser::U64Array),
        ("claims", FieldParser::BigInt2DArray),
    ];
    let m = parse_inputs(&doc, defs).unwrap();
    assert_eq!(m.len(), 5);
    assert_eq!(m[0].0, "sig_r");
    assert_eq!(values(&m[0].1), vec![num(123)]);
    assert_eq!(values(&m[1].1), vec![num(2)]);
    assert_eq!(values(&m[2].1), vec![num(1), num(2), num(3)]);
    assert_eq!(values(&m[3].1), vec![num(0), num(1)]);
    assert_eq!(values(&m[4].1), vec![num(20), num(21), num(22)]);
}

#[test]
fn missing_field_is_assignment_missing() {
    let doc = obj(vec![("sig_r", s("1"))]);
    let defs: &[(&str, FieldParser)] = &[("sig_r", FieldParser::BigIntScalar), ("pubKeyX", FieldParser::BigIntScalar)];
    assert_eq!(parse_inputs(&doc, defs).err(), Some(InputError::AssignmentMissing));
}

#[test]
fn malformed_fields_are_assignment_missing() {
    let cases: Vec<(Json, FieldParser)> = vec![
        (Json::UInt(5), FieldParser::BigIntScalar),
        (s("not a number"), FieldParser::BigIntScalar),
        (s("5"), FieldParser::U64Scalar),
        (Json::OtherNumber, FieldParser::U64Scalar),
        (s("5"), FieldParser::BigIntArray),
        (arr(vec![Json::UInt(1)]), FieldParser::BigIntArray),
        (arr(vec![s("1")]), FieldParser::U64Array),
        (arr(vec![s("1")]), FieldParser::BigInt2DArray),
        (arr(vec![arr(vec![Json::UInt(1)])]), FieldParser::BigInt2DArray),
        (Json::Null, FieldParser::U64Array),
    ];
    for (value, parser) in cases {
        let doc = obj(vec![("f", value)]);
        let defs: &[(&str, FieldParser)] = &[("f", parser)];
        assert_eq!(parse_inputs(&doc, defs).err(), Some(InputError::AssignmentMissing));
    }
}

#[test]
fn jwt_inputs_cover_all_fields() {
    let m = parse_jwt_inputs(&jwt_document()).unwrap();
    let names: Vec<&str> = m.iter().map(|(n, _)| n.as_str()).collect();
    assert_eq!(
        names,
        vec![
            "sig_r", "sig_s_inverse", "pubKeyX", "pubKeyY", "messageLength", "periodIndex",
            "matchesCount", "message", "matchIndex", "matchLength", "claimLengths", "decodeFlags",
            "matchSubstring", "claims"
        ]
    );
    assert_eq!(values(&m[12].1), vec![num(10), num(11), num(12)]);
    assert_eq!(values(&m[3].1), vec![num(1011)]);
}

#[test]
fn jwt_scenario_signature_fields_parse_and_convert() {
    let m = parse_jwt_inputs(&jwt_document()).unwrap();
    for entry in m.iter().take(4) {
        let f = bigint_to_scalar(BigNum { negative: entry.1[0].negative, magnitude: entry.1[0].magnitude.clone() });
        assert!(f.is_ok());
    }
}

#[test]
fn jwt_inputs_refuse_a_missing_claim_array() {
    let mut doc = jwt_document();
    if let Json::Object(entries) = &mut doc {
        entries.retain(|(k, _)| k != "claims");
    }
    assert_eq!(parse_jwt_inputs(&doc).err(), Some(InputError::AssignmentMissing));
}

fn show_document(x: &str) -> Json {
    obj(vec![
        ("deviceKeyX", s(x)),
        ("deviceKeyY", s("66")),
        ("sig_r", s("1")),
        ("sig_s_inverse", s("2")),
        ("messageHash", s("3")),
    ])
}

#[test]
fn show_inputs_and_shared_values() {
    let m = parse_show_inputs(&show_document("65")).unwrap();
    assert_eq!(m.len(), 5);
    assert_eq!(m[4].0, "messageHash");
    let shared = show_shared_values(&show_document("65")).unwrap();
    assert_eq!(shared.len(), 2);
    assert_eq!(shared[0].bytes[0], 65);
    assert_eq!(shared[1].bytes[0], 66);
}

#[test]
fn show_shared_values_errors() {
    assert_eq!(
        show_shared_values(&show_document(P256_MODULUS)).err(),
        Some(InputError::Unsatisfiable)
    );
    assert_eq!(show_shared_values(&obj(vec![])).err(), Some(InputError::AssignmentMissing));
}

#[test]
fn ecdsa_inputs_in_order() {
    let doc = obj(vec![
        ("s_inverse", s("1")),
        ("r", s("2")),
        ("m", s("3")),
        ("pubKeyX", s("4")),
        ("pubKeyY", s("5")),
    ]);
    let m = parse_ecdsa_inputs(&doc).unwrap();
    let names: Vec<&str> = m.iter().map(|(n, _)| n.as_str()).collect();
    assert_eq!(names, vec!["s_inverse", "r", "m", "pubKeyX", "pubKeyY"]);
    assert_eq!(values(&m[2].1), vec![num(3)]);
}

#[test]
fn prepare_shared_values_read_the_keybinding_outputs() {
    let witness: Vec<FieldElement> = (0..10u64)
        .map(|i| bigint_to_scalar(BigNum::from_u64(100 + i)).unwrap())
        .collect();
    // Two matches of (4 * 3) / 4 = 3 bytes: KeyBindingX at 1 + 6 = 7.
    let shared = prepare_shared_values(&witness, &JwtShape::new(2, 4).unwrap()).unwrap();
    assert_eq!(shared.len(), 2);
    assert_eq!(shared[0].bytes[0], 107);
    assert_eq!(shared[1].bytes[0], 108);
    assert_eq!(prepare_shared_values(&witness, &JwtShape::new(3, 4).unwrap()).err(), Some(InputError::AssignmentMissing));
    assert_eq!(
        prepare_shared_values(&witness, &JwtShape::jwt_default()).err(),
        Some(InputError::AssignmentMissing)
    );
}

#[test]
fn jwt_shape_bounds() {
    let d = JwtShape::jwt_default();
    assert_eq!((d.max_matches, d.max_claims_length), (JWT_MAX_MATCHES, JWT_MAX_CLAIMS_LENGTH));
    assert_eq!(JwtShape::new(4, 128), Some(d));
    assert_eq!(JwtShape::new(1, usize::MAX), None);
    assert_eq!(JwtShape::new(usize::MAX, 8), None);
    assert!(JwtShape::new(usize::MAX, 1).is_some());
}

#[test]
fn show_and_prepare_share_the_same_key_binding() {
    // Witness of a circuit with 2 matches of 3 bytes: KeyBindingX at 7, KeyBindingY at 8.
    let witness: Vec<FieldElement> = (0..10u64)
        .map(|i| bigint_to_scalar(BigNum::from_u64(1000 + i)).unwrap())
        .collect();
    let prepared = prepare_shared_values(&witness, &JwtShape::new(2, 4).unwrap()).unwrap();
    let doc = obj(vec![
        ("deviceKeyX", s("1007")),
        ("deviceKeyY", s("1008")),
        ("sig_r", s("1")),
        ("sig_s_inverse", s("2")),
        ("messageHash", s("3")),
    ]);
    let shown = show_shared_values(&doc).unwrap();
    let bytes = |v: &[FieldElement]| v.iter().map(le_bytes_of).collect::<Vec<_>>();
    assert_eq!(bytes(&shown), bytes(&prepared));
}
