use vstd::prelude::*;
use crate::bignum::{decimal_value, BigNum};
use crate::error::InputError;
use crate::json::Json;

verus! {

/// How one named field of an input document is read.
#[derive(Clone, Copy, Debug, PartialEq, Eq, Structural)]
pub enum FieldParser {
    /// A decimal string, giving one integer.
    BigIntScalar,
    /// A non-negative integer number, giving one integer.
    U64Scalar,
    /// An array of decimal strings.
    BigIntArray,
    /// An array of non-negative integer numbers.
    U64Array,
    /// An array of arrays of decimal strings, flattened row by row.
    BigInt2DArray,
}

/// The integer a JSON value denotes as a decimal string.
pub open spec fn decimal_of(v: Json) -> Option<int> {
    match v {
        Json::Str(s) => decimal_value(s@),
        _ => None,
    }
}

/// The integer a JSON value denotes as a non-negative `u64` number.
pub open spec fn u64_of(v: Json) -> Option<int> {
    match v {
        Json::UInt(n) => Some(n as int),
        _ => None,
    }
}

pub open spec fn all_decimal(items: Seq<Json>) -> bool {
    forall|i: int| 0 <= i < items.len() ==> (#[trigger] decimal_of(items[i])) is Some
}

pub open spec fn decimal_values(items: Seq<Json>) -> Seq<int> {
    items.map_values(|v: Json| decimal_of(v)->0)
}

pub open spec fn all_u64(items: Seq<Json>) -> bool {
    forall|i: int| 0 <= i < items.len() ==> (#[trigger] u64_of(items[i])) is Some
}

pub open spec fn u64_values(items: Seq<Json>) -> Seq<int> {
    items.map_values(|v: Json| u64_of(v)->0)
}

/// Whether a row of a two-dimensional field is an array of decimal strings.
pub open spec fn decimal_row(v: Json) -> bool {
    match v {
        Json::Array(items) => all_decimal(items@),
        _ => false,
    }
}

/// The integers of a row of a two-dimensional field.
pub open spec fn row_values(v: Json) -> Seq<int> {
    match v {
        Json::Array(items) => decimal_values(items@),
        _ => Seq::empty(),
    }
}

/// The integers a field of the document yields under `parser`, or `None` where the
/// field is missing or malformed.
pub open spec fn field_value(doc: Json, key: Seq<char>, parser: FieldParser) -> Option<Seq<int>> {
    match doc.spec_get(key) {
        None => None,
        Some(v) => match parser {
            FieldParser::BigIntScalar => match decimal_of(v) {
                Some(x) => Some(seq![x]),
                None => None,
            },
            FieldParser::U64Scalar => match u64_of(v) {
                Some(x) => Some(seq![x]),
                None => None,
            },
            FieldParser::BigIntArray => match v {
                Json::Array(items) => if all_decimal(items@) {
                    Some(decimal_values(items@))
                } else {
                    None
                },
                _ => None,
            },
            FieldParser::U64Array => match v {
                Json::Array(items) => if all_u64(items@) {
                    Some(u64_values(items@))
                } else {
                    None
                },
                _ => None,
            },
            FieldParser::BigInt2DArray => match v {
                Json::Array(rows) => if forall|i: int|
                    0 <= i < rows@.len() ==> #[trigger] decimal_row(rows@[i]) {
                    Some(rows@.map_values(|r: Json| row_values(r)).flatten())
                } else {
                    None
                },
                _ => None,
            },
        },
    }
}

/// The integers held by a sequence of big numbers.
pub open spec fn nums_view(s: Seq<BigNum>) -> Seq<int> {
    s.map_values(|b: BigNum| b@)
}

pub open spec fn all_wf(s: Seq<BigNum>) -> bool {
    forall|i: int| 0 <= i < s.len() ==> (#[trigger] s[i]).wf()
}

/// Parse a single integer from a decimal string field.
fn parse_bigint_scalar(json: &Json, key: &str) -> (r: Result<BigNum, InputError>)
    ensures
        r is Ok <==> (json.spec_get(key@) matches Some(v) && decimal_of(v) is Some),
        r matches Ok(n) ==> n.wf() && n@ == decimal_of(json.spec_get(key@)->0)->0,
        r matches Err(e) ==> e == InputError::AssignmentMissing,
{
    match json.get(key) {
        Some(v) => match v.as_str() {
            Some(s) => match BigNum::parse(s) {
                Some(n) => Ok(n),
                None => Err(InputError::AssignmentMissing),
            },
            None => Err(InputError::AssignmentMissing),
        },
        None => Err(InputError::AssignmentMissing),
    }
}

/// Parse a single integer from a number field.
fn parse_u64_scalar(json: &Json, key: &str) -> (r: Result<BigNum, InputError>)
    ensures
        r is Ok <==> (json.spec_get(key@) matches Some(v) && u64_of(v) is Some),
        r matches Ok(n) ==> n.wf() && n@ == u64_of(json.spec_get(key@)->0)->0,
        r matches Err(e) ==> e == InputError::AssignmentMissing,
{
    match json.get(key) {
        Some(v) => match v.as_u64() {
            Some(n) => Ok(BigNum::from_u64(n)),
            None => Err(InputError::AssignmentMissing),
        },
        None => Err(InputError::AssignmentMissing),
    }
}

/// Parse the decimal strings of an array, appending them to `out`.
fn push_decimal_items(items: &Vec<Json>, out: &mut Vec<BigNum>) -> (ok: bool)
    requires
        all_wf(old(out)@),
    ensures
        ok == all_decimal(items@),
        all_wf(final(out)@),
        ok ==> nums_view(final(out)@) == nums_view(old(out)@) + decimal_values(items@),
{
    let ghost start = out@;
    let mut i: usize = 0;
    while i < items.len()
        invariant
            i <= items@.len(),
            all_wf(out@),
            all_decimal(items@.take(i as int)),
            nums_view(out@) == nums_view(start) + decimal_values(items@.take(i as int)),
        decreases items@.len() - i,
    {
        let parsed = match items[i].as_str() {
            Some(s) => BigNum::parse(s),
            None => None,
        };
        match parsed {
            Some(n) => {
                assert(n@ == decimal_of(items@[i as int])->0);
                let ghost before = out@;
                out.push(n);
                assert(nums_view(out@) =~= nums_view(before).push(n@));
                i = i + 1;
                assert(items@.take(i as int) =~= items@.take(i - 1).push(items@[i - 1]));
                assert(decimal_values(items@.take(i as int)) =~= decimal_values(items@.take(i - 1)).push(n@));
                assert(nums_view(out@) =~= nums_view(start) + decimal_values(items@.take(i as int)));
            },
            None => {
                assert(decimal_of(items@[i as int]) is None);
                return false;
            },
        }
    }
    assert(items@.take(i as int) =~= items@);
    true
}

/// Parse an array of decimal strings.
fn parse_bigint_string_array(json: &Json, key: &str) -> (r: Result<Vec<BigNum>, InputError>)
    ensures
        r is Ok <==> field_value(*json, key@, FieldParser::BigIntArray) is Some,
        r matches Ok(v) ==> all_wf(v@) && nums_view(v@) == field_value(*json, key@, FieldParser::BigIntArray)->0,
        r matches Err(e) ==> e == InputError::AssignmentMissing,
{
    let items = match json.get(key) {
        Some(v) => match v.as_array() {
            Some(items) => items,
            None => return Err(InputError::AssignmentMissing),
        },
        None => return Err(InputError::AssignmentMissing),
    };
    let mut out: Vec<BigNum> = Vec::new();
    if push_decimal_items(items, &mut out) {
        assert(nums_view(out@) =~= decimal_values(items@));
        Ok(out)
    } else {
        Err(InputError::AssignmentMissing)
    }
}

/// Parse an array of non-negative integer numbers.
fn parse_u64_array(json: &Json, key: &str) -> (r: Result<Vec<BigNum>, InputError>)
    ensures
        r is Ok <==> field_value(*json, key@, FieldParser::U64Array) is Some,
        r matches Ok(v) ==> all_wf(v@) && nums_view(v@) == field_value(*json, key@, FieldParser::U64Array)->0,
        r matches Err(e) ==> e == InputError::AssignmentMissing,
{
    let items = match json.get(key) {
        Some(v) => match v.as_array() {
            Some(items) => items,
            None => return Err(InputError::AssignmentMissing),
        },
        None => return Err(InputError::AssignmentMissing),
    };
    let mut out: Vec<BigNum> = Vec::new();
    let mut i: usize = 0;
    while i < items.len()
        invariant
            i <= items@.len(),
            json.spec_get(key@) == Some(Json::Array(*items)),
            all_wf(out@),
            all_u64(items@.take(i as int)),
            nums_view(out@) == u64_values(items@.take(i as int)),
        decreases items@.len() - i,
    {
        match items[i].as_u64() {
            Some(n) => {
                let b = BigNum::from_u64(n);
                let ghost before = out@;
                out.push(b);
                assert(nums_view(out@) =~= nums_view(before).push(b@));
                i = i + 1;
                assert(items@.take(i as int) =~= items@.take(i - 1).push(items@[i - 1]));
                assert(u64_values(items@.take(i as int)) =~= u64_values(items@.take(i - 1)).push(b@));
            },
            None => {
                assert(u64_of(items@[i as int]) is None);
                return Err(InputError::AssignmentMissing);
            },
        }
    }
    assert(items@.take(i as int) =~= items@);
    Ok(out)
}

/// Parse an array of arrays of decimal strings, flattened row by row.
fn parse_2d_bigint_array(json: &Json, key: &str) -> (r: Result<Vec<BigNum>, InputError>)
    ensures
        r is Ok <==> field_value(*json, key@, FieldParser::BigInt2DArray) is Some,
        r matches Ok(v) ==> all_wf(v@) && nums_view(v@) == field_value(*json, key@, FieldParser::BigInt2DArray)->0,
        r matches Err(e) ==> e == InputError::AssignmentMissing,
{
    let rows = match json.get(key) {
        Some(v) => match v.as_array() {
            Some(rows) => rows,
            None => return Err(InputError::AssignmentMissing),
        },
        None => return Err(InputError::AssignmentMissing),
    };
    let ghost all = rows@.map_values(|r: Json| row_values(r));
    let mut out: Vec<BigNum> = Vec::new();
    let mut i: usize = 0;
    while i < rows.len()
        invariant
            i <= rows@.len(),
            json.spec_get(key@) == Some(Json::Array(*rows)),
            all == rows@.map_values(|r: Json| row_values(r)),
            all_wf(out@),
            forall|k: int| 0 <= k < i ==> #[trigger] decimal_row(rows@[k]),
            nums_view(out@) == all.take(i as int).flatten_alt(),
        decreases rows@.len() - i,
    {
        let inner = match rows[i].as_array() {
            Some(inner) => inner,
            None => {
                assert(!decimal_row(rows@[i as int]));
                return Err(InputError::AssignmentMissing);
            },
        };
        let ghost before = out@;
        if !push_decimal_items(inner, &mut out) {
            assert(!decimal_row(rows@[i as int]));
            return Err(InputError::AssignmentMissing);
        }
        i = i + 1;
        assert(all.take(i as int) =~= all.take(i - 1).push(all[i - 1]));
        assert(all.take(i as int).drop_last() =~= all.take(i - 1));
        assert(all[i - 1] == decimal_values(inner@));
    }
    assert(all.take(i as int) =~= all);
    proof {
        all.lemma_flatten_and_flatten_alt_are_equivalent();
    }
    Ok(out)
}

/// Parse one field of the document under its parser.
fn parse_field(json: &Json, key: &str, parser: FieldParser) -> (r: Result<Vec<BigNum>, InputError>)
    ensures
        r is Ok <==> field_value(*json, key@, parser) is Some,
        r matches Ok(v) ==> all_wf(v@) && nums_view(v@) == field_value(*json, key@, parser)->0,
        r matches Err(e) ==> e == InputError::AssignmentMissing,
{
    match parser {
        FieldParser::BigIntScalar => {
            let n = parse_bigint_scalar(json, key)?;
            let mut v: Vec<BigNum> = Vec::new();
            v.push(n);
            assert(nums_view(v@) =~= field_value(*json, key@, parser)->0);
            Ok(v)
        },
        FieldParser::U64Scalar => {
            let n = parse_u64_scalar(json, key)?;
            let mut v: Vec<BigNum> = Vec::new();
            v.push(n);
            assert(nums_view(v@) =~= field_value(*json, key@, parser)->0);
            Ok(v)
        },
        FieldParser::BigIntArray => parse_bigint_string_array(json, key),
        FieldParser::U64Array => parse_u64_array(json, key),
        FieldParser::BigInt2DArray => parse_2d_bigint_array(json, key),
    }
}

/// Field definitions as names and parsers.
pub open spec fn defs_view(defs: Seq<(&str, FieldParser)>) -> Seq<(Seq<char>, FieldParser)> {
    defs.map_values(|d: (&str, FieldParser)| (d.0@, d.1))
}

/// Every field of `defs` is present and well formed in the document.
pub open spec fn inputs_present(doc: Json, defs: Seq<(Seq<char>, FieldParser)>) -> bool {
    forall|i: int| 0 <= i < defs.len() ==> (#[trigger] field_value(doc, defs[i].0, defs[i].1)) is Some
}

/// `m` holds, in the order of `defs`, each field's name and its integers.
pub open spec fn inputs_match(m: Seq<(String, Vec<BigNum>)>, doc: Json, defs: Seq<(Seq<char>, FieldParser)>) -> bool {
    &&& m.len() == defs.len()
    &&& forall|i: int| 0 <= i < m.len() ==> {
        &&& (#[trigger] m[i]).0@ == defs[i].0
        &&& all_wf(m[i].1@)
        &&& nums_view(m[i].1@) == field_value(doc, defs[i].0, defs[i].1)->0
    }
}

/// Reads the fields named in `field_defs` from the document, in order. A field that is
/// missing or malformed is refused with `AssignmentMissing`, never given a default.
pub fn parse_inputs(json: &Json, field_defs: &[(&str, FieldParser)]) -> (r: Result<Vec<(String, Vec<BigNum>)>, InputError>)
    ensures
        r is Ok <==> inputs_present(*json, defs_view(field_defs@)),
        r matches Ok(m) ==> inputs_match(m@, *json, defs_view(field_defs@)),
        r matches Err(e) ==> e == InputError::AssignmentMissing,
{
    let ghost defs = defs_view(field_defs@);
    let mut inputs: Vec<(String, Vec<BigNum>)> = Vec::new();
    let mut i: usize = 0;
    while i < field_defs.len()
        invariant
            i <= field_defs@.len(),
            defs == defs_view(field_defs@),
            inputs_present(*json, defs.take(i as int)),
            inputs_match(inputs@, *json, defs.take(i as int)),
        decreases field_defs@.len() - i,
    {
        let (field_name, parser) = field_defs[i];
        assert(defs[i as int] == (field_name@, parser));
        match parse_field(json, field_name, parser) {
            Ok(values) => {
                inputs.push((field_name.to_owned(), values));
                i = i + 1;
                assert(defs.take(i as int) =~= defs.take(i - 1).push(defs[i - 1]));
            },
            Err(e) => {
                assert(field_value(*json, defs[i as int].0, defs[i as int].1) is None);
                return Err(e);
            },
        }
    }
    assert(defs.take(i as int) =~= defs);
    Ok(inputs)
}

/// Fields of the JWT (Prepare) circuit's input document.
pub open spec fn jwt_fields() -> Seq<(Seq<char>, FieldParser)> {
    seq![
        ("sig_r"@, FieldParser::BigIntScalar),
        ("sig_s_inverse"@, FieldParser::BigIntScalar),
        ("pubKeyX"@, FieldParser::BigIntScalar),
        ("pubKeyY"@, FieldParser::BigIntScalar),
        ("messageLength"@, FieldParser::U64Scalar),
        ("periodIndex"@, FieldParser::U64Scalar),
        ("matchesCount"@, FieldParser::U64Scalar),
        ("message"@, FieldParser::BigIntArray),
        ("matchIndex"@, FieldParser::U64Array),
        ("matchLength"@, FieldParser::U64Array),
        ("claimLengths"@, FieldParser::BigIntArray),
        ("decodeFlags"@, FieldParser::U64Array),
        ("matchSubstring"@, FieldParser::BigInt2DArray),
        ("claims"@, FieldParser::BigInt2DArray),
    ]
}

/// Reads the inputs of the JWT (Prepare) circuit.
pub fn parse_jwt_inputs(json: &Json) -> (r: Result<Vec<(String, Vec<BigNum>)>, InputError>)
    ensures
        r is Ok <==> inputs_present(*json, jwt_fields()),
        r matches Ok(m) ==> inputs_match(m@, *json, jwt_fields()),
        r matches Err(e) ==> e == InputError::AssignmentMissing,
{
    let mut defs: Vec<(&str, FieldParser)> = Vec::new();
    defs.push(("sig_r", FieldParser::BigIntScalar));
    defs.push(("sig_s_inverse", FieldParser::BigIntScalar));
    defs.push(("pubKeyX", FieldParser::BigIntScalar));
    defs.push(("pubKeyY", FieldParser::BigIntScalar));
    defs.push(("messageLength", FieldParser::U64Scalar));
    defs.push(("periodIndex", FieldParser::U64Scalar));
    defs.push(("matchesCount", FieldParser::U64Scalar));
    defs.push(("message", FieldParser::BigIntArray));
    defs.push(("matchIndex", FieldParser::U64Array));
    defs.push(("matchLength", FieldParser::U64Array));
    defs.push(("claimLengths", FieldParser::BigIntArray));
    defs.push(("decodeFlags", FieldParser::U64Array));
    defs.push(("matchSubstring", FieldParser::BigInt2DArray));
    defs.push(("claims", FieldParser::BigInt2DArray));
    assert(defs_view(defs@) =~= jwt_fields());
    parse_inputs(json, defs.as_slice())
}

/// Fields of the Show circuit's input document.
pub open spec fn show_fields() -> Seq<(Seq<char>, FieldParser)> {
    seq![
        ("deviceKeyX"@, FieldParser::BigIntScalar),
        ("deviceKeyY"@, FieldParser::BigIntScalar),
        ("sig_r"@, FieldParser::BigIntScalar),
        ("sig_s_inverse"@, FieldParser::BigIntScalar),
        ("messageHash"@, FieldParser::BigIntScalar),
    ]
}

/// Reads the inputs of the Show circuit.
pub fn parse_show_inputs(json: &Json) -> (r: Result<Vec<(String, Vec<BigNum>)>, InputError>)
    ensures
        r is Ok <==> inputs_present(*json, show_fields()),
        r matches Ok(m) ==> inputs_match(m@, *json, show_fields()),
        r matches Err(e) ==> e == InputError::AssignmentMissing,
{
    let mut defs: Vec<(&str, FieldParser)> = Vec::new();
    defs.push(("deviceKeyX", FieldParser::BigIntScalar));
    defs.push(("deviceKeyY", FieldParser::BigIntScalar));
    defs.push(("sig_r", FieldParser::BigIntScalar));
    defs.push(("sig_s_inverse", FieldParser::BigIntScalar));
    defs.push(("messageHash", FieldParser::BigIntScalar));
    assert(defs_view(defs@) =~= show_fields());
    parse_inputs(json, defs.as_slice())
}

/// Fields of the stand-alone ECDSA circuit's input document.
pub open spec fn ecdsa_fields() -> Seq<(Seq<char>, FieldParser)> {
    seq![
        ("s_inverse"@, FieldParser::BigIntScalar),
        ("r"@, FieldParser::BigIntScalar),
        ("m"@, FieldParser::BigIntScalar),
        ("pubKeyX"@, FieldParser::BigIntScalar),
        ("pubKeyY"@, FieldParser::BigIntScalar),
    ]
}

/// Reads the inputs of the stand-alone ECDSA circuit.
pub fn parse_ecdsa_inputs(json: &Json) -> (r: Result<Vec<(String, Vec<BigNum>)>, InputError>)
    ensures
        r is Ok <==> inputs_present(*json, ecdsa_fields()),
        r matches Ok(m) ==> inputs_match(m@, *json, ecdsa_fields()),
        r matches Err(e) ==> e == InputError::AssignmentMissing,
{
    let mut defs: Vec<(&str, FieldParser)> = Vec::new();
    defs.push(("s_inverse", FieldParser::BigIntScalar));
    defs.push(("r", FieldParser::BigIntScalar));
    defs.push(("m", FieldParser::BigIntScalar));
    defs.push(("pubKeyX", FieldParser::BigIntScalar));
    defs.push(("pubKeyY", FieldParser::BigIntScalar));
    assert(defs_view(defs@) =~= ecdsa_fields());
    parse_inputs(json, defs.as_slice())
}

} // verus!
