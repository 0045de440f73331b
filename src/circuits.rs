use vstd::prelude::*;
use vstd::string::StringSliceAdditionalSpecFns;
use crate::error::InputError;
use crate::field::{bigint_to_scalar, field_modulus, FieldElement};
use crate::inputs::{parse_show_inputs, inputs_present, show_fields, field_value, nums_view, FieldParser};
use crate::json::Json;

verus! {

/// The Prepare circuit (a JWT credential binding a device key), reading its input
/// document from `input` when given, else from the default location, and compiled
/// with the bounds `shape`.
pub struct PrepareCircuit {
    pub input: Option<String>,
    pub shape: JwtShape,
}

/// Bounds the JWT circuit was compiled with, which fix where its outputs lie in the
/// witness.
#[derive(Clone, Copy, Debug, PartialEq, Eq, Structural)]
pub struct JwtShape {
    pub max_matches: usize,
    pub max_claims_length: usize,
}

impl JwtShape {
    /// The output positions of a circuit of this shape fit in `usize`.
    pub open spec fn wf(&self) -> bool {
        &&& self.max_claims_length * 3 <= usize::MAX
        &&& self.max_matches * ((self.max_claims_length * 3) / 4) + 2 <= usize::MAX
    }

    /// A shape with these bounds, where its output positions fit in `usize`.
    pub fn new(max_matches: usize, max_claims_length: usize) -> (r: Option<JwtShape>)
        ensures
            r is Some <==> (JwtShape { max_matches, max_claims_length }).wf(),
            r matches Some(s) ==> s == (JwtShape { max_matches, max_claims_length }),
    {
        let tripled = match max_claims_length.checked_mul(3) {
            Some(t) => t,
            None => return None,
        };
        let decoded = tripled / 4;
        match max_matches.checked_mul(decoded) {
            Some(size) => if size <= usize::MAX - 2 {
                Some(JwtShape { max_matches, max_claims_length })
            } else {
                None
            },
            None => None,
        }
    }

    /// The bounds of the JWT circuit as built for the Prepare phase.
    pub fn jwt_default() -> (r: JwtShape)
        ensures
            r.max_matches == JWT_MAX_MATCHES,
            r.max_claims_length == JWT_MAX_CLAIMS_LENGTH,
            r.wf(),
    {
        JwtShape { max_matches: JWT_MAX_MATCHES, max_claims_length: JWT_MAX_CLAIMS_LENGTH }
    }
}

/// The Show circuit (a presentation signed by the bound device key).
pub struct ShowCircuit {
    pub input: Option<String>,
}

/// The stand-alone ECDSA signature circuit, used for benchmarking.
pub struct ECDSACircuit;

/// The stand-alone JWT circuit, used for benchmarking.
pub struct JWTCircuit;

impl PrepareCircuit {
    /// The Prepare circuit with the default JWT bounds.
    pub fn new(input: Option<String>) -> (r: PrepareCircuit)
        ensures
            r.input == input,
            r.shape.max_matches == JWT_MAX_MATCHES,
            r.shape.max_claims_length == JWT_MAX_CLAIMS_LENGTH,
            r.shape.wf(),
    {
        PrepareCircuit { input, shape: JwtShape::jwt_default() }
    }

    /// The Prepare circuit compiled with other bounds.
    pub fn with_shape(input: Option<String>, shape: JwtShape) -> (r: PrepareCircuit)
        ensures
            r.input == input,
            r.shape == shape,
    {
        PrepareCircuit { input, shape }
    }
}

impl ShowCircuit {
    pub fn new(input: Option<String>) -> (r: ShowCircuit)
        ensures
            r.input == input,
    {
        ShowCircuit { input }
    }
}

/// Points the Prepare circuit at another input document, or back at the default one.
pub fn set_prepare_input_path(circuit: &mut PrepareCircuit, path: Option<String>)
    ensures
        final(circuit).input == path,
{
    circuit.input = path;
}

/// Whether `needle` occurs in `hay` at position `at`.
pub open spec fn occurs_at(hay: Seq<u8>, needle: Seq<u8>, at: int) -> bool {
    0 <= at && at + needle.len() <= hay.len() && hay.subrange(at, at + needle.len()) == needle
}

/// Name that the proving backend gives to its shape-only constraint system.
pub open spec fn shape_marker() -> Seq<u8> {
    "ShapeCS"@.map_values(|c: char| c as u8)
}

/// Whether a constraint system, known by its type name, is the backend's shape-only
/// system (used during setup, where no witness is needed).
pub fn is_shape_only(system_name: &str) -> (r: bool)
    ensures
        r == exists|at: int| occurs_at(system_name.spec_bytes(), shape_marker(), at),
{
    let hay = system_name.as_bytes();
    let mut needle: Vec<u8> = Vec::new();
    needle.push(83u8);
    needle.push(104u8);
    needle.push(97u8);
    needle.push(112u8);
    needle.push(101u8);
    needle.push(67u8);
    needle.push(83u8);
    proof {
        reveal_strlit("ShapeCS");
        assert(needle@ =~= shape_marker());
    }
    if hay.len() < needle.len() {
        return false;
    }
    let size = hay.len();
    let last = size - needle.len();
    let mut at: usize = 0;
    while at <= last
        invariant
            hay@ == system_name.spec_bytes(),
            size == hay@.len(),
            needle@ == shape_marker(),
            last == hay@.len() - needle@.len(),
            forall|k: int| 0 <= k < at ==> !occurs_at(hay@, needle@, k),
        decreases last + 1 - at,
    {
        let mut j: usize = 0;
        while j < needle.len() && hay[at + j] == needle[j]
            invariant
                at <= last,
                size == hay@.len(),
                hay@.len() >= needle@.len(),
                last == hay@.len() - needle@.len(),
                j <= needle@.len(),
                hay@.subrange(at as int, at + j) == needle@.subrange(0, j as int),
            decreases needle@.len() - j,
        {
            j = j + 1;
            assert(hay@.subrange(at as int, at + j) =~= hay@.subrange(at as int, at + j - 1).push(hay@[at + j - 1]));
            assert(needle@.subrange(0, j as int) =~= needle@.subrange(0, j - 1).push(needle@[j - 1]));
        }
        if j == needle.len() {
            assert(needle@.subrange(0, j as int) =~= needle@);
            assert(occurs_at(hay@, needle@, at as int));
            return true;
        }
        assert(hay@.subrange(at as int, at + needle@.len())[j as int] != needle@[j as int]);
        at = at + 1;
    }
    false
}

/// Magnitude of the integer that a scalar field of the document holds.
pub open spec fn scalar_field_abs(doc: Json, key: Seq<char>) -> int {
    let v = field_value(doc, key, FieldParser::BigIntScalar)->0[0];
    if v < 0 { -v } else { v }
}

/// The numbers the Show circuit commits under the shared commitment, where its document
/// is complete and both device key coordinates lie in the field.
pub open spec fn show_shared_spec(doc: Json) -> Option<Seq<nat>> {
    let x = scalar_field_abs(doc, "deviceKeyX"@);
    let y = scalar_field_abs(doc, "deviceKeyY"@);
    if inputs_present(doc, show_fields()) && x < field_modulus() && y < field_modulus() {
        Some(seq![x as nat, y as nat])
    } else {
        None
    }
}

/// The numbers of a sequence of field elements.
pub open spec fn field_values(v: Seq<FieldElement>) -> Seq<nat> {
    v.map_values(|f: FieldElement| f@)
}

/// The values that the Show circuit commits under the shared commitment: the device
/// key coordinates `deviceKeyX` and `deviceKeyY`, as field elements. A malformed
/// document is refused with `AssignmentMissing`; a coordinate outside the field with
/// `Unsatisfiable`.
pub fn show_shared_values(json: &Json) -> (r: Result<Vec<FieldElement>, InputError>)
    ensures
        r is Ok <==> inputs_present(*json, show_fields())
            && scalar_field_abs(*json, "deviceKeyX"@) < field_modulus()
            && scalar_field_abs(*json, "deviceKeyY"@) < field_modulus(),
        r matches Ok(v) ==> v@.len() == 2 && v@[0].wf() && v@[1].wf()
            && v@[0]@ == scalar_field_abs(*json, "deviceKeyX"@)
            && v@[1]@ == scalar_field_abs(*json, "deviceKeyY"@),
        r matches Err(e) ==> (e == InputError::AssignmentMissing <==> !inputs_present(*json, show_fields())),
        r matches Ok(v) ==> show_shared_spec(*json) == Some(field_values(v@)),
{
    let mut inputs = parse_show_inputs(json)?;
    assert(show_fields()[0].0 == "deviceKeyX"@ && show_fields()[1].0 == "deviceKeyY"@);
    assert(show_fields()[0].1 == FieldParser::BigIntScalar && show_fields()[1].1 == FieldParser::BigIntScalar);
    let ghost m = inputs@;
    assert(nums_view(m[0].1@) == field_value(*json, show_fields()[0].0, show_fields()[0].1)->0);
    assert(nums_view(m[1].1@) == field_value(*json, show_fields()[1].0, show_fields()[1].1)->0);
    assert(inputs_present(*json, show_fields()));
    assert(field_value(*json, show_fields()[0].0, show_fields()[0].1) is Some);
    assert(field_value(*json, show_fields()[1].0, show_fields()[1].1) is Some);
    assert(field_value(*json, show_fields()[0].0, show_fields()[0].1)->0.len() == 1);
    assert(field_value(*json, show_fields()[1].0, show_fields()[1].1)->0.len() == 1);
    assert(nums_view(m[0].1@).len() == m[0].1@.len());
    assert(nums_view(m[1].1@).len() == m[1].1@.len());
    assert(m[0].1@.len() == 1 && m[1].1@.len() == 1);
    let (_, mut ys) = inputs.remove(1);
    let (_, mut xs) = inputs.remove(0);
    let x = xs.remove(0);
    let y = ys.remove(0);
    let fx = bigint_to_scalar(x)?;
    let fy = bigint_to_scalar(y)?;
    let mut out: Vec<FieldElement> = Vec::new();
    out.push(fx);
    out.push(fy);
    assert(field_values(out@) =~= show_shared_spec(*json)->0);
    Ok(out)
}

/// Output-signal indices of the key-binding coordinates in the JWT circuit's witness.
/// The decoded messages (`max_matches` rows of `max_claims_length * 3 / 4` bytes)
/// start at index 1, after the constant one; `KeyBindingX` and `KeyBindingY` follow.
pub fn calculate_jwt_output_indices(max_matches: usize, max_claims_length: usize) -> (r: (usize, usize))
    requires
        max_claims_length * 3 <= usize::MAX,
        max_matches * ((max_claims_length * 3) / 4) + 2 <= usize::MAX,
    ensures
        r.0 == 1 + max_matches * ((max_claims_length * 3) / 4),
        r.1 == r.0 + 1,
{
    let decoded_len = (max_claims_length * 3) / 4;
    let messages_size = max_matches * decoded_len;
    let keybinding_x_index = 1 + messages_size;
    let keybinding_y_index = keybinding_x_index + 1;
    (keybinding_x_index, keybinding_y_index)
}

/// Default bound on matches of the JWT circuit.
pub const JWT_MAX_MATCHES: usize = 4;

/// Default bound on claim length of the JWT circuit.
pub const JWT_MAX_CLAIMS_LENGTH: usize = 128;

/// The numbers the Prepare circuit commits under the shared commitment, where the
/// witness holds the key-binding outputs of a circuit of this shape.
pub open spec fn prepare_shared_spec(witness: Seq<FieldElement>, shape: JwtShape) -> Option<Seq<nat>> {
    let k = keybinding_index(shape.max_matches as int, shape.max_claims_length as int);
    if k + 1 < witness.len() {
        Some(seq![witness[k]@, witness[k + 1]@])
    } else {
        None
    }
}

/// Index of `KeyBindingX` among the JWT circuit's witness values.
pub open spec fn keybinding_index(max_matches: int, max_claims_length: int) -> int {
    1 + max_matches * ((max_claims_length * 3) / 4)
}

fn copy_bytes(v: &Vec<u8>) -> (r: Vec<u8>)
    ensures
        r@ == v@,
{
    let mut out: Vec<u8> = Vec::new();
    let mut i: usize = 0;
    while i < v.len()
        invariant
            i <= v@.len(),
            out@ == v@.subrange(0, i as int),
        decreases v@.len() - i,
    {
        out.push(v[i]);
        i = i + 1;
        assert(out@ =~= v@.subrange(0, i as int));
    }
    assert(out@ =~= v@);
    out
}

/// The values that the Prepare circuit commits under the shared commitment: the
/// key-binding coordinates `KeyBindingX` and `KeyBindingY`, read from the JWT
/// circuit's witness at their output positions. A witness too short to hold them
/// is refused with `AssignmentMissing`.
pub fn prepare_shared_values(witness: &Vec<FieldElement>, shape: &JwtShape)
    -> (r: Result<Vec<FieldElement>, InputError>)
    requires
        shape.wf(),
    ensures
        r is Ok <==> keybinding_index(shape.max_matches as int, shape.max_claims_length as int) + 1 < witness@.len(),
        r matches Ok(v) ==> v@.len() == 2
            && v@[0].bytes@ == witness@[keybinding_index(shape.max_matches as int, shape.max_claims_length as int)].bytes@
            && v@[1].bytes@ == witness@[keybinding_index(shape.max_matches as int, shape.max_claims_length as int) + 1].bytes@,
        r matches Err(e) ==> e == InputError::AssignmentMissing,
        r matches Ok(v) ==> prepare_shared_spec(witness@, *shape) == Some(field_values(v@)),
{
    let (x, y) = calculate_jwt_output_indices(shape.max_matches, shape.max_claims_length);
    if y >= witness.len() {
        return Err(InputError::AssignmentMissing);
    }
    let mut out: Vec<FieldElement> = Vec::new();
    out.push(FieldElement { bytes: copy_bytes(&witness[x].bytes) });
    out.push(FieldElement { bytes: copy_bytes(&witness[y].bytes) });
    assert(field_values(out@) =~= prepare_shared_spec(witness@, *shape)->0);
    Ok(out)
}

/// Cross-phase binding, on the library's side: when the Show document's device key is
/// the key bound in the Prepare witness, both circuits hand the backend the same shared
/// values, in the same order. Committed with one vector of shared blinds, they give the
/// same shared commitment; that last step is the backend's.
pub proof fn lemma_shared_values_agree(doc: Json, witness: Seq<FieldElement>, shape: JwtShape)
    requires
        shape.wf(),
        inputs_present(doc, show_fields()),
        keybinding_index(shape.max_matches as int, shape.max_claims_length as int) + 1 < witness.len(),
        witness[keybinding_index(shape.max_matches as int, shape.max_claims_length as int)].wf(),
        witness[keybinding_index(shape.max_matches as int, shape.max_claims_length as int) + 1].wf(),
        scalar_field_abs(doc, "deviceKeyX"@) == witness[keybinding_index(shape.max_matches as int, shape.max_claims_length as int)]@,
        scalar_field_abs(doc, "deviceKeyY"@) == witness[keybinding_index(shape.max_matches as int, shape.max_claims_length as int) + 1]@,
    ensures
        show_shared_spec(doc) is Some,
        show_shared_spec(doc) == prepare_shared_spec(witness, shape),
{
}

} // verus!
