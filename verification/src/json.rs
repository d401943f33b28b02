//! The JSON codec: converts between JSON values and interface values
//! against a function signature. JSON numbers are carried exactly: integers
//! as signed or unsigned 64-bit values, other numbers as 64-bit float bit
//! patterns that only a 64-bit float interface type accepts.
use vstd::prelude::*;

use crate::errors::EngineError;
use crate::itype::{
    FunctionArg, FunctionSignature, IType, IValue, IValueModel, RecordRegistry, RecordType,
    ivalue_model,
    ivalues_model, lemma_ivalues_model, check_value_type, value_has_itype, itype_refs_below,
    lemma_itype_refs_below_mono,
};

verus! {

/// One member of a JSON object.
#[derive(Debug)]
pub struct JsonMember {
    pub name: String,
    pub value: JsonValue,
}

/// A JSON value. Objects keep their members in order.
#[derive(Debug)]
pub enum JsonValue {
    Null,
    Bool(bool),
    Int(i64),
    UInt(u64),
    Float(u64),
    Text(String),
    Array(Vec<JsonValue>),
    Object(Vec<JsonMember>),
}



/// Whether the JSON value `el` is an integer literal equal to the byte `b`.
pub open spec fn json_byte(el: JsonValue, b: u8) -> bool {
    ||| el == JsonValue::Int(b as i64)
    ||| el == JsonValue::UInt(b as u64)
}

/// Whether the member at `idx` is the first one named `name`.
pub open spec fn is_first_member(ms: Seq<JsonMember>, name: Seq<char>, idx: int) -> bool {
    &&& 0 <= idx < ms.len()
    &&& ms[idx].name@ == name
    &&& forall|m: int| 0 <= m < idx ==> (#[trigger] ms[m]).name@ != name
}

/// At most one member is the first one bearing a name.
pub proof fn lemma_first_member_unique(ms: Seq<JsonMember>, name: Seq<char>, a: int, b: int)
    requires
        is_first_member(ms, name, a),
        is_first_member(ms, name, b),
    ensures
        a == b,
{
    if a < b {
        assert(ms[a].name@ == name);
    }
    if b < a {
        assert(ms[b].name@ == name);
    }
}

/// Whether `vm` is exactly the decoding of the JSON value `j` at interface
/// type `t`: numeric literals within the target width, strings verbatim,
/// arrays of integer literals as byte arrays, objects matched to record
/// fields by name (first member wins), arrays elementwise.
pub open spec fn json_decodes(
    j: JsonValue,
    t: IType,
    recs: Seq<RecordType>,
    vm: IValueModel,
) -> bool
    decreases vm, 0int,
{
    match t {
        IType::S8 => (j matches JsonValue::Int(x) && -128 <= x <= 127 && vm == IValueModel::S8(
            x as i8,
        )) || (j matches JsonValue::UInt(x) && x <= 127 && vm == IValueModel::S8(x as i8)),
        IType::S16 => (j matches JsonValue::Int(x) && -0x8000 <= x <= 0x7fff && vm
            == IValueModel::S16(x as i16)) || (j matches JsonValue::UInt(x) && x <= 0x7fff && vm
            == IValueModel::S16(x as i16)),
        IType::S32 => (j matches JsonValue::Int(x) && -0x8000_0000 <= x <= 0x7fff_ffff && vm
            == IValueModel::S32(x as i32)) || (j matches JsonValue::UInt(x) && x <= 0x7fff_ffff
            && vm == IValueModel::S32(x as i32)),
        IType::S64 => (j matches JsonValue::Int(x) && vm == IValueModel::S64(x)) || (
        j matches JsonValue::UInt(x) && x <= 0x7fff_ffff_ffff_ffff && vm == IValueModel::S64(
            x as i64,
        )),
        IType::U8 => (j matches JsonValue::Int(x) && 0 <= x <= 255 && vm == IValueModel::U8(
            x as u8,
        )) || (j matches JsonValue::UInt(x) && x <= 255 && vm == IValueModel::U8(x as u8)),
        IType::U16 => (j matches JsonValue::Int(x) && 0 <= x <= 0xffff && vm == IValueModel::U16(
            x as u16,
        )) || (j matches JsonValue::UInt(x) && x <= 0xffff && vm == IValueModel::U16(x as u16)),
        IType::U32 => (j matches JsonValue::Int(x) && 0 <= x <= 0xffff_ffff && vm
            == IValueModel::U32(x as u32)) || (j matches JsonValue::UInt(x) && x <= 0xffff_ffff
            && vm == IValueModel::U32(x as u32)),
        IType::U64 => (j matches JsonValue::Int(x) && x >= 0 && vm == IValueModel::U64(x as u64))
            || (j matches JsonValue::UInt(x) && vm == IValueModel::U64(x)),
        IType::F32 => false,
        IType::F64 => j matches JsonValue::Float(bits) && vm == IValueModel::F64Bits(bits),
        IType::Utf8String => j matches JsonValue::Text(s) && vm == IValueModel::Utf8String(s@),
        IType::ByteArray => j matches JsonValue::Array(elems) && (
        vm matches IValueModel::ByteArray(bs) && bs.len() == elems@.len() && forall|i: int|
            0 <= i < bs.len() ==> json_byte(#[trigger] elems@[i], bs[i])),
        IType::Record(id) => vm matches IValueModel::Record(id2, vals) && id2 == id && 1 <= id
            <= recs.len() && (j matches JsonValue::Object(ms) && ms@.len()
            == recs[id - 1].fields@.len() && json_decodes_fields(
            ms@,
            recs[id - 1].fields.deep_view(),
            recs,
            vals,
        )),
        IType::Array(inner) => j matches JsonValue::Array(elems) && (
        vm matches IValueModel::Array(vals) && json_decodes_elems(elems@, *inner, recs, vals)),
    }
}

/// Whether `vm` is decoded, at field type `fty`, from the first object
/// member named `fname`.
pub open spec fn member_decodes(
    ms: Seq<JsonMember>,
    fname: Seq<char>,
    fty: IType,
    recs: Seq<RecordType>,
    vm: IValueModel,
) -> bool
    decreases vm, 1int,
{
    exists|mi: int|
        is_first_member(ms, fname, mi) && json_decodes(#[trigger] ms[mi].value, fty, recs, vm)
}

/// Whether `vals` decodes the record fields from the object members, field
/// by field, each from the first member bearing the field's name.
pub open spec fn json_decodes_fields(
    ms: Seq<JsonMember>,
    fields: Seq<(Seq<char>, IType)>,
    recs: Seq<RecordType>,
    vals: Seq<IValueModel>,
) -> bool
    decreases vals, 2int,
{
    if vals.len() != fields.len() {
        false
    } else if vals.len() == 0 {
        true
    } else {
        member_decodes(ms, fields[0].0, fields[0].1, recs, vals[0]) && json_decodes_fields(
            ms,
            fields.drop_first(),
            recs,
            vals.drop_first(),
        )
    }
}

/// Whether `vals` decodes the array elements, elementwise.
pub open spec fn json_decodes_elems(
    elems: Seq<JsonValue>,
    t: IType,
    recs: Seq<RecordType>,
    vals: Seq<IValueModel>,
) -> bool
    decreases vals, 2int,
{
    if vals.len() != elems.len() {
        false
    } else if vals.len() == 0 {
        true
    } else {
        json_decodes(elems[0], t, recs, vals[0]) && json_decodes_elems(
            elems.drop_first(),
            t,
            recs,
            vals.drop_first(),
        )
    }
}

/// `json_decodes_fields` is the fieldwise decoding of a record's values.
pub proof fn lemma_json_decodes_fields(
    ms: Seq<JsonMember>,
    fields: Seq<(Seq<char>, IType)>,
    recs: Seq<RecordType>,
    vals: Seq<IValueModel>,
)
    ensures
        json_decodes_fields(ms, fields, recs, vals) <==> (vals.len() == fields.len() && forall|
            k: int,
        |
            0 <= k < vals.len() ==> #[trigger] member_decodes(
                ms,
                fields[k].0,
                fields[k].1,
                recs,
                vals[k],
            )),
    decreases vals.len(),
{
    if vals.len() == fields.len() && vals.len() > 0 {
        lemma_json_decodes_fields(ms, fields.drop_first(), recs, vals.drop_first());
        let tf = fields.drop_first();
        let tv = vals.drop_first();
        assert(json_decodes_fields(ms, fields, recs, vals) == (member_decodes(
            ms,
            fields[0].0,
            fields[0].1,
            recs,
            vals[0],
        ) && json_decodes_fields(ms, tf, recs, tv)));
        if json_decodes_fields(ms, fields, recs, vals) {
            assert forall|k: int| 0 <= k < vals.len() implies #[trigger] member_decodes(
                ms,
                fields[k].0,
                fields[k].1,
                recs,
                vals[k],
            ) by {
                if k > 0 {
                    assert(tf[k - 1] == fields[k] && tv[k - 1] == vals[k]);
                    assert(member_decodes(ms, tf[k - 1].0, tf[k - 1].1, recs, tv[k - 1]));
                }
            }
        }
        if vals.len() == fields.len() && (forall|k: int|
            0 <= k < vals.len() ==> #[trigger] member_decodes(
                ms,
                fields[k].0,
                fields[k].1,
                recs,
                vals[k],
            )) {
            assert forall|k: int| 0 <= k < tv.len() implies #[trigger] member_decodes(
                ms,
                tf[k].0,
                tf[k].1,
                recs,
                tv[k],
            ) by {
                assert(tf[k] == fields[k + 1] && tv[k] == vals[k + 1]);
                assert(member_decodes(ms, fields[k + 1].0, fields[k + 1].1, recs, vals[k + 1]));
            }
        }
    }
}

/// `json_decodes_elems` is the elementwise decoding of an array's values.
pub proof fn lemma_json_decodes_elems(
    elems: Seq<JsonValue>,
    t: IType,
    recs: Seq<RecordType>,
    vals: Seq<IValueModel>,
)
    ensures
        json_decodes_elems(elems, t, recs, vals) <==> (vals.len() == elems.len() && forall|k: int|
            0 <= k < vals.len() ==> json_decodes(elems[k], t, recs, #[trigger] vals[k])),
    decreases vals.len(),
{
    if vals.len() == elems.len() && vals.len() > 0 {
        lemma_json_decodes_elems(elems.drop_first(), t, recs, vals.drop_first());
        let te = elems.drop_first();
        let tv = vals.drop_first();
        if json_decodes_elems(elems, t, recs, vals) {
            assert forall|k: int| 0 <= k < vals.len() implies json_decodes(
                elems[k],
                t,
                recs,
                #[trigger] vals[k],
            ) by {
                if k > 0 {
                    assert(te[k - 1] == elems[k] && tv[k - 1] == vals[k]);
                    assert(json_decodes(te[k - 1], t, recs, tv[k - 1]));
                }
            }
        }
        if vals.len() == elems.len() && (forall|k: int|
            0 <= k < vals.len() ==> json_decodes(elems[k], t, recs, #[trigger] vals[k])) {
            assert forall|k: int| 0 <= k < tv.len() implies json_decodes(
                te[k],
                t,
                recs,
                #[trigger] tv[k],
            ) by {
                assert(te[k] == elems[k + 1] && tv[k] == vals[k + 1]);
            }
        }
    }
}

/// Whether some interface value is the decoding of `j` at type `t`.
pub open spec fn json_decodable(j: JsonValue, t: IType, recs: Seq<RecordType>) -> bool {
    exists|vm: IValueModel| json_decodes(j, t, recs, vm)
}

/// Whether some interface value decodes, at type `t`, from the first object
/// member named `name`.
pub open spec fn member_decodable(
    ms: Seq<JsonMember>,
    name: Seq<char>,
    t: IType,
    recs: Seq<RecordType>,
) -> bool {
    exists|vm: IValueModel| member_decodes(ms, name, t, recs, vm)
}

/// Whether the JSON call arguments decode against an argument list (given
/// as `(name, type)` pairs): an array of matching length decoding
/// positionally, an object of matching size with a decodable first member
/// per argument name, or — for a single argument — a bare decodable value.
pub open spec fn json_args_decodable(
    json: JsonValue,
    args: Seq<(Seq<char>, IType)>,
    recs: Seq<RecordType>,
) -> bool {
    match json {
        JsonValue::Array(elems) => elems@.len() == args.len() && (forall|k: int|
            0 <= k < args.len() ==> json_decodable(elems@[k], (#[trigger] args[k]).1, recs)),
        JsonValue::Object(ms) => ms@.len() == args.len() && (forall|k: int|
            0 <= k < args.len() ==> member_decodable(ms@, (#[trigger] args[k]).0, args[k].1, recs)),
        _ => args.len() == 1 && json_decodable(json, args[0].1, recs),
    }
}

/// The decoding worker behind `json_to_ivalue`, with the same contract but
/// for the positive decodability statement, which the wrapper derives.
#[verifier::rlimit(100)]
#[verifier::spinoff_prover]
fn json_decode_at(j: &JsonValue, t: &IType, recs: &RecordRegistry) -> (r: Result<
    IValue,
    EngineError,
>)
    ensures
        r matches Ok(v) ==> value_has_itype(ivalue_model(v), *t, recs@),
        r matches Ok(v) ==> json_decodes(*j, *t, recs@, ivalue_model(v)),
        r is Err ==> !json_decodable(*j, *t, recs@),
        r matches Err(e) ==> (e is JsonSchemaMismatch || e is UnknownRecord),
        recs.well_formed() && itype_refs_below(*t, recs@.len() as int + 1) ==> (r matches Err(e)
            ==> e is JsonSchemaMismatch),
        t is U8 ==> match (j, r) {
            (JsonValue::Int(x), Ok(v)) => 0 <= *x <= 255 && ivalue_model(v) == IValueModel::U8(
                *x as u8,
            ),
            (JsonValue::Int(x), Err(e)) => !(0 <= *x <= 255) && e is JsonSchemaMismatch,
            (JsonValue::UInt(x), Ok(v)) => *x <= 255 && ivalue_model(v) == IValueModel::U8(*x as u8),
            (JsonValue::UInt(x), Err(e)) => *x > 255 && e is JsonSchemaMismatch,
            (_, Err(e)) => e is JsonSchemaMismatch,
            (_, Ok(_)) => false,
        },
        t is S32 ==> match (j, r) {
            (JsonValue::Int(x), Ok(v)) => i32::MIN <= *x <= i32::MAX && ivalue_model(v)
                == IValueModel::S32(*x as i32),
            (JsonValue::Int(x), Err(e)) => !(i32::MIN <= *x <= i32::MAX) && e is JsonSchemaMismatch,
            (JsonValue::UInt(x), Ok(v)) => *x <= i32::MAX && ivalue_model(v) == IValueModel::S32(
                *x as i32,
            ),
            (JsonValue::UInt(x), Err(e)) => *x > i32::MAX && e is JsonSchemaMismatch,
            (_, Err(e)) => e is JsonSchemaMismatch,
            (_, Ok(_)) => false,
        },
        t is Utf8String ==> match (j, r) {
            (JsonValue::Text(s), Ok(v)) => ivalue_model(v) == IValueModel::Utf8String(s@),
            (JsonValue::Text(s), Err(e)) => false,
            (_, Err(e)) => e is JsonSchemaMismatch,
            (_, Ok(_)) => false,
        },
        t is U64 ==> match (j, r) {
            (JsonValue::UInt(x), Ok(v)) => ivalue_model(v) == IValueModel::U64(*x as u64),
            (JsonValue::Int(x), Ok(v)) => *x >= 0 && ivalue_model(v) == IValueModel::U64(*x as u64),
            (JsonValue::Int(x), Err(e)) => *x < 0 && e is JsonSchemaMismatch,
            (_, Err(e)) => e is JsonSchemaMismatch,
            (_, Ok(_)) => false,
        },
    decreases j,
{
    match t {
        IType::S8 => match j {
            JsonValue::Int(x) => {
                let x = *x;
                if -128 <= x && x <= 127 {
                    Ok(IValue::S8(x as i8))
                } else {
                    Err(EngineError::JsonSchemaMismatch)
                }
            },
            JsonValue::UInt(x) => {
                let x = *x;
                if x <= 127 {
                    Ok(IValue::S8(x as i8))
                } else {
                    Err(EngineError::JsonSchemaMismatch)
                }
            },
            _ => Err(EngineError::JsonSchemaMismatch),
        },
        IType::S16 => match j {
            JsonValue::Int(x) => {
                let x = *x;
                if -0x8000 <= x && x <= 0x7fff {
                    Ok(IValue::S16(x as i16))
                } else {
                    Err(EngineError::JsonSchemaMismatch)
                }
            },
            JsonValue::UInt(x) => {
                let x = *x;
                if x <= 0x7fff {
                    Ok(IValue::S16(x as i16))
                } else {
                    Err(EngineError::JsonSchemaMismatch)
                }
            },
            _ => Err(EngineError::JsonSchemaMismatch),
        },
        IType::S32 => match j {
            JsonValue::Int(x) => {
                let x = *x;
                if -0x8000_0000 <= x && x <= 0x7fff_ffff {
                    Ok(IValue::S32(x as i32))
                } else {
                    Err(EngineError::JsonSchemaMismatch)
                }
            },
            JsonValue::UInt(x) => {
                let x = *x;
                if x <= 0x7fff_ffff {
                    Ok(IValue::S32(x as i32))
                } else {
                    Err(EngineError::JsonSchemaMismatch)
                }
            },
            _ => Err(EngineError::JsonSchemaMismatch),
        },
        IType::S64 => match j {
            JsonValue::Int(x) => Ok(IValue::S64(*x)),
            JsonValue::UInt(x) => {
                let x = *x;
                if x <= 0x7fff_ffff_ffff_ffff {
                    Ok(IValue::S64(x as i64))
                } else {
                    Err(EngineError::JsonSchemaMismatch)
                }
            },
            _ => Err(EngineError::JsonSchemaMismatch),
        },
        IType::U8 => match j {
            JsonValue::Int(x) => {
                let x = *x;
                if 0 <= x && x <= 255 {
                    Ok(IValue::U8(x as u8))
                } else {
                    Err(EngineError::JsonSchemaMismatch)
                }
            },
            JsonValue::UInt(x) => {
                let x = *x;
                if x <= 255 {
                    Ok(IValue::U8(x as u8))
                } else {
                    Err(EngineError::JsonSchemaMismatch)
                }
            },
            _ => Err(EngineError::JsonSchemaMismatch),
        },
        IType::U16 => match j {
            JsonValue::Int(x) => {
                let x = *x;
                if 0 <= x && x <= 0xffff {
                    Ok(IValue::U16(x as u16))
                } else {
                    Err(EngineError::JsonSchemaMismatch)
                }
            },
            JsonValue::UInt(x) => {
                let x = *x;
                if x <= 0xffff {
                    Ok(IValue::U16(x as u16))
                } else {
                    Err(EngineError::JsonSchemaMismatch)
                }
            },
            _ => Err(EngineError::JsonSchemaMismatch),
        },
        IType::U32 => match j {
            JsonValue::Int(x) => {
                let x = *x;
                if 0 <= x && x <= 0xffff_ffff {
                    Ok(IValue::U32(x as u32))
                } else {
                    Err(EngineError::JsonSchemaMismatch)
                }
            },
            JsonValue::UInt(x) => {
                let x = *x;
                if x <= 0xffff_ffff {
                    Ok(IValue::U32(x as u32))
                } else {
                    Err(EngineError::JsonSchemaMismatch)
                }
            },
            _ => Err(EngineError::JsonSchemaMismatch),
        },
        IType::U64 => match j {
            JsonValue::Int(x) => {
                let x = *x;
                if x >= 0 {
                    Ok(IValue::U64(x as u64))
                } else {
                    Err(EngineError::JsonSchemaMismatch)
                }
            },
            JsonValue::UInt(x) => Ok(IValue::U64(*x)),
            _ => Err(EngineError::JsonSchemaMismatch),
        },
        IType::F32 => Err(EngineError::JsonSchemaMismatch),
        IType::F64 => match j {
            JsonValue::Float(bits) => Ok(IValue::F64Bits(*bits)),
            _ => Err(EngineError::JsonSchemaMismatch),
        },
        IType::Utf8String => match j {
            JsonValue::Text(s) => Ok(IValue::Utf8String(s.clone())),
            _ => Err(EngineError::JsonSchemaMismatch),
        },
        IType::ByteArray => match j {
            JsonValue::Array(elems) => {
                let mut bytes: Vec<u8> = Vec::new();
                let mut i: usize = 0;
                while i < elems.len()
                    invariant
                        i <= elems@.len(),
                        *t == IType::ByteArray,
                        *j == JsonValue::Array(*elems),
                        bytes@.len() == i,
                        forall|m: int| 0 <= m < i ==> json_byte(#[trigger] elems@[m], bytes@[m]),
                    decreases elems@.len() - i,
                {
                    match &elems[i] {
                        JsonValue::Int(x) => {
                            let x = *x;
                            if 0 <= x && x <= 255 {
                                bytes.push(x as u8);
                            } else {
                                return Err(EngineError::JsonSchemaMismatch);
                            }
                        },
                        JsonValue::UInt(x) => {
                            let x = *x;
                            if x <= 255 {
                                bytes.push(x as u8);
                            } else {
                                return Err(EngineError::JsonSchemaMismatch);
                            }
                        },
                        _ => {
                            return Err(EngineError::JsonSchemaMismatch);
                        },
                    }
                    i = i + 1;
                }
                Ok(IValue::ByteArray(bytes))
            },
            _ => Err(EngineError::JsonSchemaMismatch),
        },
        IType::Record(id) => match j {
            JsonValue::Object(fields) => {
                let rec = match recs.resolve(*id) {
                    Some(rec) => rec,
                    None => {
                        return Err(EngineError::UnknownRecord(*id));
                    },
                };
                if fields.len() != rec.fields.len() {
                    return Err(EngineError::JsonSchemaMismatch);
                }
                let n = rec.fields.len();
                let mut vals: Vec<IValue> = Vec::new();
                let mut k: usize = 0;
                while k < n
                    invariant
                        k <= n,
                        *t == IType::Record(*id),
                        1 <= *id <= recs@.len(),
                        *rec == recs@[*id - 1],
                        n == rec.fields@.len(),
                        *j == JsonValue::Object(*fields),
                        vals@.len() == k,
                        ivalues_model(vals@).len() == k,
                        forall|m: int|
                            0 <= m < k ==> value_has_itype(
                                #[trigger] ivalues_model(vals@)[m],
                                recs@[*id - 1].fields@[m].ty,
                                recs@,
                            ),
                        forall|m: int|
                            0 <= m < k ==> member_decodes(
                                fields@,
                                recs@[*id - 1].fields@[m].name@,
                                recs@[*id - 1].fields@[m].ty,
                                recs@,
                                #[trigger] ivalues_model(vals@)[m],
                            ),
                    decreases n - k,
                {
                    proof {
                        lemma_ivalues_model(vals@);
                    }
                    // Find the first object member named like the record field.
                    let mut found: bool = false;
                    let mut fi: usize = 0;
                    let mut m: usize = 0;
                    while m < fields.len()
                        invariant
                            k < n,
                            n == rec.fields@.len(),
                            *rec == recs@[*id - 1],
                            1 <= *id <= recs@.len(),
                            m <= fields@.len(),
                            found ==> is_first_member(
                                fields@,
                                rec.fields@[k as int].name@,
                                fi as int,
                            ),
                            !found ==> forall|m2: int|
                                0 <= m2 < m ==> (#[trigger] fields@[m2]).name@ != rec.fields@[
                                    k as int
                                ].name@,
                        decreases fields@.len() - m,
                    {
                        if !found && fields[m].name == rec.fields[k].name {
                            found = true;
                            fi = m;
                        }
                        m = m + 1;
                    }
                    if !found {
                        proof {
                            assert forall|vm: IValueModel| !json_decodes(*j, *t, recs@, vm) by {
                                match vm {
                                    IValueModel::Record(id2, vals) => {
                                        if id2 == *id && json_decodes_fields(
                                            fields@,
                                            recs@[*id - 1].fields.deep_view(),
                                            recs@,
                                            vals,
                                        ) {
                                            lemma_json_decodes_fields(
                                                fields@,
                                                recs@[*id - 1].fields.deep_view(),
                                                recs@,
                                                vals,
                                            );
                                            assert(recs@[*id - 1].fields.deep_view()[k as int]
                                                == recs@[*id - 1].fields@[k as int].deep_view());
                                            assert(member_decodes(
                                                fields@,
                                                recs@[*id - 1].fields.deep_view()[k as int].0,
                                                recs@[*id - 1].fields.deep_view()[k as int].1,
                                                recs@,
                                                vals[k as int],
                                            ));
                                            assert(member_decodes(
                                                fields@,
                                                recs@[*id - 1].fields@[k as int].name@,
                                                recs@[*id - 1].fields@[k as int].ty,
                                                recs@,
                                                vals[k as int],
                                            ));
                                            let fname = recs@[*id - 1].fields@[k as int].name@;
                                            let fty = recs@[*id - 1].fields@[k as int].ty;
                                            let mi = choose|mi: int|
                                                is_first_member(fields@, fname, mi)
                                                    && json_decodes(
                                                    #[trigger] fields@[mi].value,
                                                    fty,
                                                    recs@,
                                                    vals[k as int],
                                                );
                                            assert(fields@[mi].name@ == fname);
                                            assert(false);
                                        }
                                    },
                                    _ => {},
                                }
                            }
                        }
                        return Err(EngineError::JsonSchemaMismatch);
                    }
                    let member: &JsonMember = match j {
                        JsonValue::Object(fs) => &fs[fi],
                        _ => {
                            proof {
                                assert(false);
                            }
                            return Err(EngineError::JsonSchemaMismatch);
                        },
                    };
                    let v = match json_decode_at(&member.value, &rec.fields[k].ty, recs) {
                        Ok(v) => v,
                        Err(e) => {
                            proof {
                                if recs.well_formed() && itype_refs_below(
                                    *t,
                                    recs@.len() as int + 1,
                                ) {
                                    assert(itype_refs_below(
                                        recs@[*id - 1].fields@[k as int].ty,
                                        *id - 1 + 1,
                                    ));
                                    lemma_itype_refs_below_mono(
                                        recs@[*id - 1].fields@[k as int].ty,
                                        *id - 1 + 1,
                                        recs@.len() as int + 1,
                                    );
                                }
                                assert(*member == fields@[fi as int]);
                                assert forall|vm: IValueModel| !json_decodes(
                                    *j,
                                    *t,
                                    recs@,
                                    vm,
                                ) by {
                                    match vm {
                                        IValueModel::Record(id2, vals) => {
                                            if id2 == *id && json_decodes_fields(
                                                fields@,
                                                recs@[*id - 1].fields.deep_view(),
                                                recs@,
                                                vals,
                                            ) {
                                                lemma_json_decodes_fields(
                                                    fields@,
                                                    recs@[*id - 1].fields.deep_view(),
                                                    recs@,
                                                    vals,
                                                );
                                                assert(recs@[*id - 1].fields.deep_view()[k as int]
                                                    == recs@[*id - 1].fields@[
                                                    k as int
                                                ].deep_view());
                                                let fname = recs@[*id - 1].fields@[
                                                    k as int
                                                ].name@;
                                                let fty = recs@[*id - 1].fields@[k as int].ty;
                                                assert(member_decodes(
                                                    fields@,
                                                    recs@[*id - 1].fields.deep_view()[k as int].0,
                                                    recs@[*id - 1].fields.deep_view()[k as int].1,
                                                    recs@,
                                                    vals[k as int],
                                                ));
                                                assert(member_decodes(
                                                    fields@,
                                                    fname,
                                                    fty,
                                                    recs@,
                                                    vals[k as int],
                                                ));
                                                let mi = choose|mi: int|
                                                    is_first_member(fields@, fname, mi)
                                                        && json_decodes(
                                                        #[trigger] fields@[mi].value,
                                                        fty,
                                                        recs@,
                                                        vals[k as int],
                                                    );
                                                lemma_first_member_unique(
                                                    fields@,
                                                    fname,
                                                    mi,
                                                    fi as int,
                                                );
                                                assert(json_decodes(
                                                    member.value,
                                                    fty,
                                                    recs@,
                                                    vals[k as int],
                                                ));
                                                assert(json_decodable(
                                                    member.value,
                                                    rec.fields@[k as int].ty,
                                                    recs@,
                                                ));
                                                assert(false);
                                            }
                                        },
                                        _ => {},
                                    }
                                }
                            }
                            return Err(e);
                        },
                    };
                    proof {
                        assert(member_decodes(
                            fields@,
                            recs@[*id - 1].fields@[k as int].name@,
                            recs@[*id - 1].fields@[k as int].ty,
                            recs@,
                            ivalue_model(v),
                        ));
                    }
                    let ghost prev = vals@;
                    vals.push(v);
                    proof {
                        lemma_ivalues_model(prev);
                        lemma_ivalues_model(vals@);
                        assert forall|m: int| 0 <= m < k + 1 implies value_has_itype(
                            #[trigger] ivalues_model(vals@)[m],
                            recs@[*id - 1].fields@[m].ty,
                            recs@,
                        ) && member_decodes(
                            fields@,
                            recs@[*id - 1].fields@[m].name@,
                            recs@[*id - 1].fields@[m].ty,
                            recs@,
                            ivalues_model(vals@)[m],
                        ) by {
                            if m < k {
                                assert(vals@[m] == prev[m]);
                                assert(ivalues_model(vals@)[m] == ivalues_model(prev)[m]);
                            } else {
                                assert(vals@[m] == v);
                            }
                        }
                    }
                    k = k + 1;
                }
                proof {
                    lemma_ivalues_model(vals@);
                    crate::itype::lemma_values_match_fields(
                        ivalues_model(vals@),
                        recs@[*id - 1].fields.deep_view(),
                        recs@,
                    );
                    lemma_json_decodes_fields(
                        fields@,
                        recs@[*id - 1].fields.deep_view(),
                        recs@,
                        ivalues_model(vals@),
                    );
                    assert forall|m: int| 0 <= m < vals@.len() implies value_has_itype(
                        #[trigger] ivalues_model(vals@)[m],
                        recs@[*id - 1].fields.deep_view()[m].1,
                        recs@,
                    ) && member_decodes(
                        fields@,
                        recs@[*id - 1].fields.deep_view()[m].0,
                        recs@[*id - 1].fields.deep_view()[m].1,
                        recs@,
                        ivalues_model(vals@)[m],
                    ) by {
                        assert(recs@[*id - 1].fields.deep_view()[m] == recs@[*id
                            - 1].fields@[m].deep_view());
                    }
                }
                Ok(IValue::Record(*id, vals))
            },
            _ => Err(EngineError::JsonSchemaMismatch),
        },
        IType::Array(inner) => match j {
            JsonValue::Array(elems) => {
                let mut vals: Vec<IValue> = Vec::new();
                let mut i: usize = 0;
                while i < elems.len()
                    invariant
                        i <= elems@.len(),
                        *t == IType::Array(*inner),
                        *j == JsonValue::Array(*elems),
                        vals@.len() == i,
                        ivalues_model(vals@).len() == i,
                        forall|m: int|
                            0 <= m < i ==> value_has_itype(
                                #[trigger] ivalues_model(vals@)[m],
                                **inner,
                                recs@,
                            ),
                        forall|m: int|
                            0 <= m < i ==> json_decodes(
                                elems@[m],
                                **inner,
                                recs@,
                                #[trigger] ivalues_model(vals@)[m],
                            ),
                    decreases elems@.len() - i,
                {
                    proof {
                        lemma_ivalues_model(vals@);
                    }
                    let elem: &JsonValue = match j {
                        JsonValue::Array(es) => &es[i],
                        _ => {
                            proof {
                                assert(false);
                            }
                            return Err(EngineError::JsonSchemaMismatch);
                        },
                    };
                    let v = match json_decode_at(elem, inner, recs) {
                        Ok(v) => v,
                        Err(e) => {
                            proof {
                                assert(*elem == elems@[i as int]);
                                assert forall|vm: IValueModel| !json_decodes(
                                    *j,
                                    *t,
                                    recs@,
                                    vm,
                                ) by {
                                    match vm {
                                        IValueModel::Array(avals) => {
                                            if json_decodes_elems(
                                                elems@,
                                                **inner,
                                                recs@,
                                                avals,
                                            ) {
                                                lemma_json_decodes_elems(
                                                    elems@,
                                                    **inner,
                                                    recs@,
                                                    avals,
                                                );
                                                assert(json_decodes(
                                                    elems@[i as int],
                                                    **inner,
                                                    recs@,
                                                    avals[i as int],
                                                ));
                                                assert(json_decodable(*elem, **inner, recs@));
                                                assert(false);
                                            }
                                        },
                                        _ => {},
                                    }
                                }
                            }
                            return Err(e);
                        },
                    };
                    let ghost prev = vals@;
                    vals.push(v);
                    proof {
                        lemma_ivalues_model(prev);
                        lemma_ivalues_model(vals@);
                        assert forall|m: int| 0 <= m < i + 1 implies value_has_itype(
                            #[trigger] ivalues_model(vals@)[m],
                            **inner,
                            recs@,
                        ) && json_decodes(
                            elems@[m],
                            **inner,
                            recs@,
                            ivalues_model(vals@)[m],
                        ) by {
                            if m < i {
                                assert(vals@[m] == prev[m]);
                                assert(ivalues_model(vals@)[m] == ivalues_model(prev)[m]);
                            } else {
                                assert(vals@[m] == v);
                            }
                        }
                    }
                    i = i + 1;
                }
                proof {
                    lemma_ivalues_model(vals@);
                    crate::itype::lemma_values_have_itype(ivalues_model(vals@), **inner, recs@);
                    lemma_json_decodes_elems(elems@, **inner, recs@, ivalues_model(vals@));
                }
                Ok(IValue::Array(vals))
            },
            _ => Err(EngineError::JsonSchemaMismatch),
        },
    }
}

/// Decodes one JSON value against one interface type. Numeric literals must
/// fit the target width exactly; everything else is `JsonSchemaMismatch`.
/// Succeeds exactly when some interface value decodes from this JSON at
/// this type, and returns exactly that decoding.
pub fn json_to_ivalue(j: &JsonValue, t: &IType, recs: &RecordRegistry) -> (r: Result<
    IValue,
    EngineError,
>)
    ensures
        r matches Ok(v) ==> value_has_itype(ivalue_model(v), *t, recs@),
        r matches Ok(v) ==> json_decodes(*j, *t, recs@, ivalue_model(v)),
        r is Ok <==> json_decodable(*j, *t, recs@),
        r matches Err(e) ==> (e is JsonSchemaMismatch || e is UnknownRecord),
        recs.well_formed() && itype_refs_below(*t, recs@.len() as int + 1) ==> (r matches Err(e)
            ==> e is JsonSchemaMismatch),
        t is U8 ==> match (j, r) {
            (JsonValue::Int(x), Ok(v)) => 0 <= *x <= 255 && ivalue_model(v) == IValueModel::U8(
                *x as u8,
            ),
            (JsonValue::Int(x), Err(e)) => !(0 <= *x <= 255) && e is JsonSchemaMismatch,
            (JsonValue::UInt(x), Ok(v)) => *x <= 255 && ivalue_model(v) == IValueModel::U8(*x as u8),
            (JsonValue::UInt(x), Err(e)) => *x > 255 && e is JsonSchemaMismatch,
            (_, Err(e)) => e is JsonSchemaMismatch,
            (_, Ok(_)) => false,
        },
        t is S32 ==> match (j, r) {
            (JsonValue::Int(x), Ok(v)) => i32::MIN <= *x <= i32::MAX && ivalue_model(v)
                == IValueModel::S32(*x as i32),
            (JsonValue::Int(x), Err(e)) => !(i32::MIN <= *x <= i32::MAX) && e is JsonSchemaMismatch,
            (JsonValue::UInt(x), Ok(v)) => *x <= i32::MAX && ivalue_model(v) == IValueModel::S32(
                *x as i32,
            ),
            (JsonValue::UInt(x), Err(e)) => *x > i32::MAX && e is JsonSchemaMismatch,
            (_, Err(e)) => e is JsonSchemaMismatch,
            (_, Ok(_)) => false,
        },
        t is Utf8String ==> match (j, r) {
            (JsonValue::Text(s), Ok(v)) => ivalue_model(v) == IValueModel::Utf8String(s@),
            (JsonValue::Text(s), Err(e)) => false,
            (_, Err(e)) => e is JsonSchemaMismatch,
            (_, Ok(_)) => false,
        },
        t is U64 ==> match (j, r) {
            (JsonValue::UInt(x), Ok(v)) => ivalue_model(v) == IValueModel::U64(*x as u64),
            (JsonValue::Int(x), Ok(v)) => *x >= 0 && ivalue_model(v) == IValueModel::U64(*x as u64),
            (JsonValue::Int(x), Err(e)) => *x < 0 && e is JsonSchemaMismatch,
            (_, Err(e)) => e is JsonSchemaMismatch,
            (_, Ok(_)) => false,
        },
{
    let r = json_decode_at(j, t, recs);
    proof {
        match &r {
            Ok(v) => {
                assert(json_decodes(*j, *t, recs@, ivalue_model(*v)));
                assert(json_decodable(*j, *t, recs@));
            },
            Err(_) => {},
        }
    }
    r
}

/// Decodes the JSON arguments of a call: a JSON object keyed by argument
/// names (each argument from the first member bearing its name), a JSON
/// array taken positionally, or — for a single argument — the bare value.
/// Succeeds exactly when the arguments are decodable
/// (`json_args_decodable`), with one well-typed value per declared
/// argument, each exactly the decoding of its JSON source. Every failure is
/// `JsonSchemaMismatch` — a count mismatch, a missing member, or a value
/// that does not decode — except that an argument type referencing an
/// unregistered record may fail with `UnknownRecord`.
pub fn json_to_ivalues(
    json: &JsonValue,
    arguments: &Vec<FunctionArg>,
    recs: &RecordRegistry,
) -> (r: Result<Vec<IValue>, EngineError>)
    ensures
        r matches Ok(vals) ==> {
            &&& vals@.len() == arguments@.len()
            &&& forall|k: int|
                0 <= k < vals@.len() ==> value_has_itype(
                    ivalue_model(#[trigger] vals@[k]),
                    arguments@[k].ty,
                    recs@,
                )
        },
        r matches Ok(vals) ==> match json {
            JsonValue::Array(elems) => elems@.len() == arguments@.len() && forall|k: int|
                0 <= k < vals@.len() ==> json_decodes(
                    elems@[k],
                    arguments@[k].ty,
                    recs@,
                    ivalue_model(#[trigger] vals@[k]),
                ),
            JsonValue::Object(ms) => ms@.len() == arguments@.len() && forall|k: int|
                0 <= k < vals@.len() ==> member_decodes(
                    ms@,
                    arguments@[k].name@,
                    arguments@[k].ty,
                    recs@,
                    ivalue_model(#[trigger] vals@[k]),
                ),
            _ => arguments@.len() == 1 && json_decodes(
                *json,
                arguments@[0].ty,
                recs@,
                ivalue_model(vals@[0]),
            ),
        },
        json matches JsonValue::Array(elems) ==> (elems@.len() != arguments@.len() ==> (r matches
            Err(e) && e is JsonSchemaMismatch)),
        json matches JsonValue::Object(ms) ==> (ms@.len() != arguments@.len() ==> (r matches Err(e)
            && e is JsonSchemaMismatch)),
        !(json is Array || json is Object) ==> (arguments@.len() != 1 ==> (r matches Err(e)
            && e is JsonSchemaMismatch)),
        r is Ok <==> json_args_decodable(*json, arguments.deep_view(), recs@),
        r matches Err(e) ==> (e is JsonSchemaMismatch || e is UnknownRecord),
        recs.well_formed() && (forall|k: int|
            0 <= k < arguments@.len() ==> itype_refs_below(
                (#[trigger] arguments@[k]).ty,
                recs@.len() as int + 1,
            )) ==> (r matches Err(e) ==> e is JsonSchemaMismatch),
{
    proof {
        assert(arguments.deep_view().len() == arguments@.len());
    }
    match json {
        JsonValue::Object(members) => {
            if members.len() != arguments.len() {
                return Err(EngineError::JsonSchemaMismatch);
            }
            let mut vals: Vec<IValue> = Vec::new();
            let mut k: usize = 0;
            while k < arguments.len()
                invariant
                    k <= arguments@.len(),
                    *json == JsonValue::Object(*members),
                    members@.len() == arguments@.len(),
                    vals@.len() == k,
                    forall|m: int|
                        0 <= m < k ==> value_has_itype(
                            ivalue_model(#[trigger] vals@[m]),
                            arguments@[m].ty,
                            recs@,
                        ),
                    forall|m: int|
                        0 <= m < k ==> member_decodes(
                            members@,
                            arguments@[m].name@,
                            arguments@[m].ty,
                            recs@,
                            ivalue_model(#[trigger] vals@[m]),
                        ),
                decreases arguments@.len() - k,
            {
                let mut found: bool = false;
                let mut fi: usize = 0;
                let mut m: usize = 0;
                while m < members.len()
                    invariant
                        k < arguments@.len(),
                        m <= members@.len(),
                        found ==> is_first_member(
                            members@,
                            arguments@[k as int].name@,
                            fi as int,
                        ),
                        !found ==> forall|m2: int|
                            0 <= m2 < m ==> (#[trigger] members@[m2]).name@ != arguments@[
                                k as int
                            ].name@,
                    decreases members@.len() - m,
                {
                    if !found && members[m].name == arguments[k].name {
                        found = true;
                        fi = m;
                    }
                    m = m + 1;
                }
                if !found {
                    proof {
                        let adv = arguments.deep_view();
                        assert(adv[k as int] == arguments@[k as int].deep_view());
                        assert forall|vm: IValueModel| !member_decodes(
                            members@,
                            adv[k as int].0,
                            adv[k as int].1,
                            recs@,
                            vm,
                        ) by {
                            if member_decodes(members@, adv[k as int].0, adv[k as int].1, recs@, vm) {
                                let mi = choose|mi: int|
                                    is_first_member(members@, adv[k as int].0, mi) && json_decodes(
                                        #[trigger] members@[mi].value,
                                        adv[k as int].1,
                                        recs@,
                                        vm,
                                    );
                                assert(members@[mi].name@ == arguments@[k as int].name@);
                            }
                        }
                        assert(!member_decodable(members@, adv[k as int].0, adv[k as int].1, recs@));
                        assert(!json_args_decodable(*json, adv, recs@));
                    }
                    return Err(EngineError::JsonSchemaMismatch);
                }
                let v = match json_to_ivalue(&members[fi].value, &arguments[k].ty, recs) {
                    Ok(v) => v,
                    Err(e) => {
                        proof {
                            let adv = arguments.deep_view();
                            assert(adv[k as int] == arguments@[k as int].deep_view());
                            assert forall|vm: IValueModel| !member_decodes(
                                members@,
                                adv[k as int].0,
                                adv[k as int].1,
                                recs@,
                                vm,
                            ) by {
                                if member_decodes(
                                    members@,
                                    adv[k as int].0,
                                    adv[k as int].1,
                                    recs@,
                                    vm,
                                ) {
                                    let mi = choose|mi: int|
                                        is_first_member(members@, adv[k as int].0, mi)
                                            && json_decodes(
                                            #[trigger] members@[mi].value,
                                            adv[k as int].1,
                                            recs@,
                                            vm,
                                        );
                                    lemma_first_member_unique(
                                        members@,
                                        adv[k as int].0,
                                        mi,
                                        fi as int,
                                    );
                                    assert(json_decodable(
                                        members@[fi as int].value,
                                        arguments@[k as int].ty,
                                        recs@,
                                    ));
                                    assert(false);
                                }
                            }
                            assert(!member_decodable(
                                members@,
                                adv[k as int].0,
                                adv[k as int].1,
                                recs@,
                            ));
                            assert(!json_args_decodable(*json, adv, recs@));
                        }
                        return Err(e);
                    },
                };
                proof {
                    assert(member_decodes(
                        members@,
                        arguments@[k as int].name@,
                        arguments@[k as int].ty,
                        recs@,
                        ivalue_model(v),
                    ));
                }
                vals.push(v);
                k = k + 1;
            }
            proof {
                let adv = arguments.deep_view();
                assert forall|k2: int| 0 <= k2 < adv.len() implies member_decodable(
                    members@,
                    (#[trigger] adv[k2]).0,
                    adv[k2].1,
                    recs@,
                ) by {
                    assert(adv[k2] == arguments@[k2].deep_view());
                    assert(member_decodes(
                        members@,
                        arguments@[k2].name@,
                        arguments@[k2].ty,
                        recs@,
                        ivalue_model(vals@[k2]),
                    ));
                }
                assert(json_args_decodable(*json, adv, recs@));
            }
            Ok(vals)
        },
        JsonValue::Array(elems) => {
            if elems.len() != arguments.len() {
                return Err(EngineError::JsonSchemaMismatch);
            }
            let mut vals: Vec<IValue> = Vec::new();
            let mut k: usize = 0;
            while k < arguments.len()
                invariant
                    k <= arguments@.len(),
                    *json == JsonValue::Array(*elems),
                    elems@.len() == arguments@.len(),
                    vals@.len() == k,
                    forall|m: int|
                        0 <= m < k ==> value_has_itype(
                            ivalue_model(#[trigger] vals@[m]),
                            arguments@[m].ty,
                            recs@,
                        ),
                    forall|m: int|
                        0 <= m < k ==> json_decodes(
                            elems@[m],
                            arguments@[m].ty,
                            recs@,
                            ivalue_model(#[trigger] vals@[m]),
                        ),
                decreases arguments@.len() - k,
            {
                let elem: &JsonValue = match json {
                    JsonValue::Array(es) => &es[k],
                    _ => {
                        proof {
                            assert(false);
                        }
                        return Err(EngineError::JsonSchemaMismatch);
                    },
                };
                let v = match json_to_ivalue(elem, &arguments[k].ty, recs) {
                    Ok(v) => v,
                    Err(e) => {
                        proof {
                            let adv = arguments.deep_view();
                            assert(adv[k as int] == arguments@[k as int].deep_view());
                            assert(*elem == elems@[k as int]);
                            assert(!json_decodable(elems@[k as int], adv[k as int].1, recs@));
                            assert(!json_args_decodable(*json, adv, recs@));
                        }
                        return Err(e);
                    },
                };
                vals.push(v);
                k = k + 1;
            }
            proof {
                let adv = arguments.deep_view();
                assert forall|k2: int| 0 <= k2 < adv.len() implies json_decodable(
                    elems@[k2],
                    (#[trigger] adv[k2]).1,
                    recs@,
                ) by {
                    assert(adv[k2] == arguments@[k2].deep_view());
                    assert(json_decodes(
                        elems@[k2],
                        arguments@[k2].ty,
                        recs@,
                        ivalue_model(vals@[k2]),
                    ));
                }
                assert(json_args_decodable(*json, adv, recs@));
            }
            Ok(vals)
        },
        _ => {
            if arguments.len() != 1 {
                return Err(EngineError::JsonSchemaMismatch);
            }
            let v = match json_to_ivalue(json, &arguments[0].ty, recs) {
                Ok(v) => v,
                Err(e) => {
                    proof {
                        assert(arguments.deep_view()[0] == arguments@[0].deep_view());
                        assert(!json_args_decodable(*json, arguments.deep_view(), recs@));
                    }
                    return Err(e);
                },
            };
            proof {
                assert(arguments.deep_view()[0] == arguments@[0].deep_view());
                assert(json_decodes(*json, arguments@[0].ty, recs@, ivalue_model(v)));
                assert(json_args_decodable(*json, arguments.deep_view(), recs@));
            }
            let mut vals: Vec<IValue> = Vec::new();
            vals.push(v);
            Ok(vals)
        },
    }
}


/// Whether `j` is the JSON encoding of the interface value `vm` under the
/// mirror mapping: integers as JSON integers (unsigned 64-bit values as
/// unsigned), 64-bit float bits as a JSON float, strings as JSON strings,
/// byte arrays as arrays of integers, records as objects in field order,
/// arrays elementwise. 32-bit float values have no JSON encoding here.
pub open spec fn json_encodes(vm: IValueModel, j: JsonValue, recs: Seq<RecordType>) -> bool
    decreases vm,
{
    match vm {
        IValueModel::S8(x) => j == JsonValue::Int(x as i64),
        IValueModel::S16(x) => j == JsonValue::Int(x as i64),
        IValueModel::S32(x) => j == JsonValue::Int(x as i64),
        IValueModel::S64(x) => j == JsonValue::Int(x),
        IValueModel::U8(x) => j == JsonValue::Int(x as i64),
        IValueModel::U16(x) => j == JsonValue::Int(x as i64),
        IValueModel::U32(x) => j == JsonValue::Int(x as i64),
        IValueModel::U64(x) => j == JsonValue::UInt(x),
        IValueModel::F32Bits(_) => false,
        IValueModel::F64Bits(bits) => j == JsonValue::Float(bits),
        IValueModel::Utf8String(cs) => j matches JsonValue::Text(s) && s@ == cs,
        IValueModel::ByteArray(bs) => j matches JsonValue::Array(elems) && elems@.len() == bs.len()
            && (forall|i: int|
            0 <= i < bs.len() ==> #[trigger] elems@[i] == JsonValue::Int(bs[i] as i64)),
        IValueModel::Record(id, vals) => {
            &&& 1 <= id <= recs.len()
            &&& vals.len() == recs[id - 1].fields@.len()
            &&& j matches JsonValue::Object(ms) && json_encodes_members(
                vals,
                recs[id - 1].fields.deep_view(),
                ms@,
                recs,
            )
        },
        IValueModel::Array(vals) => j matches JsonValue::Array(elems) && json_encodes_seq(
            vals,
            elems@,
            recs,
        ),
    }
}

/// Whether `ms` encodes the record values `vals` member by member, each
/// under the field name at the same position.
pub open spec fn json_encodes_members(
    vals: Seq<IValueModel>,
    fields: Seq<(Seq<char>, IType)>,
    ms: Seq<JsonMember>,
    recs: Seq<RecordType>,
) -> bool
    decreases vals,
{
    if vals.len() != ms.len() || vals.len() != fields.len() {
        false
    } else if vals.len() == 0 {
        true
    } else {
        &&& ms[0].name@ == fields[0].0
        &&& json_encodes(vals[0], ms[0].value, recs)
        &&& json_encodes_members(vals.drop_first(), fields.drop_first(), ms.drop_first(), recs)
    }
}

/// Whether `elems` encodes the values `vals` elementwise.
pub open spec fn json_encodes_seq(
    vals: Seq<IValueModel>,
    elems: Seq<JsonValue>,
    recs: Seq<RecordType>,
) -> bool
    decreases vals,
{
    if vals.len() != elems.len() {
        false
    } else if vals.len() == 0 {
        true
    } else {
        json_encodes(vals[0], elems[0], recs) && json_encodes_seq(
            vals.drop_first(),
            elems.drop_first(),
            recs,
        )
    }
}

/// `json_encodes_members` is the elementwise encoding of a record's values.
pub proof fn lemma_json_encodes_members(
    vals: Seq<IValueModel>,
    fields: Seq<(Seq<char>, IType)>,
    ms: Seq<JsonMember>,
    recs: Seq<RecordType>,
)
    ensures
        json_encodes_members(vals, fields, ms, recs) <==> (vals.len() == ms.len() && vals.len()
            == fields.len() && (forall|k: int|
            0 <= k < vals.len() ==> (#[trigger] ms[k]).name@ == fields[k].0 && json_encodes(
                vals[k],
                ms[k].value,
                recs,
            ))),
    decreases vals.len(),
{
    if vals.len() == ms.len() && vals.len() == fields.len() && vals.len() > 0 {
        lemma_json_encodes_members(
            vals.drop_first(),
            fields.drop_first(),
            ms.drop_first(),
            recs,
        );
        let tv = vals.drop_first();
        let tf = fields.drop_first();
        let tm = ms.drop_first();
        if ms[0].name@ == fields[0].0 && json_encodes(vals[0], ms[0].value, recs)
            && json_encodes_members(tv, tf, tm, recs) {
            assert forall|k: int| 0 <= k < vals.len() implies (#[trigger] ms[k]).name@
                == fields[k].0 && json_encodes(vals[k], ms[k].value, recs) by {
                if k > 0 {
                    assert(tm[k - 1] == ms[k] && tf[k - 1] == fields[k] && tv[k - 1] == vals[k]);
                    assert(tm[k - 1].name@ == tf[k - 1].0 && json_encodes(
                        tv[k - 1],
                        tm[k - 1].value,
                        recs,
                    ));
                }
            }
        }
        if forall|k: int|
            0 <= k < vals.len() ==> (#[trigger] ms[k]).name@ == fields[k].0 && json_encodes(
                vals[k],
                ms[k].value,
                recs,
            ) {
            assert forall|k: int| 0 <= k < tv.len() implies (#[trigger] tm[k]).name@ == tf[k].0
                && json_encodes(tv[k], tm[k].value, recs) by {
                assert(tm[k] == ms[k + 1] && tf[k] == fields[k + 1] && tv[k] == vals[k + 1]);
                assert(ms[k + 1].name@ == fields[k + 1].0 && json_encodes(
                    vals[k + 1],
                    ms[k + 1].value,
                    recs,
                ));
            }
        }
    }
}

/// `json_encodes_seq` is the elementwise encoding of an array's values.
pub proof fn lemma_json_encodes_seq(
    vals: Seq<IValueModel>,
    elems: Seq<JsonValue>,
    recs: Seq<RecordType>,
)
    ensures
        json_encodes_seq(vals, elems, recs) <==> (vals.len() == elems.len() && (forall|k: int|
            0 <= k < vals.len() ==> json_encodes(#[trigger] vals[k], elems[k], recs))),
    decreases vals.len(),
{
    if vals.len() == elems.len() && vals.len() > 0 {
        lemma_json_encodes_seq(vals.drop_first(), elems.drop_first(), recs);
        let tv = vals.drop_first();
        let te = elems.drop_first();
        if json_encodes(vals[0], elems[0], recs) && json_encodes_seq(tv, te, recs) {
            assert forall|k: int| 0 <= k < vals.len() implies json_encodes(
                #[trigger] vals[k],
                elems[k],
                recs,
            ) by {
                if k > 0 {
                    assert(tv[k - 1] == vals[k] && te[k - 1] == elems[k]);
                    assert(json_encodes(tv[k - 1], te[k - 1], recs));
                }
            }
        }
        if forall|k: int| 0 <= k < vals.len() ==> json_encodes(#[trigger] vals[k], elems[k], recs) {
            assert forall|k: int| 0 <= k < tv.len() implies json_encodes(
                #[trigger] tv[k],
                te[k],
                recs,
            ) by {
                assert(tv[k] == vals[k + 1] && te[k] == elems[k + 1]);
            }
        }
    }
}


/// Whether an interface value has a JSON encoding: everything except 32-bit
/// float values and records that do not resolve against the registry.
pub open spec fn json_encodable(vm: IValueModel, recs: Seq<RecordType>) -> bool
    decreases vm,
{
    match vm {
        IValueModel::F32Bits(_) => false,
        IValueModel::Record(id, vals) => {
            &&& 1 <= id <= recs.len()
            &&& vals.len() == recs[id - 1].fields@.len()
            &&& all_json_encodable(vals, recs)
        },
        IValueModel::Array(vals) => all_json_encodable(vals, recs),
        _ => true,
    }
}

/// Whether every value in the sequence has a JSON encoding.
pub open spec fn all_json_encodable(vals: Seq<IValueModel>, recs: Seq<RecordType>) -> bool
    decreases vals,
{
    if vals.len() == 0 {
        true
    } else {
        json_encodable(vals[0], recs) && all_json_encodable(vals.drop_first(), recs)
    }
}

/// `all_json_encodable` is the elementwise encodability.
pub proof fn lemma_all_json_encodable(vals: Seq<IValueModel>, recs: Seq<RecordType>)
    ensures
        all_json_encodable(vals, recs) <==> (forall|k: int|
            0 <= k < vals.len() ==> json_encodable(#[trigger] vals[k], recs)),
    decreases vals.len(),
{
    if vals.len() > 0 {
        lemma_all_json_encodable(vals.drop_first(), recs);
        let tv = vals.drop_first();
        if json_encodable(vals[0], recs) && all_json_encodable(tv, recs) {
            assert forall|k: int| 0 <= k < vals.len() implies json_encodable(
                #[trigger] vals[k],
                recs,
            ) by {
                if k > 0 {
                    assert(tv[k - 1] == vals[k]);
                    assert(json_encodable(tv[k - 1], recs));
                }
            }
        }
        if forall|k: int| 0 <= k < vals.len() ==> json_encodable(#[trigger] vals[k], recs) {
            assert forall|k: int| 0 <= k < tv.len() implies json_encodable(
                #[trigger] tv[k],
                recs,
            ) by {
                assert(tv[k] == vals[k + 1]);
            }
        }
    }
}

/// Encodes one interface value as JSON with the mirror mapping: exactly as
/// `json_encodes` states, and succeeds exactly for encodable values (a
/// 32-bit float value has no lossless JSON carrier here and is refused, and
/// a record must resolve against the registry with matching arity).
pub fn ivalue_to_json(v: &IValue, recs: &RecordRegistry) -> (r: Result<JsonValue, EngineError>)
    ensures
        r matches Ok(j) ==> json_encodes(ivalue_model(*v), j, recs@),
        r is Ok <==> json_encodable(ivalue_model(*v), recs@),
        r matches Err(e) ==> (e is JsonSchemaMismatch || e is UnknownRecord),
    decreases v,
{
    match v {
        IValue::S8(x) => Ok(JsonValue::Int(*x as i64)),
        IValue::S16(x) => Ok(JsonValue::Int(*x as i64)),
        IValue::S32(x) => Ok(JsonValue::Int(*x as i64)),
        IValue::S64(x) => Ok(JsonValue::Int(*x)),
        IValue::U8(x) => Ok(JsonValue::Int(*x as i64)),
        IValue::U16(x) => Ok(JsonValue::Int(*x as i64)),
        IValue::U32(x) => Ok(JsonValue::Int(*x as i64)),
        IValue::U64(x) => Ok(JsonValue::UInt(*x)),
        IValue::F32Bits(_) => Err(EngineError::JsonSchemaMismatch),
        IValue::F64Bits(bits) => Ok(JsonValue::Float(*bits)),
        IValue::Utf8String(s) => Ok(JsonValue::Text(s.clone())),
        IValue::ByteArray(bytes) => {
            let mut elems: Vec<JsonValue> = Vec::new();
            let mut i: usize = 0;
            while i < bytes.len()
                invariant
                    i <= bytes@.len(),
                    *v == IValue::ByteArray(*bytes),
                    elems@.len() == i,
                    forall|m: int|
                        0 <= m < i ==> #[trigger] elems@[m] == JsonValue::Int(bytes@[m] as i64),
                decreases bytes@.len() - i,
            {
                elems.push(JsonValue::Int(bytes[i] as i64));
                i = i + 1;
            }
            Ok(JsonValue::Array(elems))
        },
        IValue::Record(id, vals) => {
            proof {
                lemma_ivalues_model(vals@);
                lemma_all_json_encodable(ivalues_model(vals@), recs@);
            }
            let rec = match recs.resolve(*id) {
                Some(rec) => rec,
                None => {
                    return Err(EngineError::UnknownRecord(*id));
                },
            };
            if vals.len() != rec.fields.len() {
                return Err(EngineError::UnknownRecord(*id));
            }
            let mut members: Vec<JsonMember> = Vec::new();
            let mut k: usize = 0;
            while k < vals.len()
                invariant
                    k <= vals@.len(),
                    *v == IValue::Record(*id, *vals),
                    vals@.len() == rec.fields@.len(),
                    1 <= *id <= recs@.len(),
                    *rec == recs@[*id - 1],
                    ivalues_model(vals@).len() == vals@.len(),
                    forall|m: int|
                        0 <= m < vals@.len() ==> ivalues_model(vals@)[m] == ivalue_model(
                            vals@[m],
                        ),
                    members@.len() == k,
                    forall|m: int|
                        0 <= m < k ==> (#[trigger] members@[m]).name@ == recs@[*id
                            - 1].fields@[m].name@ && json_encodes(
                            ivalues_model(vals@)[m],
                            members@[m].value,
                            recs@,
                        ),
                    forall|m: int|
                        0 <= m < k ==> json_encodable(#[trigger] ivalues_model(vals@)[m], recs@),
                decreases vals@.len() - k,
            {
                let elem: &IValue = match v {
                    IValue::Record(_, vs) => &vs[k],
                    _ => {
                        proof {
                            assert(false);
                        }
                        return Err(EngineError::UnknownRecord(*id));
                    },
                };
                let jv = match ivalue_to_json(elem, recs) {
                    Ok(jv) => jv,
                    Err(e) => {
                        proof {
                            lemma_all_json_encodable(ivalues_model(vals@), recs@);
                            assert(!json_encodable(ivalues_model(vals@)[k as int], recs@));
                        }
                        return Err(e);
                    },
                };
                members.push(JsonMember { name: rec.fields[k].name.clone(), value: jv });
                k = k + 1;
            }
            proof {
                lemma_all_json_encodable(ivalues_model(vals@), recs@);
                lemma_json_encodes_members(
                    ivalues_model(vals@),
                    recs@[*id - 1].fields.deep_view(),
                    members@,
                    recs@,
                );
                assert forall|m: int| 0 <= m < vals@.len() implies (#[trigger] members@[m]).name@
                    == recs@[*id - 1].fields.deep_view()[m].0 && json_encodes(
                    ivalues_model(vals@)[m],
                    members@[m].value,
                    recs@,
                ) by {
                    assert(recs@[*id - 1].fields.deep_view()[m] == recs@[*id
                        - 1].fields@[m].deep_view());
                }
            }
            Ok(JsonValue::Object(members))
        },
        IValue::Array(vals) => {
            proof {
                lemma_ivalues_model(vals@);
                lemma_all_json_encodable(ivalues_model(vals@), recs@);
            }
            let mut elems: Vec<JsonValue> = Vec::new();
            let mut k: usize = 0;
            while k < vals.len()
                invariant
                    k <= vals@.len(),
                    *v == IValue::Array(*vals),
                    ivalues_model(vals@).len() == vals@.len(),
                    forall|m: int|
                        0 <= m < vals@.len() ==> ivalues_model(vals@)[m] == ivalue_model(
                            vals@[m],
                        ),
                    elems@.len() == k,
                    forall|m: int|
                        0 <= m < k ==> json_encodes(
                            #[trigger] ivalues_model(vals@)[m],
                            elems@[m],
                            recs@,
                        ),
                    forall|m: int|
                        0 <= m < k ==> json_encodable(#[trigger] ivalues_model(vals@)[m], recs@),
                decreases vals@.len() - k,
            {
                let elem: &IValue = match v {
                    IValue::Array(vs) => &vs[k],
                    _ => {
                        proof {
                            assert(false);
                        }
                        return Err(EngineError::JsonSchemaMismatch);
                    },
                };
                let jv = match ivalue_to_json(elem, recs) {
                    Ok(jv) => jv,
                    Err(e) => {
                        proof {
                            lemma_all_json_encodable(ivalues_model(vals@), recs@);
                            assert(!json_encodable(ivalues_model(vals@)[k as int], recs@));
                        }
                        return Err(e);
                    },
                };
                elems.push(jv);
                k = k + 1;
            }
            proof {
                lemma_all_json_encodable(ivalues_model(vals@), recs@);
                lemma_json_encodes_seq(ivalues_model(vals@), elems@, recs@);
            }
            Ok(JsonValue::Array(elems))
        },
    }
}

/// Encodes the result values of a call: `Null` for no output, the encoding
/// of the single output otherwise; more than one residual value is an
/// error, matching the single-output discipline of signatures.
pub fn ivalues_to_json(values: &Vec<IValue>, recs: &RecordRegistry) -> (r: Result<
    JsonValue,
    EngineError,
>)
    ensures
        values@.len() == 0 ==> (r matches Ok(j) && j is Null),
        values@.len() == 1 ==> match r {
            Ok(j) => json_encodes(ivalue_model(values@[0]), j, recs@),
            Err(e) => !json_encodable(ivalue_model(values@[0]), recs@) && (e is JsonSchemaMismatch
                || e is UnknownRecord),
        },
        values@.len() > 1 ==> (r matches Err(e) && e is AdapterResidualStack),
{
    if values.len() == 0 {
        Ok(JsonValue::Null)
    } else if values.len() == 1 {
        ivalue_to_json(&values[0], recs)
    } else {
        Err(EngineError::AdapterResidualStack)
    }
}

} // verus!
