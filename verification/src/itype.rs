//! The interface-type catalog: the interface-value universe the adapter
//! machinery marshals, the parallel core (Wasm) value universe, function
//! signatures, and the per-module record-type registry.
use vstd::prelude::*;

use crate::errors::EngineError;

verus! {

/// A core Wasm value type. Floating-point core values are carried by their
/// bit patterns; the engine never does arithmetic on them.
#[derive(Clone, Copy, Debug, PartialEq, Eq, Structural)]
pub enum CoreType {
    I32,
    I64,
    F32,
    F64,
}

/// A core Wasm value. `F32Bits`/`F64Bits` hold the IEEE-754 bit patterns.
#[derive(Clone, Copy, Debug, PartialEq, Eq, Structural)]
pub enum CoreValue {
    I32(i32),
    I64(i64),
    F32Bits(u32),
    F64Bits(u64),
}

impl CoreValue {
    /// Whether this core value inhabits the given core type.
    pub open spec fn has_core_type(self, t: CoreType) -> bool {
        match (self, t) {
            (CoreValue::I32(_), CoreType::I32) => true,
            (CoreValue::I64(_), CoreType::I64) => true,
            (CoreValue::F32Bits(_), CoreType::F32) => true,
            (CoreValue::F64Bits(_), CoreType::F64) => true,
            _ => false,
        }
    }
}

/// An interface type: the higher-level type universe above core Wasm.
/// `Record` carries the non-zero ID of a registered record type.
#[derive(Debug)]
pub enum IType {
    S8,
    S16,
    S32,
    S64,
    U8,
    U16,
    U32,
    U64,
    F32,
    F64,
    Utf8String,
    ByteArray,
    Record(u32),
    Array(Box<IType>),
}

/// An interface value, parallel to `IType`. Floats are carried as bit
/// patterns so the marshalling layer never touches floating point itself.
#[derive(Debug)]
pub enum IValue {
    S8(i8),
    S16(i16),
    S32(i32),
    S64(i64),
    U8(u8),
    U16(u16),
    U32(u32),
    U64(u64),
    F32Bits(u32),
    F64Bits(u64),
    Utf8String(String),
    ByteArray(Vec<u8>),
    Record(u32, Vec<IValue>),
    Array(Vec<IValue>),
}

/// One field of a record type: a name and an interface type.
#[derive(Debug)]
pub struct RecordField {
    pub name: String,
    pub ty: IType,
}

impl DeepView for RecordField {
    type V = (Seq<char>, IType);

    open spec fn deep_view(&self) -> (Seq<char>, IType) {
        (self.name@, self.ty)
    }
}

impl Clone for RecordField {
    fn clone(&self) -> (r: Self)
        ensures
            r.deep_view() == self.deep_view(),
    {
        RecordField { name: self.name.clone(), ty: self.ty.clone() }
    }
}

/// A record type: a logical name and an ordered list of fields. Identified
/// by the non-zero ID the registry assigned at registration.
#[derive(Debug)]
pub struct RecordType {
    pub name: String,
    pub fields: Vec<RecordField>,
}

impl DeepView for RecordType {
    type V = (Seq<char>, Seq<(Seq<char>, IType)>);

    open spec fn deep_view(&self) -> (Seq<char>, Seq<(Seq<char>, IType)>) {
        (self.name@, self.fields.deep_view())
    }
}

/// One named argument of an exported function.
#[derive(Debug)]
pub struct FunctionArg {
    pub name: String,
    pub ty: IType,
}

impl DeepView for FunctionArg {
    type V = (Seq<char>, IType);

    open spec fn deep_view(&self) -> (Seq<char>, IType) {
        (self.name@, self.ty)
    }
}

impl Clone for FunctionArg {
    fn clone(&self) -> (r: Self)
        ensures
            r.deep_view() == self.deep_view(),
    {
        FunctionArg { name: self.name.clone(), ty: self.ty.clone() }
    }
}

/// A function signature: zero or one output.
#[derive(Debug)]
pub struct FunctionSignature {
    pub name: String,
    pub arguments: Vec<FunctionArg>,
    pub outputs: Vec<IType>,
}

impl DeepView for FunctionSignature {
    type V = (Seq<char>, Seq<(Seq<char>, IType)>, Seq<IType>);

    open spec fn deep_view(&self) -> (Seq<char>, Seq<(Seq<char>, IType)>, Seq<IType>) {
        (self.name@, self.arguments.deep_view(), self.outputs@)
    }
}

/// Clones a list of interface types element by element.
pub fn clone_itypes(ts: &Vec<IType>) -> (r: Vec<IType>)
    ensures
        r@ =~= ts@,
{
    let mut out: Vec<IType> = Vec::new();
    let mut i: usize = 0;
    while i < ts.len()
        invariant
            i <= ts@.len(),
            out@ =~= ts@.subrange(0, i as int),
        decreases ts@.len() - i,
    {
        out.push(ts[i].clone());
        proof {
            assert(out@ =~= ts@.subrange(0, i as int + 1));
        }
        i = i + 1;
    }
    proof {
        assert(out@ =~= ts@);
    }
    out
}

impl Clone for FunctionSignature {
    fn clone(&self) -> (r: Self)
        ensures
            r.deep_view() == self.deep_view(),
    {
        let mut arguments: Vec<FunctionArg> = Vec::new();
        let mut i: usize = 0;
        while i < self.arguments.len()
            invariant
                i <= self.arguments@.len(),
                arguments@.len() == i,
                forall|j: int|
                    0 <= j < i ==> (#[trigger] arguments@[j]).deep_view()
                        == self.arguments@[j].deep_view(),
            decreases self.arguments@.len() - i,
        {
            arguments.push(self.arguments[i].clone());
            i = i + 1;
        }
        proof {
            assert(arguments.deep_view() =~= self.arguments.deep_view());
        }
        FunctionSignature {
            name: self.name.clone(),
            arguments,
            outputs: clone_itypes(&self.outputs),
        }
    }
}

impl Clone for IType {
    fn clone(&self) -> (r: Self)
        ensures
            r == *self,
        decreases self,
    {
        match self {
            IType::S8 => IType::S8,
            IType::S16 => IType::S16,
            IType::S32 => IType::S32,
            IType::S64 => IType::S64,
            IType::U8 => IType::U8,
            IType::U16 => IType::U16,
            IType::U32 => IType::U32,
            IType::U64 => IType::U64,
            IType::F32 => IType::F32,
            IType::F64 => IType::F64,
            IType::Utf8String => IType::Utf8String,
            IType::ByteArray => IType::ByteArray,
            IType::Record(id) => IType::Record(*id),
            IType::Array(inner) => IType::Array(Box::new((**inner).clone())),
        }
    }
}

/// The mathematical model of an interface value: strings and vectors become
/// sequences, so equality of models is the value equality the contracts of
/// this crate speak of.
#[verifier::ext_equal]
pub enum IValueModel {
    S8(i8),
    S16(i16),
    S32(i32),
    S64(i64),
    U8(u8),
    U16(u16),
    U32(u32),
    U64(u64),
    F32Bits(u32),
    F64Bits(u64),
    Utf8String(Seq<char>),
    ByteArray(Seq<u8>),
    Record(u32, Seq<IValueModel>),
    Array(Seq<IValueModel>),
}

/// The model of an interface value.
pub open spec fn ivalue_model(v: IValue) -> IValueModel
    decreases v,
    via ivalue_model_decreases
{
    match v {
        IValue::S8(x) => IValueModel::S8(x),
        IValue::S16(x) => IValueModel::S16(x),
        IValue::S32(x) => IValueModel::S32(x),
        IValue::S64(x) => IValueModel::S64(x),
        IValue::U8(x) => IValueModel::U8(x),
        IValue::U16(x) => IValueModel::U16(x),
        IValue::U32(x) => IValueModel::U32(x),
        IValue::U64(x) => IValueModel::U64(x),
        IValue::F32Bits(x) => IValueModel::F32Bits(x),
        IValue::F64Bits(x) => IValueModel::F64Bits(x),
        IValue::Utf8String(s) => IValueModel::Utf8String(s@),
        IValue::ByteArray(b) => IValueModel::ByteArray(b@),
        IValue::Record(id, vals) => IValueModel::Record(id, ivalues_model(vals@)),
        IValue::Array(vals) => IValueModel::Array(ivalues_model(vals@)),
    }
}

/// The models of a sequence of interface values, elementwise.
pub open spec fn ivalues_model(s: Seq<IValue>) -> Seq<IValueModel>
    decreases s,
{
    if s.len() == 0 {
        Seq::empty()
    } else {
        seq![ivalue_model(s[0])] + ivalues_model(s.drop_first())
    }
}

#[via_fn]
proof fn ivalue_model_decreases(v: IValue) {
    broadcast use vstd::std_specs::vec::group_vec_axioms;

    match v {
        IValue::Record(id, vals) => {
            assert(decreases_to!(v => vals));
            assert(decreases_to!(vals => vals@));
        },
        IValue::Array(vals) => {
            assert(decreases_to!(v => vals));
            assert(decreases_to!(vals => vals@));
        },
        _ => {},
    }
}

/// `ivalues_model` is the elementwise map of `ivalue_model`.
pub proof fn lemma_ivalues_model(s: Seq<IValue>)
    ensures
        ivalues_model(s).len() == s.len(),
        forall|i: int| 0 <= i < s.len() ==> ivalues_model(s)[i] == ivalue_model(s[i]),
    decreases s.len(),
{
    if s.len() > 0 {
        lemma_ivalues_model(s.drop_first());
    }
}

impl DeepView for IValue {
    type V = IValueModel;

    open spec fn deep_view(&self) -> IValueModel {
        ivalue_model(*self)
    }
}

impl Clone for IValue {
    fn clone(&self) -> (r: Self)
        ensures
            r.deep_view() == self.deep_view(),
        decreases self,
    {
        match self {
            IValue::S8(x) => IValue::S8(*x),
            IValue::S16(x) => IValue::S16(*x),
            IValue::S32(x) => IValue::S32(*x),
            IValue::S64(x) => IValue::S64(*x),
            IValue::U8(x) => IValue::U8(*x),
            IValue::U16(x) => IValue::U16(*x),
            IValue::U32(x) => IValue::U32(*x),
            IValue::U64(x) => IValue::U64(*x),
            IValue::F32Bits(x) => IValue::F32Bits(*x),
            IValue::F64Bits(x) => IValue::F64Bits(*x),
            IValue::Utf8String(s) => IValue::Utf8String(s.clone()),
            IValue::ByteArray(b) => {
                let out = b.clone();
                proof {
                    assert(out@ =~= b@);
                }
                IValue::ByteArray(out)
            },
            IValue::Record(id, vals) => {
                let cloned = clone_ivalues(vals);
                proof {
                    lemma_ivalues_model(cloned@);
                    lemma_ivalues_model(vals@);
                    assert(ivalues_model(cloned@) =~= ivalues_model(vals@));
                }
                IValue::Record(*id, cloned)
            },
            IValue::Array(vals) => {
                let cloned = clone_ivalues(vals);
                proof {
                    lemma_ivalues_model(cloned@);
                    lemma_ivalues_model(vals@);
                    assert(ivalues_model(cloned@) =~= ivalues_model(vals@));
                }
                IValue::Array(cloned)
            },
        }
    }
}

/// Clones a vector of interface values element by element, preserving the
/// mathematical model of every element.
pub fn clone_ivalues(vals: &Vec<IValue>) -> (r: Vec<IValue>)
    ensures
        r@.len() == vals@.len(),
        forall|j: int| 0 <= j < vals@.len() ==> r@[j].deep_view() == vals@[j].deep_view(),
    decreases vals,
{
    let mut out: Vec<IValue> = Vec::new();
    let mut i: usize = 0;
    while i < vals.len()
        invariant
            i <= vals@.len(),
            out@.len() == i,
            forall|j: int| 0 <= j < i ==> out@[j].deep_view() == vals@[j].deep_view(),
        decreases vals@.len() - i,
    {
        let c = vals[i].clone();
        out.push(c);
        i = i + 1;
    }
    out
}

/// Structural equality of two interface types.
pub fn itype_eq(a: &IType, b: &IType) -> (r: bool)
    ensures
        r <==> (a == b),
    decreases a,
{
    match (a, b) {
        (IType::S8, IType::S8) => true,
        (IType::S16, IType::S16) => true,
        (IType::S32, IType::S32) => true,
        (IType::S64, IType::S64) => true,
        (IType::U8, IType::U8) => true,
        (IType::U16, IType::U16) => true,
        (IType::U32, IType::U32) => true,
        (IType::U64, IType::U64) => true,
        (IType::F32, IType::F32) => true,
        (IType::F64, IType::F64) => true,
        (IType::Utf8String, IType::Utf8String) => true,
        (IType::ByteArray, IType::ByteArray) => true,
        (IType::Record(x), IType::Record(y)) => x == y,
        (IType::Array(x), IType::Array(y)) => itype_eq(x, y),
        _ => false,
    }
}

/// Whether every `Record` reference inside `t` names an ID in `1..bound`.
pub open spec fn itype_refs_below(t: IType, bound: int) -> bool
    decreases t,
{
    match t {
        IType::Record(id) => 1 <= id < bound,
        IType::Array(inner) => itype_refs_below(*inner, bound),
        _ => true,
    }
}

/// Record references below one bound stay below any larger bound.
pub proof fn lemma_itype_refs_below_mono(t: IType, b1: int, b2: int)
    requires
        itype_refs_below(t, b1),
        b1 <= b2,
    ensures
        itype_refs_below(t, b2),
    decreases t,
{
    match t {
        IType::Array(inner) => {
            lemma_itype_refs_below_mono(*inner, b1, b2);
        },
        _ => {},
    }
}

/// Whether an interface value inhabits an interface type, resolving record
/// references against the given registered record types (ID `k` lives at
/// index `k - 1`).
pub open spec fn value_has_itype(v: IValueModel, t: IType, recs: Seq<RecordType>) -> bool
    decreases v,
{
    match v {
        IValueModel::S8(_) => t is S8,
        IValueModel::S16(_) => t is S16,
        IValueModel::S32(_) => t is S32,
        IValueModel::S64(_) => t is S64,
        IValueModel::U8(_) => t is U8,
        IValueModel::U16(_) => t is U16,
        IValueModel::U32(_) => t is U32,
        IValueModel::U64(_) => t is U64,
        IValueModel::F32Bits(_) => t is F32,
        IValueModel::F64Bits(_) => t is F64,
        IValueModel::Utf8String(_) => t is Utf8String,
        IValueModel::ByteArray(_) => t is ByteArray,
        IValueModel::Record(id, vals) => match t {
            IType::Record(tid) => {
                &&& tid == id
                &&& 1 <= id <= recs.len()
                &&& values_match_fields(vals, recs[id - 1].fields.deep_view(), recs)
            },
            _ => false,
        },
        IValueModel::Array(vals) => match t {
            IType::Array(inner) => values_have_itype(vals, *inner, recs),
            _ => false,
        },
    }
}

/// Whether each value inhabits the type of the field at the same position.
pub open spec fn values_match_fields(
    vals: Seq<IValueModel>,
    fields: Seq<(Seq<char>, IType)>,
    recs: Seq<RecordType>,
) -> bool
    decreases vals,
{
    if vals.len() != fields.len() {
        false
    } else if vals.len() == 0 {
        true
    } else {
        value_has_itype(vals[0], fields[0].1, recs) && values_match_fields(
            vals.drop_first(),
            fields.drop_first(),
            recs,
        )
    }
}

/// Whether every value in the sequence inhabits `t`.
pub open spec fn values_have_itype(vals: Seq<IValueModel>, t: IType, recs: Seq<RecordType>) -> bool
    decreases vals,
{
    if vals.len() == 0 {
        true
    } else {
        value_has_itype(vals[0], t, recs) && values_have_itype(vals.drop_first(), t, recs)
    }
}

/// `values_match_fields` is the elementwise typing of a record's values.
pub proof fn lemma_values_match_fields(
    vals: Seq<IValueModel>,
    fields: Seq<(Seq<char>, IType)>,
    recs: Seq<RecordType>,
)
    ensures
        values_match_fields(vals, fields, recs) <==> (vals.len() == fields.len() && forall|i: int|
            0 <= i < vals.len() ==> value_has_itype(#[trigger] vals[i], fields[i].1, recs)),
    decreases vals.len(),
{
    if vals.len() == fields.len() && vals.len() > 0 {
        lemma_values_match_fields(vals.drop_first(), fields.drop_first(), recs);
        let tail_vals = vals.drop_first();
        let tail_fields = fields.drop_first();
        if value_has_itype(vals[0], fields[0].1, recs) && values_match_fields(
            tail_vals,
            tail_fields,
            recs,
        ) {
            assert forall|i: int| 0 <= i < vals.len() implies value_has_itype(
                #[trigger] vals[i],
                fields[i].1,
                recs,
            ) by {
                if i > 0 {
                    assert(tail_vals[i - 1] == vals[i]);
                    assert(tail_fields[i - 1] == fields[i]);
                    assert(value_has_itype(tail_vals[i - 1], tail_fields[i - 1].1, recs));
                }
            }
        }
        if vals.len() == fields.len() && (forall|i: int|
            0 <= i < vals.len() ==> value_has_itype(#[trigger] vals[i], fields[i].1, recs)) {
            assert forall|i: int| 0 <= i < tail_vals.len() implies value_has_itype(
                #[trigger] tail_vals[i],
                tail_fields[i].1,
                recs,
            ) by {
                assert(tail_vals[i] == vals[i + 1]);
                assert(tail_fields[i] == fields[i + 1]);
                assert(value_has_itype(vals[i + 1], fields[i + 1].1, recs));
            }
        }
    }
}

/// `values_have_itype` is the elementwise typing of an array's values.
pub proof fn lemma_values_have_itype(vals: Seq<IValueModel>, t: IType, recs: Seq<RecordType>)
    ensures
        values_have_itype(vals, t, recs) <==> (forall|i: int|
            0 <= i < vals.len() ==> value_has_itype(#[trigger] vals[i], t, recs)),
    decreases vals.len(),
{
    if vals.len() > 0 {
        lemma_values_have_itype(vals.drop_first(), t, recs);
        let tail = vals.drop_first();
        if value_has_itype(vals[0], t, recs) && values_have_itype(tail, t, recs) {
            assert forall|i: int| 0 <= i < vals.len() implies value_has_itype(
                #[trigger] vals[i],
                t,
                recs,
            ) by {
                if i > 0 {
                    assert(tail[i - 1] == vals[i]);
                    assert(value_has_itype(tail[i - 1], t, recs));
                }
            }
        }
        if forall|i: int| 0 <= i < vals.len() ==> value_has_itype(#[trigger] vals[i], t, recs) {
            assert forall|i: int| 0 <= i < tail.len() implies value_has_itype(
                #[trigger] tail[i],
                t,
                recs,
            ) by {
                assert(tail[i] == vals[i + 1]);
            }
        }
    }
}

/// The registry of record types of one module: append-only during the
/// module's lifetime, IDs dense from 1 in registration order.
#[derive(Debug)]
pub struct RecordRegistry {
    records: Vec<RecordType>,
}

impl View for RecordRegistry {
    type V = Seq<RecordType>;

    closed spec fn view(&self) -> Seq<RecordType> {
        self.records@
    }
}

impl RecordRegistry {
    /// Every registered record references only records registered before it,
    /// so record recursion is well-founded.
    pub open spec fn well_formed(&self) -> bool {
        &&& self@.len() < 0x1_0000_0000
        &&& forall|i: int, j: int|
            0 <= i < self@.len() && 0 <= j < self@[i].fields@.len() ==> itype_refs_below(
                (#[trigger] self@[i].fields@[j]).ty,
                i + 1,
            )
    }

    /// An empty registry.
    pub fn new() -> (r: RecordRegistry)
        ensures
            r@ =~= Seq::<RecordType>::empty(),
            r.well_formed(),
    {
        RecordRegistry { records: Vec::new() }
    }

    /// How many records are registered.
    pub fn len(&self) -> (r: usize)
        ensures
            r == self@.len(),
    {
        self.records.len()
    }

    /// Resolves a record type by its ID in O(1); `None` exactly when the ID
    /// is zero or not yet assigned.
    pub fn resolve(&self, id: u32) -> (r: Option<&RecordType>)
        ensures
            1 <= id <= self@.len() ==> (r matches Some(t) && *t == self@[id - 1]),
            !(1 <= id <= self@.len()) ==> r is None,
    {
        if id >= 1 && ((id - 1) as usize) < self.records.len() {
            Some(&self.records[(id - 1) as usize])
        } else {
            None
        }
    }

    /// Registers a record type, assigning the next dense ID. Registration
    /// succeeds whenever every field reference resolves and no record of a
    /// different shape already bears the name; re-registering an identical
    /// shape under the same name returns the existing ID. A field
    /// referencing an unknown record ID fails with `UnresolvedRecordRef`, a
    /// known name with a different shape fails with `DuplicateRecord`, and
    /// an exhausted ID space (beyond any real registry) fails with
    /// `InstantiationError`.
    pub fn register_record(&mut self, name: String, fields: Vec<RecordField>) -> (r: Result<
        u32,
        EngineError,
    >)
        requires
            old(self).well_formed(),
        ensures
            final(self).well_formed(),
            r matches Ok(id) ==> {
                &&& 1 <= id <= final(self)@.len()
                &&& final(self)@[id - 1].name@ == name@
                &&& final(self)@[id - 1].fields.deep_view() == fields.deep_view()
                &&& final(self)@ == register_step(old(self)@, RecordType { name, fields })
            },
            r matches Err(e) ==> {
                &&& final(self)@ == old(self)@
                &&& (e is DuplicateRecord || e is UnresolvedRecordRef || e is InstantiationError)
                &&& (e is InstantiationError ==> old(self)@.len() >= 0xffff_fffe)
            },
            (exists|j: int|
                0 <= j < fields@.len() && !itype_refs_below(
                    (#[trigger] fields@[j]).ty,
                    old(self)@.len() as int + 1,
                )) <==> (r matches Err(e) && e is UnresolvedRecordRef),
            r matches Err(e) && e is DuplicateRecord ==> exists|i: int|
                {
                    &&& 0 <= i < old(self)@.len()
                    &&& (#[trigger] old(self)@[i]).name@ == name@
                    &&& old(self)@[i].fields.deep_view() != fields.deep_view()
                },
            r matches Err(e) ==> (e matches EngineError::DuplicateRecord(n) ==> n@ == name@),
            record_registrable(old(self)@, RecordType { name, fields }) ==> r is Ok,
    {
        // Every record reference inside the new fields must already resolve.
        let mut i: usize = 0;
        while i < fields.len()
            invariant
                i <= fields@.len(),
                *self == *old(self),
                old(self).well_formed(),
                forall|j: int|
                    0 <= j < i ==> itype_refs_below(
                        (#[trigger] fields@[j]).ty,
                        self@.len() as int + 1,
                    ),
            decreases fields@.len() - i,
        {
            match itype_first_unresolved(&fields[i].ty, self.records.len()) {
                Some(bad) => {
                    return Err(EngineError::UnresolvedRecordRef(bad));
                },
                None => {},
            }
            i = i + 1;
        }
        // A record already registered under this name must have the same shape.
        let mut k: usize = 0;
        while k < self.records.len()
            invariant
                k <= self@.len(),
                *self == *old(self),
                old(self).well_formed(),
                forall|k2: int| 0 <= k2 < k ==> (#[trigger] self@[k2]).name@ != name@,
                forall|j: int|
                    0 <= j < fields@.len() ==> itype_refs_below(
                        (#[trigger] fields@[j]).ty,
                        old(self)@.len() as int + 1,
                    ),
            decreases self@.len() - k,
        {
            if self.records[k].name == name {
                if record_fields_eq(&self.records[k].fields, &fields) {
                    return Ok((k + 1) as u32);
                } else {
                    return Err(EngineError::DuplicateRecord(name));
                }
            }
            k = k + 1;
        }
        if self.records.len() >= 0xffff_fffe {
            return Err(EngineError::InstantiationError(name));
        }
        let id = (self.records.len() + 1) as u32;
        self.records.push(RecordType { name, fields });
        Ok(id)
    }
}

/// Whether registering `rt` against the registry contents `regs` succeeds:
/// every field reference resolves, any record already bearing the name has
/// the same shape, and the ID space is not exhausted.
pub open spec fn record_registrable(regs: Seq<RecordType>, rt: RecordType) -> bool {
    &&& (forall|j: int|
        0 <= j < rt.fields@.len() ==> itype_refs_below(
            (#[trigger] rt.fields@[j]).ty,
            regs.len() as int + 1,
        ))
    &&& (forall|i: int|
        0 <= i < regs.len() && (#[trigger] regs[i]).name@ == rt.name@ ==> regs[
            i
        ].fields.deep_view() == rt.fields.deep_view())
    &&& regs.len() < 0xffff_fffe
}

/// The registry contents after one successful registration: unchanged when
/// a record of that name is already present, appended otherwise.
pub open spec fn register_step(regs: Seq<RecordType>, rt: RecordType) -> Seq<RecordType> {
    if exists|i: int| 0 <= i < regs.len() && (#[trigger] regs[i]).name@ == rt.name@ {
        regs
    } else {
        regs.push(rt)
    }
}

/// The registry contents after registering a list of record types, in
/// order, into an empty registry.
pub open spec fn registry_after(rts: Seq<RecordType>) -> Seq<RecordType>
    decreases rts.len(),
{
    if rts.len() == 0 {
        Seq::empty()
    } else {
        register_step(registry_after(rts.drop_last()), rts.last())
    }
}

/// Whether registering the whole list, in order, into an empty registry
/// succeeds at every step.
pub open spec fn records_registrable(rts: Seq<RecordType>) -> bool
    decreases rts.len(),
{
    rts.len() == 0 || (records_registrable(rts.drop_last()) && record_registrable(
        registry_after(rts.drop_last()),
        rts.last(),
    ))
}

/// A registrable list has every prefix registrable.
pub proof fn lemma_registrable_prefix(rts: Seq<RecordType>, k: int)
    requires
        records_registrable(rts),
        0 <= k <= rts.len(),
    ensures
        records_registrable(rts.subrange(0, k)),
    decreases rts.len(),
{
    if k == rts.len() {
        assert(rts.subrange(0, k) =~= rts);
    } else {
        let pre = rts.drop_last();
        assert(pre =~= rts.subrange(0, rts.len() - 1));
        lemma_registrable_prefix(pre, k);
        assert(pre.subrange(0, k) =~= rts.subrange(0, k));
    }
}

/// The registry never holds more records than were offered.
pub proof fn lemma_registry_after_len(rts: Seq<RecordType>)
    ensures
        registry_after(rts).len() <= rts.len(),
    decreases rts.len(),
{
    if rts.len() > 0 {
        lemma_registry_after_len(rts.drop_last());
    }
}

/// Returns the first record ID referenced by `t` that is not in `1..=known`,
/// or `None` when every reference resolves.
pub fn itype_first_unresolved(t: &IType, known: usize) -> (r: Option<u32>)
    ensures
        r is None <==> itype_refs_below(*t, known + 1),
    decreases t,
{
    match t {
        IType::Record(id) => {
            if *id >= 1 && (*id as usize) <= known {
                None
            } else {
                Some(*id)
            }
        },
        IType::Array(inner) => itype_first_unresolved(inner, known),
        _ => None,
    }
}

/// Structural equality of two field lists: same names, same types, in order.
pub fn record_fields_eq(a: &Vec<RecordField>, b: &Vec<RecordField>) -> (r: bool)
    ensures
        r <==> a.deep_view() == b.deep_view(),
{
    if a.len() != b.len() {
        proof {
            assert(a.deep_view().len() == a@.len());
            assert(b.deep_view().len() == b@.len());
        }
        return false;
    }
    let mut i: usize = 0;
    while i < a.len()
        invariant
            i <= a@.len(),
            a@.len() == b@.len(),
            forall|j: int| 0 <= j < i ==> a.deep_view()[j] == b.deep_view()[j],
        decreases a@.len() - i,
    {
        let names_eq = a[i].name == b[i].name;
        if !names_eq || !itype_eq(&a[i].ty, &b[i].ty) {
            proof {
                assert(a.deep_view()[i as int] == (a@[i as int].name@, a@[i as int].ty));
                assert(b.deep_view()[i as int] == (b@[i as int].name@, b@[i as int].ty));
            }
            return false;
        }
        i = i + 1;
    }
    proof {
        assert(a.deep_view() =~= b.deep_view());
    }
    true
}

/// Appending a value appends its model.
pub proof fn lemma_ivalues_model_push(s: Seq<IValue>, x: IValue)
    ensures
        ivalues_model(s.push(x)) =~= ivalues_model(s).push(ivalue_model(x)),
{
    lemma_ivalues_model(s.push(x));
    lemma_ivalues_model(s);
}

/// Dropping the last value drops its model.
pub proof fn lemma_ivalues_model_drop_last(s: Seq<IValue>)
    requires
        s.len() > 0,
    ensures
        ivalues_model(s.drop_last()) =~= ivalues_model(s).drop_last(),
        ivalues_model(s).len() == s.len(),
        ivalues_model(s).last() == ivalue_model(s.last()),
{
    lemma_ivalues_model(s.drop_last());
    lemma_ivalues_model(s);
}


/// Decides whether `v` inhabits `t` against the given registry.
pub fn check_value_type(v: &IValue, t: &IType, recs: &RecordRegistry) -> (r: bool)
    ensures
        r == value_has_itype(ivalue_model(*v), *t, recs@),
    decreases v,
{
    match v {
        IValue::S8(_) => matches!(t, IType::S8),
        IValue::S16(_) => matches!(t, IType::S16),
        IValue::S32(_) => matches!(t, IType::S32),
        IValue::S64(_) => matches!(t, IType::S64),
        IValue::U8(_) => matches!(t, IType::U8),
        IValue::U16(_) => matches!(t, IType::U16),
        IValue::U32(_) => matches!(t, IType::U32),
        IValue::U64(_) => matches!(t, IType::U64),
        IValue::F32Bits(_) => matches!(t, IType::F32),
        IValue::F64Bits(_) => matches!(t, IType::F64),
        IValue::Utf8String(_) => matches!(t, IType::Utf8String),
        IValue::ByteArray(_) => matches!(t, IType::ByteArray),
        IValue::Record(id, vals) => {
            proof {
                lemma_ivalues_model(vals@);
            }
            let tid = match t {
                IType::Record(tid) => *tid,
                _ => {
                    return false;
                },
            };
            if tid != *id {
                return false;
            }
            let rec = match recs.resolve(*id) {
                Some(rec) => rec,
                None => {
                    return false;
                },
            };
            proof {
                lemma_values_match_fields(
                    ivalues_model(vals@),
                    recs@[*id - 1].fields.deep_view(),
                    recs@,
                );
            }
            if vals.len() != rec.fields.len() {
                return false;
            }
            let mut i: usize = 0;
            while i < vals.len()
                invariant
                    i <= vals@.len(),
                    *v == IValue::Record(*id, *vals),
                    *t == IType::Record(*id),
                    vals@.len() == rec.fields@.len(),
                    1 <= *id <= recs@.len(),
                    *rec == recs@[*id - 1],
                    ivalues_model(vals@).len() == vals@.len(),
                    forall|j: int|
                        0 <= j < vals@.len() ==> ivalues_model(vals@)[j] == ivalue_model(
                            vals@[j],
                        ),
                    forall|j: int|
                        0 <= j < i ==> value_has_itype(
                            #[trigger] ivalues_model(vals@)[j],
                            recs@[*id - 1].fields@[j].ty,
                            recs@,
                        ),
                decreases vals@.len() - i,
            {
                proof {
                    broadcast use vstd::std_specs::vec::group_vec_axioms;

                    assert(decreases_to!(*v => *vals));
                    assert(decreases_to!(*vals => vals@[i as int]));
                }
                if !check_value_type(&vals[i], &rec.fields[i].ty, recs) {
                    proof {
                        lemma_values_match_fields(
                            ivalues_model(vals@),
                            recs@[*id - 1].fields.deep_view(),
                            recs@,
                        );
                        assert(recs@[*id - 1].fields.deep_view()[i as int]
                            == recs@[*id - 1].fields@[i as int].deep_view());
                        assert(!value_has_itype(
                            ivalues_model(vals@)[i as int],
                            recs@[*id - 1].fields.deep_view()[i as int].1,
                            recs@,
                        ));
                    }
                    return false;
                }
                i = i + 1;
            }
            proof {
                lemma_values_match_fields(
                    ivalues_model(vals@),
                    recs@[*id - 1].fields.deep_view(),
                    recs@,
                );
                assert forall|j: int| 0 <= j < vals@.len() implies value_has_itype(
                    #[trigger] ivalues_model(vals@)[j],
                    recs@[*id - 1].fields.deep_view()[j].1,
                    recs@,
                ) by {
                    assert(recs@[*id - 1].fields.deep_view()[j]
                        == recs@[*id - 1].fields@[j].deep_view());
                }
            }
            true
        },
        IValue::Array(vals) => {
            proof {
                lemma_ivalues_model(vals@);
            }
            let inner = match t {
                IType::Array(inner) => inner,
                _ => {
                    return false;
                },
            };
            let mut i: usize = 0;
            while i < vals.len()
                invariant
                    i <= vals@.len(),
                    *v == IValue::Array(*vals),
                    *t == IType::Array(*inner),
                    ivalues_model(vals@).len() == vals@.len(),
                    forall|j: int|
                        0 <= j < vals@.len() ==> ivalues_model(vals@)[j] == ivalue_model(
                            vals@[j],
                        ),
                    forall|j: int|
                        0 <= j < i ==> value_has_itype(
                            #[trigger] ivalues_model(vals@)[j],
                            **inner,
                            recs@,
                        ),
                decreases vals@.len() - i,
            {
                proof {
                    broadcast use vstd::std_specs::vec::group_vec_axioms;

                    assert(decreases_to!(*v => *vals));
                    assert(decreases_to!(*vals => vals@[i as int]));
                }
                if !check_value_type(&vals[i], inner, recs) {
                    proof {
                        lemma_values_have_itype(ivalues_model(vals@), **inner, recs@);
                        assert(!value_has_itype(ivalues_model(vals@)[i as int], **inner, recs@));
                    }
                    return false;
                }
                i = i + 1;
            }
            proof {
                lemma_values_have_itype(ivalues_model(vals@), **inner, recs@);
            }
            true
        },
    }
}

} // verus!
