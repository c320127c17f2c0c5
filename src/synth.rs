//! Synthesis of column values that respect type, nullability, defaults and
//! foreign keys.

use vstd::prelude::*;
use crate::random::{RandomSource, now_unix_nanos, is_alphanumeric};
use crate::schema::{Column, Table, TypeModel, SemanticType, strings_view, copy_strings};

verus! {

/// A string sent with the parameter type that the statement expects (an
/// enumeration label).
#[derive(Clone, Debug, PartialEq, Eq)]
pub struct TypedString {
    pub value: String,
}

/// A value bound to a statement parameter.
#[derive(Clone, Debug, PartialEq, Eq)]
pub enum Value {
    Bool(bool),
    Int32(i32),
    Int64(i64),
    Text(String),
    Bytes(Vec<u8>),
    Json(String),
    /// Nanoseconds since the Unix epoch, in UTC.
    Timestamp(i128),
    Label(TypedString),
    TextArray(Vec<String>),
}

pub enum ValueModel {
    Bool(bool),
    Int32(i32),
    Int64(i64),
    Text(Seq<char>),
    Bytes(Seq<u8>),
    Json(Seq<char>),
    Timestamp(i128),
    Label(Seq<char>),
    TextArray(Seq<Seq<char>>),
}

impl View for Value {
    type V = ValueModel;

    open spec fn view(&self) -> ValueModel {
        match self {
            Value::Bool(b) => ValueModel::Bool(*b),
            Value::Int32(i) => ValueModel::Int32(*i),
            Value::Int64(i) => ValueModel::Int64(*i),
            Value::Text(s) => ValueModel::Text(s@),
            Value::Bytes(b) => ValueModel::Bytes(b@),
            Value::Json(s) => ValueModel::Json(s@),
            Value::Timestamp(t) => ValueModel::Timestamp(*t),
            Value::Label(t) => ValueModel::Label(t.value@),
            Value::TextArray(v) => ValueModel::TextArray(strings_view(v@)),
        }
    }
}

impl Value {
    pub fn duplicate(&self) -> (r: Value)
        ensures
            r@ == self@,
    {
        match self {
            Value::Bool(b) => Value::Bool(*b),
            Value::Int32(i) => Value::Int32(*i),
            Value::Int64(i) => Value::Int64(*i),
            Value::Text(s) => Value::Text(s.clone()),
            Value::Bytes(b) => {
                let mut c: Vec<u8> = Vec::new();
                let mut i: usize = 0;
                while i < b.len()
                    invariant
                        i <= b@.len(),
                        c@ =~= b@.take(i as int),
                    decreases b@.len() - i,
                {
                    c.push(b[i]);
                    i = i + 1;
                }
                assert(c@ =~= b@);
                Value::Bytes(c)
            },
            Value::Json(s) => Value::Json(s.clone()),
            Value::Timestamp(t) => Value::Timestamp(*t),
            Value::Label(t) => Value::Label(TypedString { value: t.value.clone() }),
            Value::TextArray(v) => Value::TextArray(copy_strings(v)),
        }
    }
}

/// The value kinds that a foreign key or a returned column may carry.
#[derive(Clone, Copy, Debug, PartialEq, Eq, Structural)]
pub enum KeyKind {
    Int64,
    Text,
}

/// The key kind of a column type, if it is one that keys may carry.
pub open spec fn key_kind(t: TypeModel) -> Option<KeyKind> {
    match t {
        TypeModel::Integer64 => Some(KeyKind::Int64),
        TypeModel::Text => Some(KeyKind::Text),
        _ => None,
    }
}

pub fn key_kind_of(t: &SemanticType) -> (r: Option<KeyKind>)
    ensures
        r == key_kind(t@),
{
    match t {
        SemanticType::Integer64 => Some(KeyKind::Int64),
        SemanticType::Text => Some(KeyKind::Text),
        _ => None,
    }
}

/// An existing row's value to fetch: the referenced column of a row of the
/// referenced table, at an offset drawn by `draw_offset`.
#[derive(Debug, PartialEq, Eq)]
pub struct ForeignRequest {
    pub table: String,
    pub column: String,
    pub kind: KeyKind,
}

/// What one column contributes to a row.
#[derive(Debug, PartialEq, Eq)]
pub enum Choice {
    /// No value: the database applies null or the column's default.
    Omit,
    /// This value.
    Bound(Value),
    /// A value of an existing row of another table, still to be fetched.
    Foreign(ForeignRequest),
}

/// Why a value could not be synthesized.
#[derive(Debug, PartialEq, Eq)]
pub enum SynthError {
    /// A foreign key whose column type keys cannot carry.
    UnsupportedKeyType { column: String },
    /// An enumeration column whose type has no label.
    EmptyEnumeration { column: String },
    /// A foreign key to a table that holds no row.
    EmptyReferencedTable { table: String },
}

pub const INT_MAGNITUDE_LIMIT: i32 = 1_000_000;

pub const TEXT_LENGTH_LIMIT: u64 = 50;

/// The exclusive bound of the magnitudes of ladder bucket `bucket` (1 to 9).
pub open spec fn ladder_limit(bucket: u64) -> u64 {
    if bucket == 1 {
        3
    } else if bucket == 2 {
        10
    } else if bucket == 3 {
        30
    } else if bucket == 4 {
        100
    } else if bucket == 5 {
        300
    } else if bucket == 6 {
        1000
    } else if bucket == 7 {
        10000
    } else if bucket == 8 {
        100000
    } else {
        1000000
    }
}

/// The exclusive bound of the magnitudes of ladder bucket `bucket` (1 to 9).
pub fn ladder_bound(bucket: u64) -> (r: u64)
    ensures
        r == ladder_limit(bucket),
{
    if bucket == 1 {
        3
    } else if bucket == 2 {
        10
    } else if bucket == 3 {
        30
    } else if bucket == 4 {
        100
    } else if bucket == 5 {
        300
    } else if bucket == 6 {
        1000
    } else if bucket == 7 {
        10000
    } else if bucket == 8 {
        100000
    } else {
        1000000
    }
}

/// The value of the ladder draws: zero for bucket 0, else `magnitude`,
/// negated when `negate`.
pub open spec fn ladder_value(bucket: u64, magnitude: u64, negate: bool) -> int {
    let m: int = if bucket == 0 { 0 } else { magnitude as int };
    if negate { -m } else { m }
}

/// The integer given by the ladder draws: bucket 0 is exactly zero, any
/// other bucket gives `magnitude`; the result is negated when `negate`.
pub fn ladder_int(bucket: u64, magnitude: u64, negate: bool) -> (r: i32)
    requires
        bucket < 10,
        bucket == 0 || magnitude < ladder_limit(bucket),
    ensures
        r == ladder_value(bucket, magnitude, negate),
        -INT_MAGNITUDE_LIMIT < r < INT_MAGNITUDE_LIMIT,
{
    let m: i32 = if bucket == 0 {
        0
    } else {
        magnitude as i32
    };
    if negate {
        -m
    } else {
        m
    }
}

/// An integer whose magnitude comes from a log-scale ladder of ten buckets
/// drawn uniformly (exactly zero, then uniform below 3, 10, 30, 100, 300,
/// 1000, 10^4, 10^5 and 10^6), negated when a draw from ten gives 0.
pub fn rand_int(rng: &mut RandomSource) -> (r: i32)
    ensures
        -INT_MAGNITUDE_LIMIT < r < INT_MAGNITUDE_LIMIT,
        exists|bucket: u64, magnitude: u64, negate: bool|
            bucket < 10 && (bucket == 0 || magnitude < ladder_limit(bucket)) && r == #[trigger] ladder_value(
                bucket,
                magnitude,
                negate,
            ),
{
    let bucket = rng.below(10);
    let magnitude: u64 = if bucket == 0 {
        0
    } else {
        rng.below(ladder_bound(bucket))
    };
    let negate = rng.below(10) == 0;
    ladder_int(bucket, magnitude, negate)
}

/// A string of `len` characters: from all Unicode scalar values when
/// `full_unicode`, otherwise ASCII letters and digits.
pub fn text_of(rng: &mut RandomSource, len: usize, full_unicode: bool) -> (r: String)
    ensures
        r@.len() == len,
        !full_unicode ==> forall|i: int| 0 <= i < len ==> is_alphanumeric(#[trigger] r@[i]),
{
    if full_unicode {
        rng.any_chars(len)
    } else {
        rng.alphanumeric(len)
    }
}

/// A string whose length is drawn uniformly below fifty: one time in ten
/// drawn from all Unicode scalar values, otherwise from ASCII letters and
/// digits.
pub fn rand_str(rng: &mut RandomSource) -> (r: String)
    ensures
        r@.len() < TEXT_LENGTH_LIMIT,
{
    let len = rng.below(TEXT_LENGTH_LIMIT) as usize;
    let full_unicode = rng.below(10) == 0;
    text_of(rng, len, full_unicode)
}

/// `v` is a value that synthesis may produce for a column of type `t`.
pub open spec fn fits_type(t: TypeModel, v: ValueModel) -> bool {
    match t {
        TypeModel::Boolean => v is Bool,
        TypeModel::Integer32 => v is Int32 && -INT_MAGNITUDE_LIMIT < v->Int32_0 < INT_MAGNITUDE_LIMIT,
        TypeModel::Integer64 => v is Int64 && -INT_MAGNITUDE_LIMIT < v->Int64_0 < INT_MAGNITUDE_LIMIT,
        TypeModel::Text => v is Text && v->Text_0.len() < TEXT_LENGTH_LIMIT,
        TypeModel::ByteArray => v is Bytes && v->Bytes_0.len() == 0,
        TypeModel::Json => v is Json && v->Json_0 == seq!['{', '}'],
        TypeModel::Timestamp => v is Timestamp,
        TypeModel::Enumeration(labels) => v is Label && labels.contains(v->Label_0),
        TypeModel::ArrayOf(_) => v is TextArray && v->TextArray_0.len() == 0,
    }
}

/// An enumeration type without labels.
pub open spec fn lacks_labels(t: TypeModel) -> bool {
    t is Enumeration && t->Enumeration_0.len() == 0
}

/// A fresh value for a column of type `t`.
pub fn value_for_type(rng: &mut RandomSource, t: &SemanticType) -> (r: Option<Value>)
    ensures
        r is None <==> lacks_labels(t@),
        r is Some ==> fits_type(t@, r->0@),
{
    match t {
        SemanticType::Boolean => Some(Value::Bool(rng.below(2) == 0)),
        SemanticType::Integer32 => Some(Value::Int32(rand_int(rng))),
        SemanticType::Integer64 => Some(Value::Int64(rand_int(rng) as i64)),
        SemanticType::Text => Some(Value::Text(rand_str(rng))),
        SemanticType::ByteArray => Some(Value::Bytes(Vec::new())),
        SemanticType::Json => {
            let s = "{}".to_owned();
            proof {
                reveal_strlit("{}");
            }
            assert(s@ =~= seq!['{', '}']);
            Some(Value::Json(s))
        },
        SemanticType::Timestamp => Some(Value::Timestamp(now_unix_nanos())),
        SemanticType::Enumeration(labels) => match rng.pick(labels) {
            Some(l) => {
                let ghost i = choose|i: int| 0 <= i < labels@.len() && (#[trigger] labels@[i])@ == l@;
                assert(strings_view(labels@)[i] == l@);
                Some(Value::Label(TypedString { value: l }))
            },
            None => None,
        },
        SemanticType::ArrayOf(_) => Some(Value::TextArray(Vec::new())),
    }
}

/// The override names this column.
pub open spec fn overrides(set_column: Option<(String, Value)>, name: Seq<char>) -> bool {
    set_column is Some && (set_column->0).0@ == name
}

/// The key kind of a foreign-key column is unsupported.
pub open spec fn bad_key(c: Column) -> bool {
    c.foreign_key is Some && key_kind(c.value_type@) is None
}

/// Whether a column is left to null or its default, given the null draw and
/// the default draw (each from three): a nullable column when the null draw
/// is 0, else a column with a default when the default draw is not 0.
pub fn omits(nullable: bool, has_default: bool, null_draw: u64, default_draw: u64) -> (r: bool)
    ensures
        r == ((nullable && null_draw == 0) || (has_default && default_draw != 0)),
{
    (nullable && null_draw == 0) || (has_default && default_draw != 0)
}

/// What `synthesize` may return for `column` with the override `set_column`.
pub open spec fn synthesis_outcome(column: Column, set_column: Option<(String, Value)>, r: Result<Choice, SynthError>) -> bool {
    &&& overrides(set_column, column.name@) ==> r is Ok && r->Ok_0 is Bound && r->Ok_0->Bound_0@ == (set_column->0).1@
    &&& r is Ok && r->Ok_0 is Omit ==> !overrides(set_column, column.name@) && (column.nullable || column.has_default)
    &&& r is Ok && r->Ok_0 is Bound && !overrides(set_column, column.name@) ==> column.foreign_key is None
        && fits_type(column.value_type@, r->Ok_0->Bound_0@)
    &&& r is Ok && r->Ok_0 is Foreign ==> !overrides(set_column, column.name@) && column.foreign_key is Some
        && r->Ok_0->Foreign_0.table@ == (column.foreign_key->0).0@
        && r->Ok_0->Foreign_0.column@ == (column.foreign_key->0).1@
        && key_kind(column.value_type@) == Some(r->Ok_0->Foreign_0.kind)
    &&& r is Err <==> (!overrides(set_column, column.name@) && !(r is Ok && r->Ok_0 is Omit) && (bad_key(column)
        || (column.foreign_key is None && lacks_labels(column.value_type@))))
    &&& r is Err ==> (r->Err_0 is UnsupportedKeyType && bad_key(column)) || (r->Err_0 is EmptyEnumeration
        && column.foreign_key is None && lacks_labels(column.value_type@))
}

/// Decides what `column` contributes to a row. In priority order: the
/// override value when `set_column` names the column; nothing, one time in
/// three, for a nullable column; nothing, two times in three, for a column
/// with a default; for a foreign key, a request for an existing row's value;
/// else a fresh value of the column's type.
pub fn synthesize(rng: &mut RandomSource, column: &Column, set_column: &Option<(String, Value)>) -> (r: Result<Choice, SynthError>)
    ensures
        synthesis_outcome(*column, *set_column, r),
{
    if let Some((name, value)) = set_column {
        if *name == column.name {
            return Ok(Choice::Bound(value.duplicate()));
        }
    }
    let null_draw = rng.below(3);
    let default_draw = rng.below(3);
    if omits(column.nullable, column.has_default, null_draw, default_draw) {
        return Ok(Choice::Omit);
    }
    match &column.foreign_key {
        Some((table, referenced)) => match key_kind_of(&column.value_type) {
            Some(kind) => Ok(Choice::Foreign(ForeignRequest { table: table.clone(), column: referenced.clone(), kind })),
            None => Err(SynthError::UnsupportedKeyType { column: column.name.clone() }),
        },
        None => match value_for_type(rng, &column.value_type) {
            Some(v) => Ok(Choice::Bound(v)),
            None => Err(SynthError::EmptyEnumeration { column: column.name.clone() }),
        },
    }
}

/// Draws the offset of the existing row to fetch, given how many rows the
/// referenced table holds; a table without rows gives an error.
pub fn draw_offset(rng: &mut RandomSource, request: &ForeignRequest, count: i64) -> (r: Result<u64, SynthError>)
    ensures
        r is Err <==> count <= 0,
        r is Ok ==> r->Ok_0 < count,
        r is Err ==> r->Err_0 is EmptyReferencedTable && r->Err_0->table@ == request.table@,
{
    if count <= 0 {
        Err(SynthError::EmptyReferencedTable { table: request.table.clone() })
    } else {
        Ok(rng.below(count as u64))
    }
}


/// Decides what each column of `table` contributes to one row, in creation
/// order; fails on the first column that cannot be synthesized.
pub fn draft_row(rng: &mut RandomSource, table: &Table, set_column: &Option<(String, Value)>) -> (r: Result<Vec<(String, Choice)>, SynthError>)
    ensures
        r is Ok ==> r->Ok_0@.len() == table.columns@.len() && forall|i: int|
            0 <= i < table.columns@.len() ==> (#[trigger] r->Ok_0@[i]).0@ == table.columns@[i].name@
                && synthesis_outcome(table.columns@[i], *set_column, Ok(r->Ok_0@[i].1)),
        r is Err ==> exists|i: int|
            0 <= i < table.columns@.len() && synthesis_outcome(
                #[trigger] table.columns@[i],
                *set_column,
                Err::<Choice, SynthError>(r->Err_0),
            ),
{
    let mut row: Vec<(String, Choice)> = Vec::new();
    let mut i: usize = 0;
    while i < table.columns.len()
        invariant
            i <= table.columns@.len(),
            row@.len() == i,
            forall|k: int|
                0 <= k < i ==> (#[trigger] row@[k]).0@ == table.columns@[k].name@ && synthesis_outcome(
                    table.columns@[k],
                    *set_column,
                    Ok(row@[k].1),
                ),
        decreases table.columns@.len() - i,
    {
        let column = &table.columns[i];
        match synthesize(rng, column, set_column) {
            Ok(choice) => {
                row.push((column.name.clone(), choice));
            },
            Err(e) => {
                assert(synthesis_outcome(table.columns@[i as int], *set_column, Err::<Choice, SynthError>(e)));
                return Err(e);
            },
        }
        i = i + 1;
    }
    Ok(row)
}

/// A column that is neither nullable nor has a default always receives a
/// value: synthesis never omits it.
pub proof fn lemma_required_never_omitted(column: Column, set_column: Option<(String, Value)>, r: Result<Choice, SynthError>)
    requires
        synthesis_outcome(column, set_column, r),
        !column.nullable,
        !column.has_default,
    ensures
        !(r is Ok && r->Ok_0 is Omit),
{
}

/// Synthesis never makes up a value for a foreign-key column: without an
/// override it either omits the column or asks for the referenced column of
/// an existing row of the referenced table.
pub proof fn lemma_foreign_key_never_fabricated(column: Column, set_column: Option<(String, Value)>, r: Result<Choice, SynthError>)
    requires
        synthesis_outcome(column, set_column, r),
        column.foreign_key is Some,
        !overrides(set_column, column.name@),
    ensures
        r is Ok ==> r->Ok_0 is Omit || (r->Ok_0 is Foreign && r->Ok_0->Foreign_0.table@ == (column.foreign_key->0).0@
            && r->Ok_0->Foreign_0.column@ == (column.foreign_key->0).1@),
{
}

/// A value synthesized for an enumeration column is one of its labels.
pub proof fn lemma_enumeration_value_is_label(column: Column, set_column: Option<(String, Value)>, r: Result<Choice, SynthError>)
    requires
        synthesis_outcome(column, set_column, r),
        column.value_type@ is Enumeration,
        !overrides(set_column, column.name@),
        r is Ok && r->Ok_0 is Bound,
    ensures
        r->Ok_0->Bound_0@ is Label,
        column.value_type@->Enumeration_0.contains(r->Ok_0->Bound_0@->Label_0),
{
}

} // verus!
