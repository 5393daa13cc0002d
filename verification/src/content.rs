//! Rows of the store: four 64-bit words that hold an association of an
//! object, a tag and a value, or a link of the free list.

use vstd::prelude::*;

use crate::ff::{
    BINARY, CHARACTER, COLOR, DATE_TIME, DURATION, EMAIL, ENCRYPTED, FLOAT, INTEGER, LANGUAGE,
    OBJECT_REFERENCE, SCHEMA, TEXT, UNIT, URL,
};
use crate::ids::ObjectId;
use crate::time::{DateTime, Duration};
use crate::values::{char_from_u32, is_scalar};

verus! {

/// The type of a value, as a tag prescribes it.
#[derive(Clone, Copy, Debug, PartialEq, Eq)]
pub enum Schema {
    Unit,
    Integer,
    Float,
    Character,
    Duration,
    DateTime,
    /// Object reference, optionally with a constraint object.
    ObjectReference(Option<ObjectId>),
    Schema,
    Language,
    Url,
    Color,
    Email,
    Text,
    Binary,
    Encrypted,
}

/// Content too large for a row: fifteen inline bytes, or a reference to
/// the resource that holds it.
#[derive(Clone, Copy, Debug, PartialEq, Eq)]
pub enum VariableContent {
    InlineMax([u8; 15]),
    Reference(ObjectId),
}

/// A decoded value of a row. A float is kept as its bits.
#[derive(Clone, Copy, Debug, PartialEq, Eq)]
pub enum Value {
    Unit,
    Integer(i64),
    FloatBits(u64),
    Character(char),
    Duration(Duration),
    DateTime(DateTime),
    ObjectReference(ObjectId),
    Schema(Schema),
    Language,
    Url,
    Email,
    Text,
    Binary(VariableContent),
    Encrypted,
}

/// The values that can be written into a row without any resource.
#[derive(Clone, Copy, Debug, PartialEq, Eq)]
pub enum ConstValue {
    Unit,
    ObjectReference(ObjectId),
    Schema(Schema),
}

/// A row, four little-endian words: the object, the tag, and two words of
/// value.
#[derive(Clone, Copy, Debug, PartialEq, Eq)]
pub struct Row(pub [u64; 4]);

/// What a row holds.
#[derive(Clone, Copy, Debug, PartialEq, Eq)]
pub enum DecodedRow {
    Association(ObjectId, ObjectId, Value),
    /// The row is `[0, index, 0, 0]` with `index != 0`.
    FreeListNextFreeIndex(ObjectId),
    /// The row is `[0, 0, 0, 0]`.
    FreeListEnd,
}

/// What a row holds, with a value that needs no resource.
#[derive(Clone, Copy, Debug, PartialEq, Eq)]
pub enum ConstDecodedRow {
    Association(ObjectId, ObjectId, ConstValue),
    FreeListNextFreeIndex(ObjectId),
    FreeListEnd,
}

/// The metadata of the list of blocks.
pub struct BlockListMeta {
    pub free_block_count: u64,
    pub used_block_count: u64,
    pub free_list_head: ObjectId,
}

/// The metadata of a chained free list.
pub struct ChainedListMeta {
    /// The index of the first item in the free list.
    pub head: u64,
    /// The index of the last item in the free list.
    pub free_list_head: u64,
    /// The number of items in the free list.
    pub len: u64,
}

/// The kind byte of a schema and the word that goes with it.
pub open spec fn schema_code(s: Schema) -> (u8, u64) {
    match s {
        Schema::Unit => (UNIT, 0),
        Schema::Integer => (INTEGER, 0),
        Schema::Float => (FLOAT, 0),
        Schema::Character => (CHARACTER, 0),
        Schema::Duration => (DURATION, 0),
        Schema::DateTime => (DATE_TIME, 0),
        Schema::ObjectReference(id) => (OBJECT_REFERENCE, match id {
            None => 0,
            Some(id) => id@,
        }),
        Schema::Schema => (SCHEMA, 0),
        Schema::Language => (LANGUAGE, 0),
        Schema::Url => (URL, 0),
        Schema::Color => (COLOR, 0),
        Schema::Email => (EMAIL, 0),
        Schema::Text => (TEXT, 0),
        Schema::Binary => (BINARY, 0),
        Schema::Encrypted => (ENCRYPTED, 0),
    }
}

/// The two value words of a constant value. A schema is the schema kind in
/// the low byte with its own kind in the byte above.
pub open spec fn value_words(v: ConstValue) -> (u64, u64) {
    match v {
        ConstValue::Unit => (UNIT as u64, 0),
        ConstValue::ObjectReference(id) => (OBJECT_REFERENCE as u64, id@),
        ConstValue::Schema(s) => ((SCHEMA as u64) | ((schema_code(s).0 as u64) << 8u64), schema_code(s).1),
    }
}

/// The words of the row that holds `r`.
pub open spec fn encode_spec(r: ConstDecodedRow) -> [u64; 4] {
    match r {
        ConstDecodedRow::Association(target, tag, v) => [target@, tag@, value_words(v).0, value_words(v).1],
        ConstDecodedRow::FreeListNextFreeIndex(index) => [0, index@, 0, 0],
        ConstDecodedRow::FreeListEnd => [0, 0, 0, 0],
    }
}

/// The value a constant value stands for.
pub open spec fn into_value_spec(v: ConstValue) -> Value {
    match v {
        ConstValue::Unit => Value::Unit,
        ConstValue::ObjectReference(id) => Value::ObjectReference(id),
        ConstValue::Schema(s) => Value::Schema(s),
    }
}

/// The decoded row a constant row stands for.
pub open spec fn into_decoded_row_spec(r: ConstDecodedRow) -> DecodedRow {
    match r {
        ConstDecodedRow::Association(o, t, v) => DecodedRow::Association(o, t, into_value_spec(v)),
        ConstDecodedRow::FreeListNextFreeIndex(i) => DecodedRow::FreeListNextFreeIndex(i),
        ConstDecodedRow::FreeListEnd => DecodedRow::FreeListEnd,
    }
}

/// The kind byte of the first value word.
pub open spec fn kind(a: u64) -> u64 {
    a % 256
}

/// The code point stored in the upper half of the first value word.
pub open spec fn code_point(a: u64) -> u32 {
    (a / 0x1_0000_0000) as u32
}

/// The duration stored in the fifteen bytes after the kind byte: a
/// little-endian, two's complement 120-bit count of nanoseconds.
pub open spec fn duration_nanos(a: u64, b: u64) -> int {
    let raw = a / 256 + b * 0x100_0000_0000_0000;
    if raw >= 0x80_0000_0000_0000_0000_0000_0000_0000 {
        raw - 0x100_0000_0000_0000_0000_0000_0000_0000
    } else {
        raw
    }
}

/// Whether the row is a link of the free list: its object and value are
/// zero.
pub open spec fn is_free_list_row(w: [u64; 4]) -> bool {
    w[0] == 0 && w[2] == 0 && w[3] == 0
}

/// Whether the value words have a kind that decoding handles.
pub open spec fn known_value(a: u64, b: u64) -> bool {
    ||| kind(a) == UNIT
    ||| kind(a) == INTEGER
    ||| kind(a) == FLOAT
    ||| kind(a) == CHARACTER
    ||| kind(a) == DURATION
    ||| (kind(a) == OBJECT_REFERENCE && b != 0)
}

/// Whether decoding the row is defined: a free-list link, a row without
/// tag, or an association of a non-zero object with a known value kind.
pub open spec fn decodable(w: [u64; 4]) -> bool {
    is_free_list_row(w) || w[1] == 0 || (w[0] != 0 && known_value(w[2], w[3]))
}

/// Whether the value words are valid: a character has to be a scalar value.
pub open spec fn valid_value(a: u64, b: u64) -> bool {
    kind(a) == CHARACTER ==> is_scalar(code_point(a))
}

/// Whether `v` is the value that the words `a`, `b` hold.
pub open spec fn value_matches(a: u64, b: u64, v: Value) -> bool {
    match v {
        Value::Unit => kind(a) == UNIT,
        Value::Integer(i) => kind(a) == INTEGER && i == b as i64,
        Value::FloatBits(x) => kind(a) == FLOAT && x == b,
        Value::Character(c) => kind(a) == CHARACTER && is_scalar(code_point(a)) && c == code_point(a) as char,
        Value::Duration(d) => kind(a) == DURATION && d@ == duration_nanos(a, b),
        Value::ObjectReference(id) => kind(a) == OBJECT_REFERENCE && b != 0 && id@ == b,
        _ => false,
    }
}

/// Whether `r` is what decoding the row `w` gives.
pub open spec fn decoded_as(w: [u64; 4], r: Result<DecodedRow, ()>) -> bool {
    match r {
        Ok(DecodedRow::FreeListEnd) => w[0] == 0 && w[1] == 0 && w[2] == 0 && w[3] == 0,
        Ok(DecodedRow::FreeListNextFreeIndex(i)) => is_free_list_row(w) && w[1] != 0 && i@ == w[1],
        Ok(DecodedRow::Association(o, t, v)) => {
            &&& !is_free_list_row(w)
            &&& w[1] != 0
            &&& o@ == w[0]
            &&& t@ == w[1]
            &&& value_matches(w[2], w[3], v)
        },
        Err(()) => !is_free_list_row(w) && (w[1] == 0 || !valid_value(w[2], w[3])),
    }
}

/// The type that a decoded value has, as a schema names it; an object
/// reference is named without a constraint.
pub open spec fn value_schema(v: Value) -> Schema {
    match v {
        Value::Unit => Schema::Unit,
        Value::Integer(_) => Schema::Integer,
        Value::FloatBits(_) => Schema::Float,
        Value::Character(_) => Schema::Character,
        Value::Duration(_) => Schema::Duration,
        Value::DateTime(_) => Schema::DateTime,
        Value::ObjectReference(_) => Schema::ObjectReference(None),
        Value::Schema(_) => Schema::Schema,
        Value::Language => Schema::Language,
        Value::Url => Schema::Url,
        Value::Email => Schema::Email,
        Value::Text => Schema::Text,
        Value::Binary(_) => Schema::Binary,
        Value::Encrypted => Schema::Encrypted,
    }
}

/// Different schemas have different kind bytes, object references with any
/// constraint sharing theirs.
pub proof fn law_schema_kinds_distinct(s1: Schema, s2: Schema)
    requires
        schema_code(s1).0 == schema_code(s2).0,
    ensures
        s1 == s2 || (s1 is ObjectReference && s2 is ObjectReference),
{
}

/// The kind byte of a schema is the kind from which decoding reads a value
/// of the type that the schema names: whatever value words with that kind
/// decode to has that type.
pub proof fn law_schema_kind_decodes_to_its_type(s: Schema, a: u64, b: u64, v: Value)
    requires
        kind(a) == schema_code(s).0,
        value_matches(a, b, v),
    ensures
        value_schema(v) == s || (s is ObjectReference && v is ObjectReference),
{
}

/// A row whose value kind is that of a schema, and that decodes, decodes to
/// a value of the type that the schema names.
pub proof fn law_schema_kind_row_decodes_to_its_type(s: Schema, w: [u64; 4], o: ObjectId, t: ObjectId, v: Value)
    requires
        kind(w[2]) == schema_code(s).0,
        decoded_as(w, Ok(DecodedRow::Association(o, t, v))),
    ensures
        value_schema(v) == s || (s is ObjectReference && v is ObjectReference),
{
}

/// A row that decodes to an integer holds it in its whole last word, in
/// two's complement: the word itself below `2^63`, the word less `2^64`
/// from there on.
pub proof fn law_row_integer_reads_whole_word(w: [u64; 4], o: ObjectId, t: ObjectId, i: i64)
    requires
        decoded_as(w, Ok(DecodedRow::Association(o, t, Value::Integer(i)))),
    ensures
        w[3] < 0x8000_0000_0000_0000 ==> i as int == w[3] as int,
        w[3] >= 0x8000_0000_0000_0000 ==> i as int == w[3] as int - 0x1_0000_0000_0000_0000,
{
    crate::values::lemma_word_as_i64(w[3]);
}

/// Whether every identifier in `r` is non-zero, as every identifier that
/// executable code holds is.
pub open spec fn ids_valid(r: ConstDecodedRow) -> bool {
    match r {
        ConstDecodedRow::Association(o, t, v) => o@ != 0 && t@ != 0 && match v {
            ConstValue::ObjectReference(id) => id@ != 0,
            _ => true,
        },
        ConstDecodedRow::FreeListNextFreeIndex(i) => i@ != 0,
        ConstDecodedRow::FreeListEnd => true,
    }
}

/// Whether the value of `r` is no schema.
pub open spec fn schema_free(r: ConstDecodedRow) -> bool {
    match r {
        ConstDecodedRow::Association(_, _, ConstValue::Schema(_)) => false,
        _ => true,
    }
}

impl Schema {
    /// The kind byte of the schema and the word that goes with it.
    fn code(self) -> (r: (u8, u64))
        ensures
            r == schema_code(self),
    {
        match self {
            Schema::Unit => (UNIT, 0),
            Schema::Integer => (INTEGER, 0),
            Schema::Float => (FLOAT, 0),
            Schema::Character => (CHARACTER, 0),
            Schema::Duration => (DURATION, 0),
            Schema::DateTime => (DATE_TIME, 0),
            Schema::ObjectReference(id) => (OBJECT_REFERENCE, match id {
                None => 0,
                Some(id) => id.get(),
            }),
            Schema::Schema => (SCHEMA, 0),
            Schema::Language => (LANGUAGE, 0),
            Schema::Url => (URL, 0),
            Schema::Color => (COLOR, 0),
            Schema::Email => (EMAIL, 0),
            Schema::Text => (TEXT, 0),
            Schema::Binary => (BINARY, 0),
            Schema::Encrypted => (ENCRYPTED, 0),
        }
    }
}

impl ConstValue {
    /// The value this constant stands for.
    pub fn const_into_value(self) -> (r: Value)
        ensures
            r == into_value_spec(self),
    {
        match self {
            ConstValue::Unit => Value::Unit,
            ConstValue::ObjectReference(id) => Value::ObjectReference(id),
            ConstValue::Schema(s) => Value::Schema(s),
        }
    }
}

impl ConstDecodedRow {
    /// The decoded row this constant row stands for.
    pub fn const_into_decoded_row(self) -> (r: DecodedRow)
        ensures
            r == into_decoded_row_spec(self),
    {
        match self {
            ConstDecodedRow::Association(o, t, v) => DecodedRow::Association(o, t, v.const_into_value()),
            ConstDecodedRow::FreeListNextFreeIndex(i) => DecodedRow::FreeListNextFreeIndex(i),
            ConstDecodedRow::FreeListEnd => DecodedRow::FreeListEnd,
        }
    }
}

impl Row {
    /// The row that holds `row`.
    pub fn const_encode(row: ConstDecodedRow) -> (r: Row)
        ensures
            r.0 == encode_spec(row),
    {
        match row {
            ConstDecodedRow::Association(target_id, tag_id, value) => {
                let (a, b): (u64, u64) = match value {
                    ConstValue::Unit => (UNIT as u64, 0),
                    ConstValue::ObjectReference(id) => (OBJECT_REFERENCE as u64, id.get()),
                    ConstValue::Schema(schema) => {
                        let (byte, other) = schema.code();
                        ((SCHEMA as u64) | ((byte as u64) << 8u64), other)
                    },
                };
                Row([target_id.get(), tag_id.get(), a, b])
            },
            ConstDecodedRow::FreeListNextFreeIndex(index) => Row([0, index.get(), 0, 0]),
            ConstDecodedRow::FreeListEnd => Row([0, 0, 0, 0]),
        }
    }

    /// Decodes the row: `Err(())` for an association without tag or with a
    /// character that is no scalar value.
    pub fn decode(self) -> (r: Result<DecodedRow, ()>)
        requires
            decodable(self.0),
        ensures
            decoded_as(self.0, r),
    {
        let w = self.0;
        if w[0] == 0 && w[2] == 0 && w[3] == 0 {
            return match ObjectId::new(w[1]) {
                None => Ok(DecodedRow::FreeListEnd),
                Some(index) => Ok(DecodedRow::FreeListNextFreeIndex(index)),
            };
        }
        let tag_id = match ObjectId::new(w[1]) {
            None => return Err(()),
            Some(t) => t,
        };
        let object_id = match ObjectId::new(w[0]) {
            Some(o) => o,
            None => {
                assert(false);
                return Err(());
            },
        };
        let a = w[2];
        let b = w[3];
        let k = a % 256;
        let value = if k == UNIT as u64 {
            Value::Unit
        } else if k == INTEGER as u64 {
            Value::Integer(#[verifier::truncate] (b as i64))
        } else if k == FLOAT as u64 {
            Value::FloatBits(b)
        } else if k == CHARACTER as u64 {
            match char_from_u32((a / 0x1_0000_0000) as u32) {
                Some(c) => Value::Character(c),
                None => return Err(()),
            }
        } else if k == DURATION as u64 {
            let raw: u128 = (a / 256) as u128 + (b as u128) * 0x100_0000_0000_0000u128;
            let nanos: i128 = if raw >= 0x80_0000_0000_0000_0000_0000_0000_0000u128 {
                (raw as i128) - 0x100_0000_0000_0000_0000_0000_0000_0000i128
            } else {
                raw as i128
            };
            Value::Duration(Duration::from_nanos(nanos))
        } else {
            let id = match ObjectId::new(b) {
                Some(id) => id,
                None => {
                    assert(false);
                    return Err(());
                },
            };
            Value::ObjectReference(id)
        };
        Ok(DecodedRow::Association(object_id, tag_id, value))
    }
}

/// Whether `rows` holds a row equal to `row`.
pub fn row_exists(rows: &[Row], row: Row) -> (r: bool)
    ensures
        r == rows@.contains(row),
{
    let mut i: usize = 0;
    while i < rows.len()
        invariant
            i <= rows@.len(),
            forall|j: int| 0 <= j < i ==> rows@[j] != row,
        decreases rows@.len() - i,
    {
        let r = rows[i];
        if r.0[0] == row.0[0] && r.0[1] == row.0[1] && r.0[2] == row.0[2] && r.0[3] == row.0[3] {
            assert(r.0 =~= row.0);
            assert(rows@[i as int] == row);
            return true;
        }
        assert(r.0 != row.0);
        i = i + 1;
    }
    false
}

/// Decoding the row that a constant row without schema was encoded into
/// gives back that row, as a decoded row.
pub proof fn law_row_roundtrip(r: ConstDecodedRow)
    requires
        ids_valid(r),
        schema_free(r),
    ensures
        decodable(encode_spec(r)),
        decoded_as(encode_spec(r), Ok(into_decoded_row_spec(r))),
{
}

} // verus!
