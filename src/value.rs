//! Storage values and column types, with the conversions between native
//! field types and the values that the storage engine holds.
use vstd::prelude::*;
use vstd::string::*;

verus! {

/// The column types a schema can name. `Null` and `Blob` exist in the
/// storage engine but no model field may use them.
#[derive(Clone, Copy, Debug, PartialEq, Eq, Structural)]
pub enum ColumnType {
    Text,
    Integer,
    Real,
    Null,
    Blob,
}

/// A value as the storage engine holds it. A real number is carried as its
/// IEEE-754 bit pattern, so that it round-trips exactly.
#[derive(Clone, Debug, PartialEq, Eq)]
pub enum StorageValue {
    Text(String),
    Integer(i64),
    Real(u64),
}

/// Whether a field of this column type can be stored by the conversion layer.
pub open spec fn is_field_type(t: ColumnType) -> bool {
    t == ColumnType::Text || t == ColumnType::Integer || t == ColumnType::Real
}

/// The keyword that names the column type in a table definition.
pub open spec fn column_type_keyword(t: ColumnType) -> Seq<char> {
    match t {
        ColumnType::Text => "TEXT"@,
        ColumnType::Integer => "INTEGER"@,
        ColumnType::Real => "REAL"@,
        ColumnType::Null => "NULL"@,
        ColumnType::Blob => "BLOB"@,
    }
}

/// The column type that a value is stored under.
pub open spec fn value_type(v: StorageValue) -> ColumnType {
    match v {
        StorageValue::Text(_) => ColumnType::Text,
        StorageValue::Integer(_) => ColumnType::Integer,
        StorageValue::Real(_) => ColumnType::Real,
    }
}

pub open spec fn encode_text(s: String) -> StorageValue {
    StorageValue::Text(s)
}

pub open spec fn encode_integer(i: i64) -> StorageValue {
    StorageValue::Integer(i)
}

pub open spec fn encode_bool(b: bool) -> StorageValue {
    StorageValue::Integer(if b { 1 } else { 0 })
}

pub open spec fn encode_real(bits: u64) -> StorageValue {
    StorageValue::Real(bits)
}

pub open spec fn decode_text(v: StorageValue) -> Option<String> {
    match v {
        StorageValue::Text(s) => Some(s),
        _ => None,
    }
}

pub open spec fn decode_integer(v: StorageValue) -> Option<i64> {
    match v {
        StorageValue::Integer(i) => Some(i),
        _ => None,
    }
}

/// Any nonzero integer reads as true.
pub open spec fn decode_bool(v: StorageValue) -> Option<bool> {
    match v {
        StorageValue::Integer(i) => Some(i != 0),
        _ => None,
    }
}

pub open spec fn decode_real(v: StorageValue) -> Option<u64> {
    match v {
        StorageValue::Real(bits) => Some(bits),
        _ => None,
    }
}

impl ColumnType {
    /// The keyword for this type in a `CREATE TABLE` statement.
    pub fn keyword(&self) -> (r: String)
        ensures
            r@ == column_type_keyword(*self),
    {
        match self {
            ColumnType::Text => String::from_str("TEXT"),
            ColumnType::Integer => String::from_str("INTEGER"),
            ColumnType::Real => String::from_str("REAL"),
            ColumnType::Null => String::from_str("NULL"),
            ColumnType::Blob => String::from_str("BLOB"),
        }
    }
}

impl StorageValue {
    /// An exact copy of the value.
    pub fn duplicate(&self) -> (r: StorageValue)
        ensures
            r == *self,
    {
        match self {
            StorageValue::Text(s) => StorageValue::Text(s.clone()),
            StorageValue::Integer(i) => StorageValue::Integer(*i),
            StorageValue::Real(bits) => StorageValue::Real(*bits),
        }
    }

    pub fn column_type(&self) -> (r: ColumnType)
        ensures
            r == value_type(*self),
    {
        match self {
            StorageValue::Text(_) => ColumnType::Text,
            StorageValue::Integer(_) => ColumnType::Integer,
            StorageValue::Real(_) => ColumnType::Real,
        }
    }

    pub fn from_text(s: String) -> (r: StorageValue)
        ensures
            r == encode_text(s),
    {
        StorageValue::Text(s)
    }

    pub fn from_integer(i: i64) -> (r: StorageValue)
        ensures
            r == encode_integer(i),
    {
        StorageValue::Integer(i)
    }

    /// A boolean is stored as the integer 1 or 0.
    pub fn from_bool(b: bool) -> (r: StorageValue)
        ensures
            r == encode_bool(b),
    {
        StorageValue::Integer(if b { 1 } else { 0 })
    }

    pub fn from_real_bits(bits: u64) -> (r: StorageValue)
        ensures
            r == encode_real(bits),
    {
        StorageValue::Real(bits)
    }

    /// The text held, or `None` for a value of another kind.
    pub fn as_text(&self) -> (r: Option<String>)
        ensures
            r == decode_text(*self),
    {
        match self {
            StorageValue::Text(s) => Some(s.clone()),
            _ => None,
        }
    }

    /// The integer held, or `None` for a value of another kind.
    pub fn as_integer(&self) -> (r: Option<i64>)
        ensures
            r == decode_integer(*self),
    {
        match self {
            StorageValue::Integer(i) => Some(*i),
            _ => None,
        }
    }

    /// The boolean held: any nonzero integer is true; `None` for a value
    /// that is not an integer.
    pub fn as_bool(&self) -> (r: Option<bool>)
        ensures
            r == decode_bool(*self),
    {
        match self {
            StorageValue::Integer(i) => Some(*i != 0),
            _ => None,
        }
    }

    /// The bit pattern of the real number held, or `None` for a value of
    /// another kind.
    pub fn as_real_bits(&self) -> (r: Option<u64>)
        ensures
            r == decode_real(*self),
    {
        match self {
            StorageValue::Real(bits) => Some(*bits),
            _ => None,
        }
    }
}

/// The column type a native field type is stored under: `String` as text,
/// `i64` and `bool` as integers, `f64` as a real. Any other type cannot be a
/// model field.
pub open spec fn native_column_type(native: Seq<char>) -> Option<ColumnType> {
    if native == "String"@ {
        Some(ColumnType::Text)
    } else if native == "i64"@ || native == "bool"@ {
        Some(ColumnType::Integer)
    } else if native == "f64"@ {
        Some(ColumnType::Real)
    } else {
        None
    }
}

/// Whether two strings hold the same characters.
pub fn same_text(a: &str, b: &str) -> (r: bool)
    ensures
        r == (a@ == b@),
{
    let n = a.unicode_len();
    if n != b.unicode_len() {
        return false;
    }
    let mut i: usize = 0;
    while i < n
        invariant
            n == a@.len() == b@.len(),
            i <= n,
            forall|k: int| 0 <= k < i ==> a@[k] == b@[k],
        decreases n - i,
    {
        if a.get_char(i) != b.get_char(i) {
            return false;
        }
        i = i + 1;
    }
    assert(a@ =~= b@);
    true
}

/// The column type for a native field type named as in a structure
/// declaration, or `None` for a type that is not supported.
pub fn column_type_of(native: &str) -> (r: Option<ColumnType>)
    ensures
        r == native_column_type(native@),
{
    if same_text(native, "String") {
        Some(ColumnType::Text)
    } else if same_text(native, "i64") || same_text(native, "bool") {
        Some(ColumnType::Integer)
    } else if same_text(native, "f64") {
        Some(ColumnType::Real)
    } else {
        None
    }
}

/// Every supported native type decodes back to the value it was encoded
/// from, and each encoding is stored under the column type of its kind.
pub proof fn law_round_trip(s: String, i: i64, b: bool, bits: u64)
    ensures
        decode_text(encode_text(s)) == Some(s),
        decode_integer(encode_integer(i)) == Some(i),
        decode_bool(encode_bool(b)) == Some(b),
        decode_real(encode_real(bits)) == Some(bits),
        value_type(encode_text(s)) == ColumnType::Text,
        value_type(encode_integer(i)) == ColumnType::Integer,
        value_type(encode_bool(b)) == ColumnType::Integer,
        value_type(encode_real(bits)) == ColumnType::Real,
{
}

/// Decoding into a type of another kind gives no value.
pub proof fn law_mismatch_is_absent(v: StorageValue)
    ensures
        value_type(v) != ColumnType::Text ==> decode_text(v).is_none(),
        value_type(v) != ColumnType::Integer ==> decode_integer(v).is_none()
            && decode_bool(v).is_none(),
        value_type(v) != ColumnType::Real ==> decode_real(v).is_none(),
{
}

} // verus!
