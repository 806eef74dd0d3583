//! Field descriptors and table schemas, and the SQL text rendered from them.
use vstd::prelude::*;
use vstd::string::*;

use crate::text::{join_strings, sep_join, views};
use crate::value::{column_type_keyword, is_field_type, ColumnType};

verus! {

/// One persisted field of a model: its column name and column type.
#[derive(Clone, Debug, PartialEq, Eq)]
pub struct ModelField {
    pub name: String,
    pub col_type: ColumnType,
}

/// Why a field list cannot make a schema; each names the index of the first
/// field at fault.
#[derive(Clone, Copy, Debug, PartialEq, Eq, Structural)]
pub enum SchemaError {
    /// The field's column type is not one a model field can use.
    UnsupportedType(usize),
    /// The field's name is not a plain SQL identifier, or is the identity
    /// column's name.
    InvalidName(usize),
    /// An earlier field has the same name.
    DuplicateName(usize),
}

pub open spec fn is_ident_start(c: char) -> bool {
    ('a' <= c && c <= 'z') || ('A' <= c && c <= 'Z') || c == '_'
}

pub open spec fn is_ident_char(c: char) -> bool {
    is_ident_start(c) || ('0' <= c && c <= '9')
}

/// A name that SQL accepts unquoted: a letter or underscore, then letters,
/// digits and underscores.
pub open spec fn is_identifier(s: Seq<char>) -> bool {
    &&& s.len() > 0
    &&& is_ident_start(s[0])
    &&& forall|i: int| 1 <= i < s.len() ==> is_ident_char(#[trigger] s[i])
}

/// The name of the identity column, which no field may take.
pub open spec fn identity_name() -> Seq<char> {
    seq!['i', 'd']
}

/// What is wrong with field `i` alone or against the fields before it.
pub open spec fn field_problem(fs: Seq<ModelField>, i: int) -> Option<SchemaError> {
    if !is_field_type(fs[i].col_type) {
        Some(SchemaError::UnsupportedType(i as usize))
    } else if !is_identifier(fs[i].name@) || fs[i].name@ == identity_name() {
        Some(SchemaError::InvalidName(i as usize))
    } else if exists|j: int| 0 <= j < i && fs[j].name@ == fs[i].name@ {
        Some(SchemaError::DuplicateName(i as usize))
    } else {
        None
    }
}

/// The problem of the first faulty field among the first `n`, if any.
pub open spec fn first_problem(fs: Seq<ModelField>, n: int) -> Option<SchemaError>
    decreases n,
{
    if n <= 0 {
        None
    } else {
        match first_problem(fs, n - 1) {
            Some(e) => Some(e),
            None => field_problem(fs, n - 1),
        }
    }
}

/// A field list that a model can be stored with: supported column types,
/// plain identifiers other than the identity column's name, no name twice.
pub open spec fn fields_ok(fs: Seq<ModelField>) -> bool {
    &&& forall|i: int|
        0 <= i < fs.len() ==> is_field_type(#[trigger] fs[i].col_type) && is_identifier(
            fs[i].name@,
        ) && fs[i].name@ != identity_name()
    &&& forall|i: int, j: int|
        0 <= j < i < fs.len() ==> #[trigger] fs[j].name@ != #[trigger] fs[i].name@
}

proof fn lemma_first_problem(fs: Seq<ModelField>, n: int)
    requires
        0 <= n <= fs.len(),
    ensures
        first_problem(fs, n).is_none() <==> forall|i: int|
            0 <= i < n ==> #[trigger] field_problem(fs, i).is_none(),
    decreases n,
{
    if n > 0 {
        lemma_first_problem(fs, n - 1);
    }
}

proof fn lemma_no_problem_is_ok(fs: Seq<ModelField>)
    ensures
        first_problem(fs, fs.len() as int).is_none() <==> fields_ok(fs),
{
    lemma_first_problem(fs, fs.len() as int);
    if first_problem(fs, fs.len() as int).is_none() {
        assert forall|i: int, j: int| 0 <= j < i < fs.len() implies #[trigger] fs[j].name@
            != #[trigger] fs[i].name@ by {
            assert(field_problem(fs, i).is_none());
        }
        assert forall|i: int| 0 <= i < fs.len() implies is_field_type(
            #[trigger] fs[i].col_type,
        ) && is_identifier(fs[i].name@) && fs[i].name@ != identity_name() by {
            assert(field_problem(fs, i).is_none());
        }
    }
    if fields_ok(fs) {
        assert forall|i: int| 0 <= i < fs.len() implies #[trigger] field_problem(
            fs,
            i,
        ).is_none() by {
            assert(is_field_type(fs[i].col_type));
            if exists|j: int| 0 <= j < i && fs[j].name@ == fs[i].name@ {
                let j = choose|j: int| 0 <= j < i && fs[j].name@ == fs[i].name@;
                assert(fs[j].name@ != fs[i].name@);
            }
        }
    }
}

fn is_ident_start_char(c: char) -> (r: bool)
    ensures
        r == is_ident_start(c),
{
    ('a' <= c && c <= 'z') || ('A' <= c && c <= 'Z') || c == '_'
}

fn is_ident_char_exec(c: char) -> (r: bool)
    ensures
        r == is_ident_char(c),
{
    is_ident_start_char(c) || ('0' <= c && c <= '9')
}

/// Whether `s` is a plain SQL identifier.
pub fn is_identifier_str(s: &str) -> (r: bool)
    ensures
        r == is_identifier(s@),
{
    let n = s.unicode_len();
    if n == 0 {
        return false;
    }
    if !is_ident_start_char(s.get_char(0)) {
        return false;
    }
    let mut i: usize = 1;
    while i < n
        invariant
            n == s@.len(),
            1 <= i <= n,
            forall|k: int| 1 <= k < i ==> is_ident_char(#[trigger] s@[k]),
        decreases n - i,
    {
        if !is_ident_char_exec(s.get_char(i)) {
            return false;
        }
        i = i + 1;
    }
    true
}

fn is_identity_name(s: &str) -> (r: bool)
    ensures
        r == (s@ == identity_name()),
{
    let n = s.unicode_len();
    if n != 2 {
        return false;
    }
    let r = s.get_char(0) == 'i' && s.get_char(1) == 'd';
    assert(r ==> s@ =~= identity_name());
    r
}

/// Checks a field list, reporting the first field at fault.
pub fn check_fields(fields: &Vec<ModelField>) -> (r: Result<(), SchemaError>)
    ensures
        r is Ok <==> fields_ok(fields@),
        r matches Err(e) ==> first_problem(fields@, fields@.len() as int) == Some(e),
{
    let ghost fs = fields@;
    let mut i: usize = 0;
    while i < fields.len()
        invariant
            fs == fields@,
            i <= fs.len(),
            first_problem(fs, i as int).is_none(),
        decreases fs.len() - i,
    {
        let f = &fields[i];
        if !f.col_type.is_field_type() {
            proof {
                lemma_no_problem_is_ok(fs);
                lemma_first_problem_stays(fs, i as int + 1);
            }
            return Err(SchemaError::UnsupportedType(i));
        }
        if !is_identifier_str(f.name.as_str()) || is_identity_name(f.name.as_str()) {
            proof {
                lemma_no_problem_is_ok(fs);
                lemma_first_problem_stays(fs, i as int + 1);
            }
            return Err(SchemaError::InvalidName(i));
        }
        let mut j: usize = 0;
        while j < i
            invariant
                fs == fields@,
                j <= i < fs.len(),
                first_problem(fs, i as int).is_none(),
                is_field_type(fs[i as int].col_type),
                is_identifier(fs[i as int].name@),
                fs[i as int].name@ != identity_name(),
                forall|k: int| 0 <= k < j ==> fs[k].name@ != fs[i as int].name@,
            decreases i - j,
        {
            if fields[j].name == fields[i].name {
                proof {
                    assert(fs[j as int].name@ == fs[i as int].name@);
                    assert(field_problem(fs, i as int) == Some(SchemaError::DuplicateName(i)));
                    lemma_no_problem_is_ok(fs);
                    lemma_first_problem_stays(fs, i as int + 1);
                }
                return Err(SchemaError::DuplicateName(i));
            }
            j = j + 1;
        }
        i = i + 1;
    }
    proof {
        lemma_no_problem_is_ok(fs);
    }
    Ok(())
}

/// Once a problem is found among the first `n` fields, it stays the first.
proof fn lemma_first_problem_stays(fs: Seq<ModelField>, n: int)
    requires
        0 <= n <= fs.len(),
        first_problem(fs, n).is_some(),
    ensures
        first_problem(fs, fs.len() as int) == first_problem(fs, n),
    decreases fs.len() - n,
{
    if n < fs.len() {
        lemma_first_problem_stays(fs, n + 1);
    }
}

/// What `str::to_lowercase` makes of a character sequence.
pub uninterp spec fn lower_of(s: Seq<char>) -> Seq<char>;

/// Relies on `str::to_lowercase`: the result depends on the characters alone.
#[verifier::external_body]
fn lowercase(s: &str) -> (r: String)
    ensures
        r@ == lower_of(s@),
{
    s.to_lowercase()
}

/// The table a model is stored in unless it names another: its name in
/// lower case, with an `s` appended.
pub open spec fn default_table_name(model_name: Seq<char>) -> Seq<char> {
    lower_of(model_name) + seq!['s']
}

/// The schema of one model: its name, its table and its fields in column
/// order. The identity column `id` comes before the fields and is not listed.
#[derive(Clone, Debug, PartialEq, Eq)]
pub struct ModelSchema {
    pub model_name: String,
    pub table_name: String,
    pub fields: Vec<ModelField>,
}

impl ModelSchema {
    pub open spec fn wf(&self) -> bool {
        fields_ok(self.fields@)
    }

    /// A schema stored in the table of the given name.
    pub fn with_table_name(model_name: &str, table_name: &str, fields: Vec<ModelField>) -> (r:
        Result<ModelSchema, SchemaError>)
        ensures
            r is Ok <==> fields_ok(fields@),
            r matches Ok(s) ==> s.wf() && s.model_name@ == model_name@ && s.table_name@
                == table_name@ && s.fields@ == fields@,
            r matches Err(e) ==> first_problem(fields@, fields@.len() as int) == Some(e),
    {
        match check_fields(&fields) {
            Ok(()) => Ok(
                ModelSchema {
                    model_name: model_name.to_owned(),
                    table_name: table_name.to_owned(),
                    fields,
                },
            ),
            Err(e) => Err(e),
        }
    }

    /// A schema stored in the default table for the model's name.
    pub fn new(model_name: &str, fields: Vec<ModelField>) -> (r: Result<
        ModelSchema,
        SchemaError,
    >)
        ensures
            r is Ok <==> fields_ok(fields@),
            r matches Ok(s) ==> s.wf() && s.model_name@ == model_name@ && s.table_name@
                == default_table_name(model_name@) && s.fields@ == fields@,
            r matches Err(e) ==> first_problem(fields@, fields@.len() as int) == Some(e),
    {
        let table = lowercase(model_name).concat("s");
        proof {
            reveal_strlit("s");
            assert("s"@ =~= seq!['s']);
        }
        Self::with_table_name(model_name, table.as_str(), fields)
    }

    /// The number of fields, the identity column not counted.
    pub fn field_count(&self) -> (r: usize)
        ensures
            r == self.fields@.len(),
    {
        self.fields.len()
    }
}

impl ModelField {
    pub fn new(name: &str, col_type: ColumnType) -> (r: ModelField)
        ensures
            r.name@ == name@,
            r.col_type == col_type,
    {
        ModelField { name: name.to_owned(), col_type }
    }
}

impl ColumnType {
    /// Whether a model field may have this column type.
    pub fn is_field_type(&self) -> (r: bool)
        ensures
            r == is_field_type(*self),
    {
        match self {
            ColumnType::Text | ColumnType::Integer | ColumnType::Real => true,
            _ => false,
        }
    }
}

} // verus!
