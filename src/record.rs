//! Model records: an optional identity and one storage value per field, and
//! their conversion to and from the positional rows of a table.
use vstd::prelude::*;

use crate::schema::ModelField;
use crate::value::{value_type, ColumnType, StorageValue};

verus! {

/// One model instance in stored form. An absent identity marks an instance
/// that has not been persisted yet.
#[derive(Clone, Debug, PartialEq, Eq)]
pub struct Record {
    pub id: Option<i64>,
    pub values: Vec<StorageValue>,
}

impl View for Record {
    type V = (Option<i64>, Seq<StorageValue>);

    open spec fn view(&self) -> (Option<i64>, Seq<StorageValue>) {
        (self.id, self.values@)
    }
}

/// Why a row cannot be read back as a record.
#[derive(Clone, Copy, Debug, PartialEq, Eq, Structural)]
pub enum DecodeError {
    /// The row does not have one column for the identity and one for each
    /// of the `fields` fields.
    ColumnCount { fields: usize, found: usize },
    /// The column at this position holds a value of the wrong kind.
    ColumnType(usize),
}

/// The stored form of an identity: the identity itself, or zero when absent.
pub open spec fn identity_value(id: Option<i64>) -> StorageValue {
    StorageValue::Integer(
        match id {
            Some(i) => i,
            None => 0,
        },
    )
}

/// The identity that a stored identity column stands for.
pub open spec fn identity_of(v: StorageValue) -> Option<i64> {
    match v {
        StorageValue::Integer(i) => if i == 0 {
            None
        } else {
            Some(i)
        },
        _ => None,
    }
}

/// The row of a record: its identity first, then its field values in order.
pub open spec fn decompose_spec(r: (Option<i64>, Seq<StorageValue>)) -> Seq<StorageValue> {
    seq![identity_value(r.0)] + r.1
}

/// A record that fits the fields: a present identity is not zero, and there
/// is one value per field, of the field's column type.
pub open spec fn conforms(fs: Seq<ModelField>, r: (Option<i64>, Seq<StorageValue>)) -> bool {
    &&& r.0 != Some(0i64)
    &&& r.1.len() == fs.len()
    &&& forall|i: int| 0 <= i < fs.len() ==> value_type(#[trigger] r.1[i]) == fs[i].col_type
}

/// Whether column `i` of a row holds the kind of value its position needs:
/// an integer identity first, then each field's column type.
pub open spec fn column_ok(fs: Seq<ModelField>, row: Seq<StorageValue>, i: int) -> bool {
    if i == 0 {
        value_type(row[0]) == ColumnType::Integer
    } else {
        value_type(row[i]) == fs[i - 1].col_type
    }
}

/// The first of the first `n` columns that does not hold what it should.
pub open spec fn first_bad_column(fs: Seq<ModelField>, row: Seq<StorageValue>, n: int) -> Option<
    int,
>
    decreases n,
{
    if n <= 0 {
        None
    } else {
        match first_bad_column(fs, row, n - 1) {
            Some(k) => Some(k),
            None => if column_ok(fs, row, n - 1) {
                None
            } else {
                Some(n - 1)
            },
        }
    }
}

/// What keeps a row from being read as a record of these fields, if anything.
pub open spec fn row_problem(fs: Seq<ModelField>, row: Seq<StorageValue>) -> Option<
    DecodeError,
> {
    if row.len() != fs.len() + 1 {
        Some(DecodeError::ColumnCount { fields: fs.len() as usize, found: row.len() as usize })
    } else {
        match first_bad_column(fs, row, row.len() as int) {
            Some(k) => Some(DecodeError::ColumnType(k as usize)),
            None => None,
        }
    }
}

/// The record a well-formed row stands for.
pub open spec fn reconstruct_spec(row: Seq<StorageValue>) -> (Option<i64>, Seq<StorageValue>) {
    (identity_of(row[0]), row.drop_first())
}

proof fn lemma_first_bad_column(fs: Seq<ModelField>, row: Seq<StorageValue>, n: int)
    requires
        0 <= n,
    ensures
        first_bad_column(fs, row, n).is_none() <==> forall|i: int|
            0 <= i < n ==> #[trigger] column_ok(fs, row, i),
        first_bad_column(fs, row, n) matches Some(k) ==> 0 <= k < n && !column_ok(fs, row, k),
    decreases n,
{
    if n > 0 {
        lemma_first_bad_column(fs, row, n - 1);
    }
}

/// A row whose first `n` columns all hold what they should has no bad
/// column among them.
pub proof fn lemma_first_bad_column_all_ok(fs: Seq<ModelField>, row: Seq<StorageValue>, n: int)
    requires
        0 <= n,
        forall|i: int| 0 <= i < n ==> #[trigger] column_ok(fs, row, i),
    ensures
        first_bad_column(fs, row, n).is_none(),
{
    lemma_first_bad_column(fs, row, n);
}

proof fn lemma_first_bad_column_stays(fs: Seq<ModelField>, row: Seq<StorageValue>, n: int, m: int)
    requires
        0 <= n <= m,
        first_bad_column(fs, row, n).is_some(),
    ensures
        first_bad_column(fs, row, m) == first_bad_column(fs, row, n),
    decreases m - n,
{
    if n < m {
        lemma_first_bad_column_stays(fs, row, n + 1, m);
    }
}

impl Record {
    /// The row of the record: the identity (zero when absent), then each
    /// field value in order.
    pub fn decompose(&self) -> (r: Vec<StorageValue>)
        ensures
            r@ == decompose_spec(self@),
    {
        let mut r: Vec<StorageValue> = Vec::new();
        r.push(
            StorageValue::Integer(
                match self.id {
                    Some(i) => i,
                    None => 0,
                },
            ),
        );
        let mut i: usize = 0;
        while i < self.values.len()
            invariant
                i <= self.values@.len(),
                r@ == decompose_spec(self@).take(i as int + 1),
            decreases self.values@.len() - i,
        {
            r.push(self.values[i].duplicate());
            i = i + 1;
            assert(r@ =~= decompose_spec(self@).take(i as int + 1));
        }
        assert(r@ =~= decompose_spec(self@));
        r
    }

    /// Reads a row back as a record of the given fields. The row must have
    /// one column for the identity and one per field, each of the right kind.
    pub fn reconstruct(fields: &Vec<ModelField>, row: &Vec<StorageValue>) -> (r: Result<
        Record,
        DecodeError,
    >)
        ensures
            r is Ok <==> row_problem(fields@, row@).is_none(),
            r matches Ok(rec) ==> rec@ == reconstruct_spec(row@),
            r matches Err(e) ==> row_problem(fields@, row@) == Some(e),
    {
        let n = row.len();
        if n == 0 || n - 1 != fields.len() {
            return Err(DecodeError::ColumnCount { fields: fields.len(), found: n });
        }
        let mut i: usize = 0;
        while i < n
            invariant
                n == row@.len() == fields@.len() + 1,
                i <= n,
                first_bad_column(fields@, row@, i as int).is_none(),
            decreases n - i,
        {
            let ok = if i == 0 {
                row[0].column_type() == ColumnType::Integer
            } else {
                row[i].column_type() == fields[i - 1].col_type
            };
            if !ok {
                proof {
                    lemma_first_bad_column_stays(fields@, row@, i as int + 1, n as int);
                }
                return Err(DecodeError::ColumnType(i));
            }
            i = i + 1;
        }
        let id = match &row[0] {
            StorageValue::Integer(v) => if *v == 0 {
                None
            } else {
                Some(*v)
            },
            _ => None,
        };
        let mut values: Vec<StorageValue> = Vec::new();
        let mut k: usize = 1;
        while k < n
            invariant
                n == row@.len(),
                1 <= k <= n,
                values@ == row@.subrange(1, k as int),
            decreases n - k,
        {
            values.push(row[k].duplicate());
            k = k + 1;
            assert(values@ =~= row@.subrange(1, k as int));
        }
        assert(values@ =~= row@.drop_first());
        Ok(Record { id, values })
    }

    /// Whether the record fits the fields.
    pub fn conforms_to(&self, fields: &Vec<ModelField>) -> (r: bool)
        ensures
            r == conforms(fields@, self@),
    {
        if let Some(id) = self.id {
            if id == 0 {
                return false;
            }
        }
        if self.values.len() != fields.len() {
            return false;
        }
        let mut i: usize = 0;
        while i < fields.len()
            invariant
                i <= fields@.len() == self.values@.len(),
                forall|k: int| 0 <= k < i ==> value_type(#[trigger] self.values@[k]) == fields@[k].col_type,
            decreases fields@.len() - i,
        {
            if self.values[i].column_type() != fields[i].col_type {
                return false;
            }
            i = i + 1;
        }
        true
    }
}

/// A record that fits its model's fields decomposes into exactly one column
/// for the identity and one per field, and that row reads back as the same
/// record. A row with any other number of columns is refused with a decode
/// error.
pub proof fn law_row_round_trip(
    fs: Seq<ModelField>,
    r: (Option<i64>, Seq<StorageValue>),
    row: Seq<StorageValue>,
)
    requires
        conforms(fs, r),
    ensures
        decompose_spec(r).len() == fs.len() + 1,
        row_problem(fs, decompose_spec(r)).is_none(),
        reconstruct_spec(decompose_spec(r)) == r,
        row.len() != fs.len() + 1 ==> row_problem(fs, row) matches Some(
            DecodeError::ColumnCount { .. },
        ),
{
    let d = decompose_spec(r);
    assert forall|i: int| 0 <= i < d.len() implies #[trigger] column_ok(fs, d, i) by {
        if i > 0 {
            assert(d[i] == r.1[i - 1]);
        }
    }
    lemma_first_bad_column_all_ok(fs, d, d.len() as int);
    assert(d.drop_first() =~= r.1);
}

} // verus!
