//! The query and persistence engine of one model. It decides what each
//! operation does, renders the statement to run with its bound values, and
//! reads the fetched rows back as records; running a statement against a
//! connection is left to the caller.
use vstd::prelude::*;

use crate::record::{
    column_ok, conforms, decompose_spec, lemma_first_bad_column_all_ok, reconstruct_spec,
    row_problem, DecodeError, Record,
};
use crate::schema::ModelSchema;
use crate::sql::{by_id_condition, insert_text, select_text, upsert_text};
use crate::value::StorageValue;

verus! {

/// Why an operation of the engine fails.
#[derive(Clone, Copy, Debug, PartialEq, Eq, Structural)]
pub enum OrmError {
    /// `insert` was given a record that already has this identity.
    State(i64),
    /// No row has the identity asked for.
    NotFound,
    /// The fetched row at this position cannot be read as a record.
    Decode { row: usize, error: DecodeError },
    /// The record does not have one value of the right kind per field, or
    /// has the identity zero.
    NotConforming,
}

/// A statement and the values bound to its placeholders, in order.
#[derive(Clone, Debug, PartialEq, Eq)]
pub struct Statement {
    pub sql: String,
    pub params: Vec<StorageValue>,
}

/// What `save` runs: an insert, whose new row is then fetched by the identity
/// the engine assigned, or an update in place, after which the record stands
/// as it was.
#[derive(Clone, Debug, PartialEq, Eq)]
pub enum SaveStep {
    Insert(Statement),
    Update(Statement),
}

/// The engine bound to one model's schema.
#[derive(Clone, Debug, PartialEq, Eq)]
pub struct QuerySet {
    pub schema: ModelSchema,
}

pub type RecordView = (Option<i64>, Seq<StorageValue>);

/// The views of the records, in order.
pub open spec fn record_views(rs: Seq<Record>) -> Seq<RecordView> {
    rs.map_values(|r: Record| r@)
}

/// The first of the first `n` rows that cannot be read as a record.
pub open spec fn first_bad_row(schema: ModelSchema, rows: Seq<Vec<StorageValue>>, n: int) -> Option<
    int,
>
    decreases n,
{
    if n <= 0 {
        None
    } else {
        match first_bad_row(schema, rows, n - 1) {
            Some(k) => Some(k),
            None => if row_problem(schema.fields@, rows[n - 1]@).is_none() {
                None
            } else {
                Some(n - 1)
            },
        }
    }
}

/// The fetched rows read as records, in the order fetched; or the error of
/// the first row that cannot be read.
pub open spec fn rows_outcome(schema: ModelSchema, rows: Seq<Vec<StorageValue>>) -> Result<
    Seq<RecordView>,
    OrmError,
> {
    match first_bad_row(schema, rows, rows.len() as int) {
        Some(i) => Err(
            OrmError::Decode { row: i as usize, error: row_problem(schema.fields@, rows[i]@)->0 },
        ),
        None => Ok(rows.map_values(|r: Vec<StorageValue>| reconstruct_spec(r@))),
    }
}

/// What `get` makes of the rows fetched for an identity: the first record,
/// or not-found when there is none.
pub open spec fn get_outcome(schema: ModelSchema, rows: Seq<Vec<StorageValue>>) -> Result<
    RecordView,
    OrmError,
> {
    match rows_outcome(schema, rows) {
        Err(e) => Err(e),
        Ok(rs) => if rs.len() == 0 {
            Err(OrmError::NotFound)
        } else {
            Ok(rs[0])
        },
    }
}

/// What `find_by_id` makes of the rows fetched for an identity: the first
/// record, or `None` when there is none.
pub open spec fn find_outcome(schema: ModelSchema, rows: Seq<Vec<StorageValue>>) -> Result<
    Option<RecordView>,
    OrmError,
> {
    match rows_outcome(schema, rows) {
        Err(e) => Err(e),
        Ok(rs) => if rs.len() == 0 {
            Ok(None)
        } else {
            Ok(Some(rs[0]))
        },
    }
}

proof fn lemma_first_bad_row(schema: ModelSchema, rows: Seq<Vec<StorageValue>>, n: int)
    requires
        0 <= n,
    ensures
        first_bad_row(schema, rows, n).is_none() <==> forall|i: int|
            0 <= i < n ==> (#[trigger] row_problem(schema.fields@, rows[i]@)).is_none(),
        first_bad_row(schema, rows, n) matches Some(k) ==> 0 <= k < n && row_problem(
            schema.fields@,
            rows[k]@,
        ).is_some(),
    decreases n,
{
    if n > 0 {
        lemma_first_bad_row(schema, rows, n - 1);
    }
}

proof fn lemma_first_bad_row_stays(
    schema: ModelSchema,
    rows: Seq<Vec<StorageValue>>,
    n: int,
    m: int,
)
    requires
        0 <= n <= m,
        first_bad_row(schema, rows, n).is_some(),
    ensures
        first_bad_row(schema, rows, m) == first_bad_row(schema, rows, n),
    decreases m - n,
{
    if n < m {
        lemma_first_bad_row_stays(schema, rows, n + 1, m);
    }
}

impl QuerySet {
    pub fn new(schema: ModelSchema) -> (r: QuerySet)
        ensures
            r.schema == schema,
    {
        QuerySet { schema }
    }

    /// The number of fields, the identity column not counted.
    pub fn field_count(&self) -> (r: usize)
        ensures
            r == self.schema.fields@.len(),
    {
        self.schema.field_count()
    }

    /// The statement that inserts a new record: every field value, bound in
    /// field order, while the engine assigns the identity. A record that
    /// already has an identity is refused.
    pub fn insert(&self, record: &Record) -> (r: Result<Statement, OrmError>)
        ensures
            record.id matches Some(i) ==> r == Err::<Statement, OrmError>(OrmError::State(i)),
            record.id is None && !conforms(self.schema.fields@, record@) ==> r == Err::<
                Statement,
                OrmError,
            >(OrmError::NotConforming),
            record.id is None && conforms(self.schema.fields@, record@) ==> (r matches Ok(st)
                && st.sql@ == insert_text(self.schema.table_name@, self.schema.fields@)
                && st.params@ == decompose_spec(record@).drop_first()),
    {
        if let Some(id) = record.id {
            return Err(OrmError::State(id));
        }
        if !record.conforms_to(&self.schema.fields) {
            return Err(OrmError::NotConforming);
        }
        let row = record.decompose();
        let mut params: Vec<StorageValue> = Vec::new();
        let mut i: usize = 1;
        while i < row.len()
            invariant
                1 <= i <= row@.len(),
                params@ == row@.subrange(1, i as int),
            decreases row@.len() - i,
        {
            params.push(row[i].duplicate());
            i = i + 1;
            assert(params@ =~= row@.subrange(1, i as int));
        }
        assert(params@ =~= row@.drop_first());
        Ok(Statement { sql: self.schema.insert_sql(), params })
    }

    /// The statement that writes a record under its identity: it inserts the
    /// row, or overwrites every field of the row that has that identity. The
    /// whole row is bound, identity first (zero when absent).
    pub fn upsert(&self, record: &Record) -> (r: Result<Statement, OrmError>)
        ensures
            !conforms(self.schema.fields@, record@) ==> r == Err::<Statement, OrmError>(
                OrmError::NotConforming,
            ),
            conforms(self.schema.fields@, record@) ==> (r matches Ok(st) && st.sql@ == upsert_text(
                self.schema.table_name@,
                self.schema.fields@,
            ) && st.params@ == decompose_spec(record@)),
    {
        if !record.conforms_to(&self.schema.fields) {
            return Err(OrmError::NotConforming);
        }
        Ok(Statement { sql: self.schema.upsert_sql(), params: record.decompose() })
    }

    /// What saving a record runs: an insert when it has no identity yet, else
    /// an update in place.
    pub fn save(&self, record: &Record) -> (r: Result<SaveStep, OrmError>)
        ensures
            !conforms(self.schema.fields@, record@) ==> r == Err::<SaveStep, OrmError>(
                OrmError::NotConforming,
            ),
            conforms(self.schema.fields@, record@) && record.id is None ==> (r matches Ok(
                SaveStep::Insert(st),
            ) && st.sql@ == insert_text(self.schema.table_name@, self.schema.fields@)
                && st.params@ == decompose_spec(record@).drop_first()),
            conforms(self.schema.fields@, record@) && record.id is Some ==> (r matches Ok(
                SaveStep::Update(st),
            ) && st.sql@ == upsert_text(self.schema.table_name@, self.schema.fields@)
                && st.params@ == decompose_spec(record@)),
    {
        if record.id.is_none() {
            match self.insert(record) {
                Ok(st) => Ok(SaveStep::Insert(st)),
                Err(e) => Err(e),
            }
        } else {
            match self.upsert(record) {
                Ok(st) => Ok(SaveStep::Update(st)),
                Err(e) => Err(e),
            }
        }
    }

    /// The statement that fetches the rows meeting a condition, which is
    /// passed on verbatim, with the values bound to its placeholders.
    pub fn select(&self, condition: &str, params: Vec<StorageValue>) -> (r: Statement)
        ensures
            r.sql@ == select_text(self.schema.table_name@, condition@),
            r.params == params,
    {
        Statement { sql: self.schema.select_sql(condition), params }
    }

    /// The statement that fetches the row of one identity.
    pub fn select_by_id(&self, id: i64) -> (r: Statement)
        ensures
            r.sql@ == select_text(self.schema.table_name@, by_id_condition()),
            r.params@ == seq![StorageValue::Integer(id)],
    {
        let mut params: Vec<StorageValue> = Vec::new();
        params.push(StorageValue::Integer(id));
        self.select("id=?", params)
    }

    /// The statement that fetches the row a foreign key refers to, or `None`
    /// when the key is zero and so refers to nothing.
    pub fn foreign_key_lookup(&self, key: i64) -> (r: Option<Statement>)
        ensures
            key == 0 ==> r is None,
            key != 0 ==> (r matches Some(st) && st.sql@ == select_text(
                self.schema.table_name@,
                by_id_condition(),
            ) && st.params@ == seq![StorageValue::Integer(key)]),
    {
        if key == 0 {
            None
        } else {
            Some(self.select_by_id(key))
        }
    }

    /// Reads every fetched row as a record, in order. A row that cannot be
    /// read fails the whole call; no row is skipped.
    pub fn decode_rows(&self, rows: &Vec<Vec<StorageValue>>) -> (r: Result<Vec<Record>, OrmError>)
        ensures
            match r {
                Ok(rs) => rows_outcome(self.schema, rows@) == Ok::<Seq<RecordView>, OrmError>(
                    record_views(rs@),
                ),
                Err(e) => rows_outcome(self.schema, rows@) == Err::<Seq<RecordView>, OrmError>(e),
            },
    {
        let mut out: Vec<Record> = Vec::new();
        let mut i: usize = 0;
        while i < rows.len()
            invariant
                i <= rows@.len(),
                first_bad_row(self.schema, rows@, i as int).is_none(),
                record_views(out@) == rows@.take(i as int).map_values(
                    |r: Vec<StorageValue>| reconstruct_spec(r@),
                ),
            decreases rows@.len() - i,
        {
            match Record::reconstruct(&self.schema.fields, &rows[i]) {
                Ok(rec) => {
                    let ghost before = out@;
                    out.push(rec);
                    i = i + 1;
                    assert(record_views(out@) =~= record_views(before).push(rec@));
                    assert(rows@.take(i as int).map_values(
                        |r: Vec<StorageValue>| reconstruct_spec(r@),
                    ) =~= rows@.take(i - 1).map_values(
                        |r: Vec<StorageValue>| reconstruct_spec(r@),
                    ).push(reconstruct_spec(rows@[i - 1]@)));
                },
                Err(e) => {
                    proof {
                        lemma_first_bad_row_stays(
                            self.schema,
                            rows@,
                            i as int + 1,
                            rows@.len() as int,
                        );
                    }
                    return Err(OrmError::Decode { row: i, error: e });
                },
            }
        }
        assert(rows@.take(rows@.len() as int) =~= rows@);
        Ok(out)
    }

    /// The first record among the rows fetched for an identity; not-found
    /// when no row came back.
    pub fn get_result(&self, rows: &Vec<Vec<StorageValue>>) -> (r: Result<Record, OrmError>)
        ensures
            match r {
                Ok(rec) => get_outcome(self.schema, rows@) == Ok::<RecordView, OrmError>(rec@),
                Err(e) => get_outcome(self.schema, rows@) == Err::<RecordView, OrmError>(e),
            },
    {
        match self.decode_rows(rows) {
            Err(e) => Err(e),
            Ok(mut rs) => {
                if rs.len() == 0 {
                    Err(OrmError::NotFound)
                } else {
                    let ghost all = rs@;
                    let rec = rs.remove(0);
                    assert(record_views(all)[0] == rec@);
                    Ok(rec)
                }
            },
        }
    }

    /// The first record among the rows fetched for an identity, or `None`
    /// when no row came back.
    pub fn find_by_id_result(&self, rows: &Vec<Vec<StorageValue>>) -> (r: Result<
        Option<Record>,
        OrmError,
    >)
        ensures
            match r {
                Ok(Some(rec)) => find_outcome(self.schema, rows@) == Ok::<
                    Option<RecordView>,
                    OrmError,
                >(Some(rec@)),
                Ok(None) => find_outcome(self.schema, rows@) == Ok::<Option<RecordView>, OrmError>(
                    None,
                ),
                Err(e) => find_outcome(self.schema, rows@) == Err::<Option<RecordView>, OrmError>(
                    e,
                ),
            },
    {
        match self.decode_rows(rows) {
            Err(e) => Err(e),
            Ok(mut rs) => {
                if rs.len() == 0 {
                    Ok(None)
                } else {
                    let ghost all = rs@;
                    let rec = rs.remove(0);
                    assert(record_views(all)[0] == rec@);
                    Ok(Some(rec))
                }
            },
        }
    }
}

/// A record inserted without an identity reads back unchanged: when the row
/// fetched for the identity that the storage engine assigned is that
/// identity followed by the values `insert` bound, `get` and `find_by_id`
/// give the record with that identity and every field value as it was.
pub proof fn law_insert_then_fetch(
    schema: ModelSchema,
    r: RecordView,
    id: i64,
    fetched: Vec<StorageValue>,
)
    requires
        conforms(schema.fields@, r),
        r.0 is None,
        id != 0,
        fetched@ == seq![StorageValue::Integer(id)] + decompose_spec(r).drop_first(),
    ensures
        get_outcome(schema, seq![fetched]) == Ok::<RecordView, OrmError>((Some(id), r.1)),
        find_outcome(schema, seq![fetched]) == Ok::<Option<RecordView>, OrmError>(
            Some((Some(id), r.1)),
        ),
{
    let fs = schema.fields@;
    let row = fetched@;
    assert(decompose_spec(r).drop_first() =~= r.1);
    assert forall|i: int| 0 <= i < row.len() implies #[trigger] column_ok(fs, row, i) by {
        if i > 0 {
            assert(row[i] == r.1[i - 1]);
        }
    }
    lemma_first_bad_column_all_ok(fs, row, row.len() as int);
    assert(row.drop_first() =~= r.1);
    let rows = seq![fetched];
    assert(first_bad_row(schema, rows, 0).is_none());
    assert(first_bad_row(schema, rows, 1).is_none());
    assert(rows.map_values(|v: Vec<StorageValue>| reconstruct_spec(v@)) =~= seq![
        reconstruct_spec(row),
    ]);
}

/// When no row comes back for an identity, `find_by_id` gives `None` while
/// `get` fails with not-found; a selection that matches nothing is an empty
/// sequence, not an error.
pub proof fn law_nothing_found(schema: ModelSchema, rows: Seq<Vec<StorageValue>>)
    requires
        rows.len() == 0,
    ensures
        rows_outcome(schema, rows) == Ok::<Seq<RecordView>, OrmError>(Seq::empty()),
        find_outcome(schema, rows) == Ok::<Option<RecordView>, OrmError>(None),
        get_outcome(schema, rows) == Err::<RecordView, OrmError>(OrmError::NotFound),
{
    assert(rows.map_values(|v: Vec<StorageValue>| reconstruct_spec(v@)) =~= Seq::empty());
}

/// Fetched rows that all read as records come back as records in the order
/// of the rows, one for each.
pub proof fn law_rows_keep_order(schema: ModelSchema, rows: Seq<Vec<StorageValue>>)
    requires
        forall|i: int| 0 <= i < rows.len() ==> (#[trigger] row_problem(schema.fields@, rows[i]@)).is_none(),
    ensures
        rows_outcome(schema, rows) matches Ok(rs) && rs.len() == rows.len() && forall|i: int|
            0 <= i < rows.len() ==> #[trigger] rs[i] == reconstruct_spec(rows[i]@),
{
    lemma_first_bad_row(schema, rows, rows.len() as int);
}

/// Two upserts of records with the same identity bind the same identity
/// first, and the second binds exactly its own field values after it.
pub proof fn law_upsert_rebinds_identity(schema: ModelSchema, a: RecordView, b: RecordView)
    requires
        conforms(schema.fields@, a),
        conforms(schema.fields@, b),
        a.0 == b.0,
    ensures
        decompose_spec(a)[0] == decompose_spec(b)[0],
        decompose_spec(b).drop_first() == b.1,
        decompose_spec(b).len() == decompose_spec(a).len(),
{
    assert(decompose_spec(b).drop_first() =~= b.1);
}

} // verus!
