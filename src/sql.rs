//! The SQL statements rendered from a schema.
use vstd::prelude::*;
use vstd::string::*;

use crate::schema::{ModelField, ModelSchema};
use crate::text::{join_strings, sep_join, views};
use crate::value::column_type_keyword;

verus! {

/// The column names of the fields, in order.
pub open spec fn names(fs: Seq<ModelField>) -> Seq<Seq<char>> {
    fs.map_values(|f: ModelField| f.name@)
}

/// `n` placeholders.
pub open spec fn question_marks(n: nat) -> Seq<Seq<char>> {
    Seq::new(n, |i: int| "?"@)
}

/// The column definition of one field: its name and its type keyword.
pub open spec fn column_decl(f: ModelField) -> Seq<char> {
    f.name@ + " "@ + column_type_keyword(f.col_type)
}

/// The assignment that takes a field's value from the row that conflicted.
pub open spec fn overwrite(f: ModelField) -> Seq<char> {
    f.name@ + " = excluded."@ + f.name@
}

pub open spec fn identity_decl() -> Seq<char> {
    "id INTEGER PRIMARY KEY AUTOINCREMENT"@
}

/// `CREATE TABLE IF NOT EXISTS t (id ..., f1 T1, f2 T2, ...);`
pub open spec fn init_stmt_text(table: Seq<char>, fs: Seq<ModelField>) -> Seq<char> {
    "CREATE TABLE IF NOT EXISTS "@ + table + " ("@ + sep_join(
        seq![identity_decl()] + fs.map_values(|f: ModelField| column_decl(f)),
        ", "@,
    ) + ");"@
}

/// `INSERT INTO t (f1, f2, ...) VALUES (?, ?, ...);`
pub open spec fn insert_text(table: Seq<char>, fs: Seq<ModelField>) -> Seq<char> {
    "INSERT INTO "@ + table + " ("@ + sep_join(names(fs), ", "@) + ") VALUES ("@ + sep_join(
        question_marks(fs.len()),
        ", "@,
    ) + ");"@
}

/// `INSERT INTO t (id, f1, ...) VALUES (?, ?, ...) ON CONFLICT(id) DO UPDATE
/// SET f1 = excluded.f1, ...;`
pub open spec fn upsert_text(table: Seq<char>, fs: Seq<ModelField>) -> Seq<char> {
    "INSERT INTO "@ + table + " ("@ + sep_join(seq!["id"@] + names(fs), ", "@) + ") VALUES ("@
        + sep_join(question_marks(fs.len() + 1), ", "@) + ") ON CONFLICT(id) DO UPDATE SET "@
        + sep_join(fs.map_values(|f: ModelField| overwrite(f)), ", "@) + ";"@
}

/// `SELECT * FROM t WHERE <condition> LIMIT 500;`
pub open spec fn select_text(table: Seq<char>, condition: Seq<char>) -> Seq<char> {
    "SELECT * FROM "@ + table + " WHERE "@ + condition + " LIMIT 500;"@
}

/// The condition that picks the row of one identity.
pub open spec fn by_id_condition() -> Seq<char> {
    "id=?"@
}

impl ModelSchema {
    /// The field names, in column order.
    pub fn field_names(&self) -> (r: Vec<String>)
        ensures
            views(r@) == names(self.fields@),
    {
        let mut r: Vec<String> = Vec::new();
        let mut i: usize = 0;
        while i < self.fields.len()
            invariant
                i <= self.fields@.len(),
                r@.len() == i,
                forall|k: int| 0 <= k < i ==> #[trigger] r@[k]@ == self.fields@[k].name@,
            decreases self.fields@.len() - i,
        {
            r.push(self.fields[i].name.clone());
            i = i + 1;
        }
        assert(views(r@) =~= names(self.fields@));
        r
    }

    /// The field names joined by commas.
    pub fn sql_fields(&self) -> (r: String)
        ensures
            r@ == sep_join(names(self.fields@), ", "@),
    {
        join_strings(&self.field_names(), ", ")
    }

    /// One placeholder for each field, joined by commas.
    pub fn sql_placeholders(&self) -> (r: String)
        ensures
            r@ == sep_join(question_marks(self.fields@.len()), ", "@),
    {
        placeholders(self.fields.len())
    }

    /// The statement that creates the model's table if it does not exist.
    pub fn init_stmt(&self) -> (r: String)
        ensures
            r@ == init_stmt_text(self.table_name@, self.fields@),
    {
        let mut parts: Vec<String> = Vec::new();
        parts.push(String::from_str("id INTEGER PRIMARY KEY AUTOINCREMENT"));
        let mut i: usize = 0;
        while i < self.fields.len()
            invariant
                i <= self.fields@.len(),
                parts@.len() == i + 1,
                parts@[0]@ == identity_decl(),
                forall|k: int| 0 <= k < i ==> #[trigger] parts@[k + 1]@ == column_decl(self.fields@[k]),
            decreases self.fields@.len() - i,
        {
            let f = &self.fields[i];
            let decl = f.name.clone().concat(" ").concat(f.col_type.keyword().as_str());
            parts.push(decl);
            i = i + 1;
        }
        let ghost decls = seq![identity_decl()] + self.fields@.map_values(|f: ModelField| column_decl(f));
        assert forall|k: int| 0 <= k < decls.len() implies #[trigger] views(parts@)[k] == decls[k] by {
            if k > 0 {
                assert(parts@[(k - 1) + 1]@ == column_decl(self.fields@[k - 1]));
            }
        }
        assert(views(parts@) =~= decls);
        let mut r = String::from_str("CREATE TABLE IF NOT EXISTS ");
        r.append(self.table_name.as_str());
        r.append(" (");
        r.append(join_strings(&parts, ", ").as_str());
        r.append(");");
        r
    }

    /// The statement that inserts a row without its identity, which the
    /// storage engine then assigns.
    pub fn insert_sql(&self) -> (r: String)
        ensures
            r@ == insert_text(self.table_name@, self.fields@),
    {
        let mut r = String::from_str("INSERT INTO ");
        r.append(self.table_name.as_str());
        r.append(" (");
        r.append(self.sql_fields().as_str());
        r.append(") VALUES (");
        r.append(self.sql_placeholders().as_str());
        r.append(");");
        r
    }

    /// The statement that inserts a row with its identity, or overwrites
    /// every field of the row that already has that identity.
    pub fn upsert_sql(&self) -> (r: String)
        ensures
            r@ == upsert_text(self.table_name@, self.fields@),
    {
        let field_names = self.field_names();
        assert(views(field_names@).len() == names(self.fields@).len());
        let mut columns: Vec<String> = Vec::new();
        columns.push(String::from_str("id"));
        let mut sets: Vec<String> = Vec::new();
        let mut i: usize = 0;
        while i < field_names.len()
            invariant
                views(field_names@) == names(self.fields@),
                i <= field_names@.len(),
                field_names@.len() == self.fields@.len(),
                columns@.len() == i + 1,
                sets@.len() == i,
                columns@[0]@ == "id"@,
                forall|k: int| 0 <= k < i ==> #[trigger] columns@[k + 1]@ == self.fields@[k].name@,
                forall|k: int| 0 <= k < i ==> #[trigger] sets@[k]@ == overwrite(self.fields@[k]),
            decreases field_names@.len() - i,
        {
            assert(field_names@[i as int]@ == views(field_names@)[i as int]);
            assert(names(self.fields@)[i as int] == self.fields@[i as int].name@);
            columns.push(field_names[i].clone());
            let set = field_names[i].clone().concat(" = excluded.").concat(field_names[i].as_str());
            sets.push(set);
            i = i + 1;
        }
        let ghost cols = seq!["id"@] + names(self.fields@);
        assert forall|k: int| 0 <= k < cols.len() implies #[trigger] views(columns@)[k] == cols[k] by {
            if k > 0 {
                assert(columns@[(k - 1) + 1]@ == self.fields@[k - 1].name@);
            }
        }
        assert(views(columns@) =~= cols);
        assert(views(sets@) =~= self.fields@.map_values(|f: ModelField| overwrite(f)));
        let mut r = String::from_str("INSERT INTO ");
        r.append(self.table_name.as_str());
        r.append(" (");
        r.append(join_strings(&columns, ", ").as_str());
        r.append(") VALUES (");
        r.append(placeholders(self.fields.len() + 1).as_str());
        r.append(") ON CONFLICT(id) DO UPDATE SET ");
        r.append(join_strings(&sets, ", ").as_str());
        r.append(";");
        r
    }

    /// The statement that fetches the rows that meet a condition, passed on
    /// verbatim, in table order and at most 500 of them.
    pub fn select_sql(&self, condition: &str) -> (r: String)
        ensures
            r@ == select_text(self.table_name@, condition@),
    {
        let mut r = String::from_str("SELECT * FROM ");
        r.append(self.table_name.as_str());
        r.append(" WHERE ");
        r.append(condition);
        r.append(" LIMIT 500;");
        r
    }
}

/// `n` placeholders joined by commas.
fn placeholders(n: usize) -> (r: String)
    ensures
        r@ == sep_join(question_marks(n as nat), ", "@),
{
    let mut marks: Vec<String> = Vec::new();
    let mut i: usize = 0;
    while i < n
        invariant
            i <= n,
            marks@.len() == i,
            forall|k: int| 0 <= k < i ==> #[trigger] marks@[k]@ == "?"@,
        decreases n - i,
    {
        marks.push(String::from_str("?"));
        i = i + 1;
    }
    assert(views(marks@) =~= question_marks(n as nat));
    join_strings(&marks, ", ")
}

} // verus!
