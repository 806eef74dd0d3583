//! The registry of table-creation statements and the configured database
//! location.
use vstd::prelude::*;
use vstd::string::*;

use crate::schema::ModelSchema;
use crate::sql::init_stmt_text;
use crate::text::views;

verus! {

/// The database file used while no other has been configured.
pub open spec fn default_path() -> Seq<char> {
    "db.sqlite"@
}

/// The statements that create the registered models' tables, in the order
/// of registration, and the database file once one is configured.
#[derive(Clone, Debug, PartialEq, Eq)]
pub struct Registry {
    pub statements: Vec<String>,
    pub path: Option<String>,
}

impl Registry {
    pub fn new() -> (r: Registry)
        ensures
            r.statements@.len() == 0,
            r.path is None,
    {
        Registry { statements: Vec::new(), path: None }
    }

    /// Appends the statement that creates the model's table. Registering a
    /// model twice appends it twice, which is harmless since the statement
    /// creates the table only if it does not exist.
    pub fn register(&mut self, schema: &ModelSchema)
        ensures
            views(final(self).statements@) == views(old(self).statements@).push(
                init_stmt_text(schema.table_name@, schema.fields@),
            ),
            final(self).path == old(self).path,
    {
        let stmt = schema.init_stmt();
        let ghost before = self.statements@;
        self.statements.push(stmt);
        assert(views(self.statements@) =~= views(before).push(
            init_stmt_text(schema.table_name@, schema.fields@),
        ));
    }

    /// The database file that new connections open: the configured one, or
    /// `db.sqlite` while none is.
    pub fn connection_path(&self) -> (r: String)
        ensures
            r@ == match self.path {
                Some(p) => p@,
                None => default_path(),
            },
    {
        match &self.path {
            Some(p) => p.clone(),
            None => String::from_str("db.sqlite"),
        }
    }
}

/// Configures the database file, replacing any earlier one, and hands back
/// every registered statement, in registration order, for the caller to
/// run against a connection to that file.
pub fn setup_db(registry: &mut Registry, path: &str) -> (r: Vec<String>)
    ensures
        final(registry).path matches Some(p) && p@ == path@,
        final(registry).statements == old(registry).statements,
        views(r@) == views(old(registry).statements@),
{
    registry.path = Some(path.to_owned());
    let mut r: Vec<String> = Vec::new();
    let mut i: usize = 0;
    while i < registry.statements.len()
        invariant
            i <= registry.statements@.len(),
            r@.len() == i,
            forall|k: int| 0 <= k < i ==> #[trigger] r@[k] == registry.statements@[k],
        decreases registry.statements@.len() - i,
    {
        r.push(registry.statements[i].clone());
        i = i + 1;
    }
    assert(views(r@) =~= views(registry.statements@));
    r
}

} // verus!
