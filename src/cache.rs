//! The persistent tile cache's schema, queries and miss rule. The table is
//! `tiles(x INTEGER, y INTEGER, z INTEGER, image BLOB)` with one index on
//! each of `x`, `y` and `z`; rows are only ever inserted, and a lookup returns
//! the most recently inserted image for its key.
use vstd::prelude::*;

verus! {

/// The cache answers a miss with an empty byte string: a stored tile is
/// served only when it is not empty.
pub fn cached_tile(stored: Vec<u8>) -> (r: Option<Vec<u8>>)
    ensures
        stored@.len() > 0 ==> r == Some(stored),
        stored@.len() == 0 ==> r is None,
{
    if stored.len() > 0 {
        Some(stored)
    } else {
        None
    }
}

/// The indexed columns of the tile table.
#[derive(Clone, Copy, Debug, PartialEq, Eq, Structural)]
pub enum Column {
    X,
    Y,
    Z,
}

/// A step that brings the tile table's schema into being.
#[derive(Clone, Copy, Debug, PartialEq, Eq, Structural)]
pub enum SchemaStep {
    CreateTable,
    CreateIndex(Column),
}

pub open spec fn index_steps(exists: bool, c: Column) -> Seq<SchemaStep> {
    if exists {
        Seq::empty()
    } else {
        seq![SchemaStep::CreateIndex(c)]
    }
}

/// The steps that create what is missing: the table first, then the index on
/// each of `x`, `y`, `z` that does not exist yet.
pub open spec fn missing_schema(table: bool, x_index: bool, y_index: bool, z_index: bool) -> Seq<SchemaStep> {
    (if table {
        Seq::empty()
    } else {
        seq![SchemaStep::CreateTable]
    }) + index_steps(x_index, Column::X) + index_steps(y_index, Column::Y) + index_steps(
        z_index,
        Column::Z,
    )
}

/// The schema steps still to run, given which parts of the schema exist.
pub fn schema_steps(table: bool, x_index: bool, y_index: bool, z_index: bool) -> (r: Vec<SchemaStep>)
    ensures
        r@ == missing_schema(table, x_index, y_index, z_index),
{
    let mut steps: Vec<SchemaStep> = Vec::new();
    if !table {
        steps.push(SchemaStep::CreateTable);
    }
    if !x_index {
        steps.push(SchemaStep::CreateIndex(Column::X));
    }
    if !y_index {
        steps.push(SchemaStep::CreateIndex(Column::Y));
    }
    if !z_index {
        steps.push(SchemaStep::CreateIndex(Column::Z));
    }
    assert(steps@ =~= missing_schema(table, x_index, y_index, z_index));
    steps
}

impl Column {
    /// The query that lists the index on this column, if it exists.
    pub fn index_probe_sql(&self) -> (r: &'static str)
        ensures
            *self == Column::X ==> r@ == "SELECT name FROM sqlite_master WHERE type='index' AND name = 'x_index';"@,
            *self == Column::Y ==> r@ == "SELECT name FROM sqlite_master WHERE type='index' AND name = 'y_index';"@,
            *self == Column::Z ==> r@ == "SELECT name FROM sqlite_master WHERE type='index' AND name = 'z_index';"@,
    {
        match self {
            Column::X => "SELECT name FROM sqlite_master WHERE type='index' AND name = 'x_index';",
            Column::Y => "SELECT name FROM sqlite_master WHERE type='index' AND name = 'y_index';",
            Column::Z => "SELECT name FROM sqlite_master WHERE type='index' AND name = 'z_index';",
        }
    }
}

impl SchemaStep {
    /// The statement that performs this step.
    pub fn sql(&self) -> (r: &'static str)
        ensures
            *self == SchemaStep::CreateTable ==> r@ == "CREATE TABLE tiles (x INTEGER, y INTEGER, z INTEGER, image BLOB);"@,
            *self == SchemaStep::CreateIndex(Column::X) ==> r@ == "CREATE INDEX x_index ON tiles (x);"@,
            *self == SchemaStep::CreateIndex(Column::Y) ==> r@ == "CREATE INDEX y_index ON tiles (y);"@,
            *self == SchemaStep::CreateIndex(Column::Z) ==> r@ == "CREATE INDEX z_index ON tiles (z);"@,
    {
        match self {
            SchemaStep::CreateTable => "CREATE TABLE tiles (x INTEGER, y INTEGER, z INTEGER, image BLOB);",
            SchemaStep::CreateIndex(Column::X) => "CREATE INDEX x_index ON tiles (x);",
            SchemaStep::CreateIndex(Column::Y) => "CREATE INDEX y_index ON tiles (y);",
            SchemaStep::CreateIndex(Column::Z) => "CREATE INDEX z_index ON tiles (z);",
        }
    }
}

/// The query that lists the tile table, if it exists.
pub fn table_probe_sql() -> (r: &'static str)
    ensures
        r@ == "SELECT name FROM sqlite_master WHERE type='table' AND name = 'tiles';"@,
{
    "SELECT name FROM sqlite_master WHERE type='table' AND name = 'tiles';"
}

/// The lookup of a tile by `x`, `y`, `z` (bound in that order): the most
/// recently inserted image wins when a key was inserted more than once.
pub fn select_tile_sql() -> (r: &'static str)
    ensures
        r@ == "SELECT image FROM tiles WHERE x = ? AND y = ? AND z = ? ORDER BY rowid DESC LIMIT 1;"@,
{
    "SELECT image FROM tiles WHERE x = ? AND y = ? AND z = ? ORDER BY rowid DESC LIMIT 1;"
}

/// The unconditional insert of a tile: `x`, `y`, `z`, image.
pub fn insert_tile_sql() -> (r: &'static str)
    ensures
        r@ == "INSERT INTO tiles VALUES (?, ?, ?, ?);"@,
{
    "INSERT INTO tiles VALUES (?, ?, ?, ?);"
}

} // verus!
