use vstd::prelude::*;
use vstd::string::StringExecFns;

use sea_query::{
    Alias, ColumnDef, ConditionalStatement, Expr, OnConflict, Query, SimpleExpr, SqliteQueryBuilder,
    Table, TableCreateStatement,
};
use sea_query_rusqlite::RusqliteBinder;

use crate::models::{names_of, CardMetadata, FieldSpec, FieldType};

verus! {

#[verifier::external_type_specification]
#[verifier::external_body]
pub struct ExAlias(Alias);

#[verifier::external_type_specification]
#[verifier::external_body]
pub struct ExColumnDef(ColumnDef);

#[verifier::external_type_specification]
#[verifier::external_body]
pub struct ExSimpleExpr(SimpleExpr);

#[verifier::external_type_specification]
#[verifier::external_body]
pub struct ExTableCreateStatement(TableCreateStatement);


/// A value bound as a statement parameter.
#[derive(Clone, Debug)]
pub enum SqlValue {
    Text(String),
    Integer(i64),
    Boolean(bool),
}

/// What an upsert does with the stored row when the natural key exists.
#[derive(Clone, Copy, Debug, PartialEq, Eq, Structural)]
pub enum ConflictPolicy {
    /// Each supplied column replaces the stored value.
    Overwrite,
    /// Each supplied column replaces the stored value unless it is null.
    Coalesce,
}

/// The conflict clause of an upsert.
#[derive(Clone, Debug)]
pub struct ConflictPlan {
    pub key: String,
    pub updates: Vec<String>,
    pub policy: ConflictPolicy,
}

/// An INSERT statement before it is rendered: the columns, the values bound
/// to them, and the conflict clause if any.
#[derive(Clone, Debug)]
pub struct InsertPlan {
    pub columns: Vec<String>,
    pub values: Vec<SqlValue>,
    pub conflict: Option<ConflictPlan>,
}

/// A SELECT of `columns` from the rows whose `filter_column` equals the
/// bound `filter_value`.
#[derive(Clone, Debug)]
pub struct SelectPlan {
    pub columns: Vec<String>,
    pub filter_column: String,
    pub filter_value: SqlValue,
}

/// An UPDATE that sets `set_column` to `set_value` in the rows whose
/// `key_column` equals the bound `key_value`.
#[derive(Clone, Debug)]
pub struct UpdatePlan {
    pub set_column: String,
    pub set_value: SqlValue,
    pub key_column: String,
    pub key_value: SqlValue,
}

/// The SQL type of a column.
#[derive(Clone, Copy, Debug, PartialEq, Eq, Structural)]
pub enum SqlType {
    Integer,
    Text,
    Boolean,
    Varchar,
}

/// A constraint on a column, in the order it was declared.
#[derive(Clone, Copy, Debug, PartialEq, Eq, Structural)]
pub enum Constraint {
    PrimaryKey,
    AutoIncrement,
    NotNull,
    Unique,
    Default(i64),
}

/// What a column definition declares: its name, its type, its constraints.
pub type ColumnDecl = (Seq<char>, Option<SqlType>, Seq<Constraint>);

/// What a CREATE TABLE statement declares: the table, whether it is created
/// only if absent, and its columns in order.
pub type TableDecl = (Option<Seq<char>>, bool, Seq<ColumnDecl>);

/// What a sea_query column definition holds.
pub uninterp spec fn column_decl(c: ColumnDef) -> ColumnDecl;

/// What a sea_query CREATE TABLE statement holds.
pub uninterp spec fn table_decl(t: TableCreateStatement) -> TableDecl;

/// The SQLite text that sea_query renders for a CREATE TABLE statement.
pub uninterp spec fn sqlite_create_text(d: TableDecl) -> Seq<char>;

/// The SQLite text that sea_query renders for `INSERT INTO table (columns)
/// VALUES (?, ...)` with `n_values` placeholders, bound in order, and the
/// conflict clause `ON CONFLICT (key) DO UPDATE SET` of each update column
/// to `excluded.column`, or to `IFNULL(excluded.column, column)` where the
/// flag is set.
pub uninterp spec fn sqlite_insert_text(
    table: Seq<char>,
    columns: Seq<Seq<char>>,
    n_values: nat,
    conflict: Option<(Seq<char>, Seq<Seq<char>>, bool)>,
) -> Seq<char>;

/// The SQLite text that sea_query renders for `SELECT columns FROM table
/// WHERE filter = ?`.
pub uninterp spec fn sqlite_select_text(
    table: Seq<char>,
    columns: Seq<Seq<char>>,
    filter: Seq<char>,
) -> Seq<char>;

/// The SQLite text that sea_query renders for `UPDATE table SET set = ?
/// WHERE key = ?`, the placeholders bound in that order.
pub uninterp spec fn sqlite_update_text(table: Seq<char>, set: Seq<char>, key: Seq<char>) -> Seq<
    char,
>;

/// The SQL type of a column of the given field type.
pub open spec fn sql_type_of(t: FieldType) -> SqlType {
    match t {
        FieldType::Integer => SqlType::Integer,
        FieldType::Text => SqlType::Text,
        FieldType::Boolean => SqlType::Boolean,
        FieldType::String => SqlType::Varchar,
    }
}

pub open spec fn flag(b: bool, c: Constraint) -> Seq<Constraint> {
    if b {
        seq![c]
    } else {
        Seq::empty()
    }
}

/// The constraints of a field's column: primary key, auto-increment, not
/// null, unique, each where the field carries it.
pub open spec fn constraints_of(f: FieldSpec) -> Seq<Constraint> {
    flag(f.spec_is_primary_key(), Constraint::PrimaryKey) + flag(
        f.spec_is_auto_increment(),
        Constraint::AutoIncrement,
    ) + flag(f.spec_is_not_null(), Constraint::NotNull) + flag(f.spec_is_unique(), Constraint::Unique)
}

/// The column declared for a field.
pub open spec fn field_decl(f: FieldSpec) -> ColumnDecl {
    (f.name@, Some(sql_type_of(f.field_type)), constraints_of(f))
}

/// The export column: BOOLEAN, default false (0).
pub open spec fn export_decl() -> ColumnDecl {
    (export_column(), Some(SqlType::Boolean), seq![Constraint::Default(0)])
}

/// The table of a schema: created if absent, a column per field in
/// declaration order, then the export column.
pub open spec fn create_decl(table: Seq<char>, fields: Seq<FieldSpec>) -> TableDecl {
    (Some(table), true, fields.map_values(|f: FieldSpec| field_decl(f)).push(export_decl()))
}

/// The conflict clause of a plan as the rendered text sees it.
pub open spec fn conflict_view(c: Option<ConflictPlan>) -> Option<(Seq<char>, Seq<Seq<char>>, bool)> {
    match c {
        Some(c) => Some((c.key@, names_of(c.updates@), c.policy == ConflictPolicy::Coalesce)),
        None => None,
    }
}

/// The column that records whether a row has been exported.
pub open spec fn export_column() -> Seq<char> {
    "Export"@
}

/// `s` without the entries equal to `key`, order kept.
pub open spec fn without(s: Seq<Seq<char>>, key: Seq<char>) -> Seq<Seq<char>>
    decreases s.len(),
{
    if s.len() == 0 {
        s
    } else if s.last() == key {
        without(s.drop_last(), key)
    } else {
        without(s.drop_last(), key).push(s.last())
    }
}

/// `values` bound as text, followed by `tail`.
pub open spec fn binds_text_then(values: Seq<String>, bound: Seq<SqlValue>, tail: Option<SqlValue>) -> bool {
    &&& bound.len() == values.len() + (if tail is Some {
        1int
    } else {
        0int
    })
    &&& forall|i: int|
        0 <= i < values.len() ==> (#[trigger] bound[i] matches SqlValue::Text(t) && t@ == values[i]@)
    &&& tail matches Some(v) ==> bound[values.len() as int] == v
}

/// The names of all fields of a schema, in declaration order.
pub open spec fn field_names(fields: Seq<FieldSpec>) -> Seq<Seq<char>> {
    fields.map_values(|f: FieldSpec| f.name@)
}

fn export_name() -> (r: String)
    ensures
        r@ == export_column(),
{
    String::from_str("Export")
}

/// Copies `values` into parameters bound as text.
fn text_values(values: &Vec<String>) -> (r: Vec<SqlValue>)
    ensures
        binds_text_then(values@, r@, None),
{
    let mut r: Vec<SqlValue> = Vec::new();
    let mut i: usize = 0;
    while i < values.len()
        invariant
            i <= values@.len(),
            r@.len() == i,
            forall|j: int|
                0 <= j < i ==> (#[trigger] r@[j] matches SqlValue::Text(t) && t@ == values@[j]@),
        decreases values@.len() - i,
    {
        r.push(SqlValue::Text(values[i].clone()));
        i = i + 1;
    }
    r
}

/// `cols` without the entries equal to `key`.
fn columns_without(cols: &Vec<String>, key: &String) -> (r: Vec<String>)
    ensures
        names_of(r@) == without(names_of(cols@), key@),
{
    let mut r: Vec<String> = Vec::new();
    let mut i: usize = 0;
    while i < cols.len()
        invariant
            i <= cols@.len(),
            names_of(r@) == without(names_of(cols@).subrange(0, i as int), key@),
        decreases cols@.len() - i,
    {
        let ghost r0 = r@;
        assert(names_of(cols@).subrange(0, i + 1).drop_last() =~= names_of(cols@).subrange(
            0,
            i as int,
        ));
        if !(cols[i] == *key) {
            r.push(cols[i].clone());
            assert(names_of(r@) =~= names_of(r0).push(cols@[i as int]@));
        }
        i = i + 1;
    }
    assert(names_of(cols@).subrange(0, cols@.len() as int) =~= names_of(cols@));
    r
}

/// Plans an upsert of `values` into `fields`: the columns are `fields`
/// followed by the export column, bound to `values` followed by `0` (not
/// exported); on a conflict on `key` every other column, the export column
/// included, is updated under `policy`.
pub fn upsert_plan(
    key: &String,
    fields: &Vec<String>,
    values: &Vec<String>,
    policy: ConflictPolicy,
) -> (r: InsertPlan)
    requires
        fields@.len() == values@.len(),
    ensures
        names_of(r.columns@) == names_of(fields@).push(export_column()),
        binds_text_then(values@, r.values@, Some(SqlValue::Integer(0))),
        r.conflict matches Some(c) && c.key@ == key@ && c.policy == policy && names_of(c.updates@)
            == without(names_of(fields@).push(export_column()), key@),
{
    let mut columns = fields.clone();
    let ghost f0 = columns@;
    assert(f0 == fields@);
    columns.push(export_name());
    assert(names_of(columns@) =~= names_of(fields@).push(export_column()));
    let mut bound = text_values(values);
    bound.push(SqlValue::Integer(0));
    let updates = columns_without(&columns, key);
    InsertPlan {
        columns,
        values: bound,
        conflict: Some(ConflictPlan { key: key.clone(), updates, policy }),
    }
}

/// Relies on sea_query's `Alias::new`: an identifier with the given name.
#[verifier::external_body]
fn ident(name: &str) -> Alias {
    Alias::new(name)
}

/// Relies on sea_query's `ColumnDef::new`: a column named `name`, without
/// type or constraint.
#[verifier::external_body]
fn column_def(name: &str) -> (r: ColumnDef)
    ensures
        column_decl(r) == (name@, None::<SqlType>, Seq::<Constraint>::empty()),
{
    ColumnDef::new(Alias::new(name))
}

/// Relies on sea_query's `ColumnDef::integer`: sets the type.
#[verifier::external_body]
fn column_integer(c: &mut ColumnDef)
    ensures
        column_decl(*final(c)) == (column_decl(*old(c)).0, Some(SqlType::Integer), column_decl(
            *old(c),
        ).2),
{
    c.integer();
}

/// Relies on sea_query's `ColumnDef::text`: sets the type.
#[verifier::external_body]
fn column_text(c: &mut ColumnDef)
    ensures
        column_decl(*final(c)) == (column_decl(*old(c)).0, Some(SqlType::Text), column_decl(
            *old(c),
        ).2),
{
    c.text();
}

/// Relies on sea_query's `ColumnDef::boolean`: sets the type.
#[verifier::external_body]
fn column_boolean(c: &mut ColumnDef)
    ensures
        column_decl(*final(c)) == (column_decl(*old(c)).0, Some(SqlType::Boolean), column_decl(
            *old(c),
        ).2),
{
    c.boolean();
}

/// Relies on sea_query's `ColumnDef::string`: sets the type (varchar).
#[verifier::external_body]
fn column_string(c: &mut ColumnDef)
    ensures
        column_decl(*final(c)) == (column_decl(*old(c)).0, Some(SqlType::Varchar), column_decl(
            *old(c),
        ).2),
{
    c.string();
}

/// Relies on sea_query's `ColumnDef::primary_key`: appends the constraint.
#[verifier::external_body]
fn column_primary_key(c: &mut ColumnDef)
    ensures
        column_decl(*final(c)) == (column_decl(*old(c)).0, column_decl(*old(c)).1, column_decl(
            *old(c),
        ).2.push(Constraint::PrimaryKey)),
{
    c.primary_key();
}

/// Relies on sea_query's `ColumnDef::auto_increment`: appends the constraint.
#[verifier::external_body]
fn column_auto_increment(c: &mut ColumnDef)
    ensures
        column_decl(*final(c)) == (column_decl(*old(c)).0, column_decl(*old(c)).1, column_decl(
            *old(c),
        ).2.push(Constraint::AutoIncrement)),
{
    c.auto_increment();
}

/// Relies on sea_query's `ColumnDef::not_null`: appends the constraint.
#[verifier::external_body]
fn column_not_null(c: &mut ColumnDef)
    ensures
        column_decl(*final(c)) == (column_decl(*old(c)).0, column_decl(*old(c)).1, column_decl(
            *old(c),
        ).2.push(Constraint::NotNull)),
{
    c.not_null();
}

/// Relies on sea_query's `ColumnDef::unique_key`: appends the constraint.
#[verifier::external_body]
fn column_unique(c: &mut ColumnDef)
    ensures
        column_decl(*final(c)) == (column_decl(*old(c)).0, column_decl(*old(c)).1, column_decl(
            *old(c),
        ).2.push(Constraint::Unique)),
{
    c.unique_key();
}

/// Relies on sea_query's `ColumnDef::default`: appends a default value.
#[verifier::external_body]
fn column_default(c: &mut ColumnDef, v: i64)
    ensures
        column_decl(*final(c)) == (column_decl(*old(c)).0, column_decl(*old(c)).1, column_decl(
            *old(c),
        ).2.push(Constraint::Default(v))),
{
    c.default(v);
}

/// Relies on sea_query's `Table::create`: a CREATE TABLE of nothing yet.
#[verifier::external_body]
fn create_table() -> (r: TableCreateStatement)
    ensures
        table_decl(r) == (None::<Seq<char>>, false, Seq::<ColumnDecl>::empty()),
{
    Table::create()
}

/// Relies on sea_query's `TableCreateStatement::table`: names the table.
#[verifier::external_body]
fn create_table_name(t: &mut TableCreateStatement, table: &str)
    ensures
        table_decl(*final(t)) == (Some(table@), table_decl(*old(t)).1, table_decl(*old(t)).2),
{
    t.table(Alias::new(table));
}

/// Relies on sea_query's `TableCreateStatement::if_not_exists`.
#[verifier::external_body]
fn create_if_not_exists(t: &mut TableCreateStatement)
    ensures
        table_decl(*final(t)) == (table_decl(*old(t)).0, true, table_decl(*old(t)).2),
{
    t.if_not_exists();
}

/// Relies on sea_query's `TableCreateStatement::col`: appends a column.
#[verifier::external_body]
fn create_column(t: &mut TableCreateStatement, c: ColumnDef)
    ensures
        table_decl(*final(t)) == (table_decl(*old(t)).0, table_decl(*old(t)).1, table_decl(
            *old(t),
        ).2.push(column_decl(c))),
{
    t.col(c);
}

/// Relies on sea_query's `TableCreateStatement::build` for SQLite.
#[verifier::external_body]
fn build_create(t: &TableCreateStatement) -> (r: String)
    ensures
        r@ == sqlite_create_text(table_decl(*t)),
{
    t.build(SqliteQueryBuilder)
}

/// Relies on sea_query's `From` impls for `SimpleExpr`: the value, bound.
#[verifier::external_body]
fn to_expr(v: &SqlValue) -> SimpleExpr {
    match v {
        SqlValue::Text(s) => s.into(),
        SqlValue::Integer(i) => (*i).into(),
        SqlValue::Boolean(b) => (*b).into(),
    }
}

/// Relies on sea_query's INSERT builder and sea_query_rusqlite's
/// `build_rusqlite` for SQLite.
#[verifier::external_body]
fn sqlite_insert(table: &str, cols: &Vec<String>, values: Vec<SimpleExpr>) -> (r: String)
    requires
        cols@.len() == values@.len(),
    ensures
        r@ == sqlite_insert_text(table@, names_of(cols@), values@.len(), None),
{
    Query::insert()
        .into_table(Alias::new(table))
        .columns(cols.iter().map(|c| Alias::new(c.as_str())))
        .values_panic(values)
        .build_rusqlite(SqliteQueryBuilder)
        .0
}

/// Relies on sea_query's INSERT and `OnConflict::update_columns` builders
/// and sea_query_rusqlite's `build_rusqlite` for SQLite.
#[verifier::external_body]
fn sqlite_upsert_overwrite(
    table: &str,
    cols: &Vec<String>,
    values: Vec<SimpleExpr>,
    key: &str,
    updates: &Vec<String>,
) -> (r: String)
    requires
        cols@.len() == values@.len(),
    ensures
        r@ == sqlite_insert_text(
            table@,
            names_of(cols@),
            values@.len(),
            Some((key@, names_of(updates@), false)),
        ),
{
    let mut conflict = OnConflict::column(Alias::new(key));
    conflict.update_columns(updates.iter().map(|c| Alias::new(c.as_str())));
    Query::insert()
        .into_table(Alias::new(table))
        .columns(cols.iter().map(|c| Alias::new(c.as_str())))
        .values_panic(values)
        .on_conflict(conflict)
        .build_rusqlite(SqliteQueryBuilder)
        .0
}

/// Relies on sea_query's INSERT and `OnConflict::values` builders, with
/// `Expr::if_null`, and sea_query_rusqlite's `build_rusqlite` for SQLite.
#[verifier::external_body]
fn sqlite_upsert_coalesce(
    table: &str,
    cols: &Vec<String>,
    values: Vec<SimpleExpr>,
    key: &str,
    updates: &Vec<String>,
) -> (r: String)
    requires
        cols@.len() == values@.len(),
    ensures
        r@ == sqlite_insert_text(
            table@,
            names_of(cols@),
            values@.len(),
            Some((key@, names_of(updates@), true)),
        ),
{
    let mut conflict = OnConflict::column(Alias::new(key));
    conflict.values(updates.iter().map(|c| {
        let excluded = Expr::col((Alias::new("excluded"), Alias::new(c.as_str())));
        (Alias::new(c.as_str()), excluded.if_null(Expr::col(Alias::new(c.as_str()))))
    }));
    Query::insert().into_table(Alias::new(table))
        .columns(cols.iter().map(|c| Alias::new(c.as_str()))).values_panic(values)
        .on_conflict(conflict).build_rusqlite(SqliteQueryBuilder).0
}

/// Relies on sea_query's SELECT builder and sea_query_rusqlite's
/// `build_rusqlite` for SQLite.
#[verifier::external_body]
fn sqlite_select(table: &str, cols: &Vec<String>, filter: &str, value: SimpleExpr) -> (r: String)
    ensures
        r@ == sqlite_select_text(table@, names_of(cols@), filter@),
{
    Query::select()
        .columns(cols.iter().map(|c| Alias::new(c.as_str())))
        .from(Alias::new(table))
        .and_where(Expr::col(Alias::new(filter)).eq(value))
        .build_rusqlite(SqliteQueryBuilder)
        .0
}

/// Relies on sea_query's UPDATE builder and sea_query_rusqlite's
/// `build_rusqlite` for SQLite.
#[verifier::external_body]
fn sqlite_update(table: &str, set: &str, value: SimpleExpr, key: &str, key_value: SimpleExpr) -> (r:
    String)
    ensures
        r@ == sqlite_update_text(table@, set@, key@),
{
    Query::update()
        .table(Alias::new(table))
        .value(Alias::new(set), value)
        .and_where(Expr::col(Alias::new(key)).eq(key_value))
        .build_rusqlite(SqliteQueryBuilder)
        .0
}

fn exprs(values: &Vec<SqlValue>) -> (r: Vec<SimpleExpr>)
    ensures
        r@.len() == values@.len(),
{
    let mut r: Vec<SimpleExpr> = Vec::new();
    let mut i: usize = 0;
    while i < values.len()
        invariant
            i <= values@.len(),
            r@.len() == i,
        decreases values@.len() - i,
    {
        r.push(to_expr(&values[i]));
        i = i + 1;
    }
    r
}

/// Renders a planned INSERT into `table`: the SQLite text, and the values
/// to bind to its placeholders, in order. Under the coalescing policy each
/// updated column becomes `IFNULL(excluded.column, column)`, so that a null
/// never erases a stored value.
pub fn render_insert(table: &str, plan: InsertPlan) -> (r: (String, Vec<SqlValue>))
    requires
        plan.columns@.len() == plan.values@.len(),
    ensures
        r.0@ == sqlite_insert_text(
            table@,
            names_of(plan.columns@),
            plan.values@.len(),
            conflict_view(plan.conflict),
        ),
        r.1@ == plan.values@,
{
    let ex = exprs(&plan.values);
    let text = match &plan.conflict {
        None => sqlite_insert(table, &plan.columns, ex),
        Some(c) => match c.policy {
            ConflictPolicy::Overwrite => sqlite_upsert_overwrite(
                table,
                &plan.columns,
                ex,
                c.key.as_str(),
                &c.updates,
            ),
            ConflictPolicy::Coalesce => sqlite_upsert_coalesce(
                table,
                &plan.columns,
                ex,
                c.key.as_str(),
                &c.updates,
            ),
        },
    };
    (text, plan.values)
}

/// Renders a planned SELECT from `table`: the SQLite text and the filter
/// value to bind.
pub fn render_select(table: &str, plan: SelectPlan) -> (r: (String, Vec<SqlValue>))
    ensures
        r.0@ == sqlite_select_text(table@, names_of(plan.columns@), plan.filter_column@),
        r.1@ == seq![plan.filter_value],
{
    let text = sqlite_select(
        table,
        &plan.columns,
        plan.filter_column.as_str(),
        to_expr(&plan.filter_value),
    );
    let mut values: Vec<SqlValue> = Vec::new();
    values.push(plan.filter_value);
    (text, values)
}

/// Renders a planned UPDATE of `table`: the SQLite text and the values to
/// bind, the new value first and the key value second.
pub fn render_update(table: &str, plan: UpdatePlan) -> (r: (String, Vec<SqlValue>))
    ensures
        r.0@ == sqlite_update_text(table@, plan.set_column@, plan.key_column@),
        r.1@ == seq![plan.set_value, plan.key_value],
{
    let text = sqlite_update(
        table,
        plan.set_column.as_str(),
        to_expr(&plan.set_value),
        plan.key_column.as_str(),
        to_expr(&plan.key_value),
    );
    let mut values: Vec<SqlValue> = Vec::new();
    values.push(plan.set_value);
    values.push(plan.key_value);
    (text, values)
}

impl FieldSpec {
    /// The identifier of this field's column.
    pub fn get_alias(&self) -> Alias {
        ident(self.name.as_str())
    }

    /// The column of this field: named after it, of the SQL type of its
    /// field type, with its primary-key, auto-increment, not-null and
    /// unique traits as constraints in that order.
    pub fn get_col(&self) -> (r: ColumnDef)
        ensures
            column_decl(r) == field_decl(*self),
    {
        let mut col = column_def(self.name.as_str());
        match self.field_type {
            FieldType::Integer => column_integer(&mut col),
            FieldType::Text => column_text(&mut col),
            FieldType::Boolean => column_boolean(&mut col),
            FieldType::String => column_string(&mut col),
        }
        let ghost c0 = column_decl(col).2;
        if self.is_primary_key() {
            column_primary_key(&mut col);
        }
        let ghost c1 = column_decl(col).2;
        assert(c1 =~= c0 + flag(self.spec_is_primary_key(), Constraint::PrimaryKey));
        if self.is_auto_increment() {
            column_auto_increment(&mut col);
        }
        let ghost c2 = column_decl(col).2;
        assert(c2 =~= c1 + flag(self.spec_is_auto_increment(), Constraint::AutoIncrement));
        if self.is_not_null() {
            column_not_null(&mut col);
        }
        let ghost c3 = column_decl(col).2;
        assert(c3 =~= c2 + flag(self.spec_is_not_null(), Constraint::NotNull));
        if self.is_unique() {
            column_unique(&mut col);
        }
        assert(column_decl(col).2 =~= c3 + flag(self.spec_is_unique(), Constraint::Unique));
        assert(column_decl(col).2 =~= constraints_of(*self));
        col
    }
}

impl CardMetadata {
    /// The names of all fields, in declaration order.
    pub fn field_names(&self) -> (r: Vec<String>)
        ensures
            r@.len() == self.fields@.len(),
            names_of(r@) == field_names(self.fields@),
    {
        let mut r: Vec<String> = Vec::new();
        let mut i: usize = 0;
        while i < self.fields.len()
            invariant
                i <= self.fields@.len(),
                r@.len() == i,
                names_of(r@) == field_names(self.fields@).subrange(0, i as int),
            decreases self.fields@.len() - i,
        {
            let ghost r0 = r@;
            r.push(self.fields[i].name.clone());
            assert(names_of(r@) =~= names_of(r0).push(self.fields@[i as int].name@));
            assert(field_names(self.fields@).subrange(0, i + 1) =~= field_names(
                self.fields@,
            ).subrange(0, i as int).push(self.fields@[i as int].name@));
            i = i + 1;
        }
        assert(field_names(self.fields@).subrange(0, self.fields@.len() as int) =~= field_names(
            self.fields@,
        ));
        r
    }

    /// `CREATE TABLE IF NOT EXISTS table` with the column of each field, in
    /// declaration order, then a BOOLEAN export column that defaults to
    /// false.
    pub fn create_table_sql(&self, table: &str) -> (r: String)
        ensures
            r@ == sqlite_create_text(create_decl(table@, self.fields@)),
    {
        let mut t = create_table();
        create_table_name(&mut t, table);
        create_if_not_exists(&mut t);
        let ghost decls = self.fields@.map_values(|f: FieldSpec| field_decl(f));
        let mut i: usize = 0;
        while i < self.fields.len()
            invariant
                i <= self.fields@.len(),
                decls == self.fields@.map_values(|f: FieldSpec| field_decl(f)),
                table_decl(t) == (Some(table@), true, decls.subrange(0, i as int)),
            decreases self.fields@.len() - i,
        {
            create_column(&mut t, self.fields[i].get_col());
            assert(decls.subrange(0, i + 1) =~= decls.subrange(0, i as int).push(
                field_decl(self.fields@[i as int]),
            ));
            i = i + 1;
        }
        assert(decls.subrange(0, self.fields@.len() as int) =~= decls);
        let export = export_name();
        let mut col = column_def(export.as_str());
        column_boolean(&mut col);
        column_default(&mut col, 0);
        assert(column_decl(col).2 =~= seq![Constraint::Default(0)]);
        create_column(&mut t, col);
        build_create(&t)
    }

    /// Plans a plain INSERT of one value per field, in declaration order.
    pub fn insert_card_plan(&self, values: &Vec<String>) -> (r: InsertPlan)
        ensures
            names_of(r.columns@) == field_names(self.fields@),
            r.columns@.len() == self.fields@.len(),
            binds_text_then(values@, r.values@, None),
            r.conflict is None,
    {
        InsertPlan { columns: self.field_names(), values: text_values(values), conflict: None }
    }

    /// `INSERT INTO table` of one value per field, in declaration order.
    pub fn insert_card_sql(&self, table: &str, values: &Vec<String>) -> (r: (String, Vec<SqlValue>))
        requires
            values@.len() == self.fields@.len(),
        ensures
            r.0@ == sqlite_insert_text(table@, field_names(self.fields@), values@.len(), None),
            binds_text_then(values@, r.1@, None),
    {
        render_insert(table, self.insert_card_plan(values))
    }

    /// The upsert of one value per field; on a conflict on `key` every other
    /// column and the export column are overwritten.
    pub fn insert_or_update_card_sql(&self, table: &str, key: &String, values: &Vec<String>) -> (r: (
        String,
        Vec<SqlValue>,
    ))
        requires
            values@.len() == self.fields@.len(),
        ensures
            r.0@ == sqlite_insert_text(
                table@,
                field_names(self.fields@).push(export_column()),
                values@.len() + 1,
                Some((key@, without(field_names(self.fields@).push(export_column()), key@), false)),
            ),
            binds_text_then(values@, r.1@, Some(SqlValue::Integer(0))),
    {
        let names = self.field_names();
        self.upsert_card_sql(table, key, &names, values, ConflictPolicy::Overwrite)
    }

    /// The upsert of `values` into the columns `fields`, overwriting on a
    /// conflict on `key`.
    pub fn insert_or_update_card_with_fields_sql(
        &self,
        table: &str,
        key: &String,
        fields: &Vec<String>,
        values: &Vec<String>,
    ) -> (r: (String, Vec<SqlValue>))
        requires
            fields@.len() == values@.len(),
        ensures
            r.0@ == sqlite_insert_text(
                table@,
                names_of(fields@).push(export_column()),
                values@.len() + 1,
                Some((key@, without(names_of(fields@).push(export_column()), key@), false)),
            ),
            binds_text_then(values@, r.1@, Some(SqlValue::Integer(0))),
    {
        self.upsert_card_sql(table, key, fields, values, ConflictPolicy::Overwrite)
    }

    /// The upsert of `values` into the columns `fields` and the export
    /// column (bound to 0): on a conflict on `key` every other column is
    /// overwritten, or under `Coalesce` kept where the new value is null.
    pub fn upsert_card_sql(
        &self,
        table: &str,
        key: &String,
        fields: &Vec<String>,
        values: &Vec<String>,
        policy: ConflictPolicy,
    ) -> (r: (String, Vec<SqlValue>))
        requires
            fields@.len() == values@.len(),
        ensures
            r.0@ == sqlite_insert_text(
                table@,
                names_of(fields@).push(export_column()),
                values@.len() + 1,
                Some(
                    (
                        key@,
                        without(names_of(fields@).push(export_column()), key@),
                        policy == ConflictPolicy::Coalesce,
                    ),
                ),
            ),
            binds_text_then(values@, r.1@, Some(SqlValue::Integer(0))),
    {
        let plan = upsert_plan(key, fields, values, policy);
        proof {
            assert(names_of(plan.columns@).len() == plan.columns@.len());
        }
        render_insert(table, plan)
    }

    /// The columns that an export reads: every field, then the export column.
    pub fn export_columns(&self) -> (r: Vec<String>)
        ensures
            names_of(r@) == field_names(self.fields@).push(export_column()),
    {
        let mut cols = self.field_names();
        let ghost c0 = cols@;
        cols.push(export_name());
        assert(names_of(cols@) =~= names_of(c0).push(export_column()));
        cols
    }

    /// Plans the export query: every field and the export column, of the
    /// rows whose export column is false.
    pub fn unexported_cards_plan(&self) -> (r: SelectPlan)
        ensures
            names_of(r.columns@) == field_names(self.fields@).push(export_column()),
            r.filter_column@ == export_column(),
            r.filter_value == SqlValue::Boolean(false),
    {
        SelectPlan {
            columns: self.export_columns(),
            filter_column: export_name(),
            filter_value: SqlValue::Boolean(false),
        }
    }

    /// `SELECT` of every field and the export column from `table`, of the
    /// rows whose export column is false.
    pub fn get_unexported_cards_sql(&self, table: &str) -> (r: (String, Vec<SqlValue>))
        ensures
            r.0@ == sqlite_select_text(
                table@,
                field_names(self.fields@).push(export_column()),
                export_column(),
            ),
            r.1@ == seq![SqlValue::Boolean(false)],
    {
        render_select(table, self.unexported_cards_plan())
    }

    /// Plans the marking of exported rows: for each word, in order, set the
    /// export column to true where the `key` column equals that word.
    pub fn mark_exported_plan(&self, key: &String, words: &Vec<String>) -> (r: Vec<UpdatePlan>)
        ensures
            r@.len() == words@.len(),
            forall|i: int|
                0 <= i < r@.len() ==> {
                    let u = #[trigger] r@[i];
                    &&& u.set_column@ == export_column()
                    &&& u.set_value == SqlValue::Boolean(true)
                    &&& u.key_column@ == key@
                    &&& u.key_value matches SqlValue::Text(w) && w@ == words@[i]@
                },
    {
        let mut r: Vec<UpdatePlan> = Vec::new();
        let mut i: usize = 0;
        while i < words.len()
            invariant
                i <= words@.len(),
                r@.len() == i,
                forall|j: int|
                    0 <= j < i ==> {
                        let u = #[trigger] r@[j];
                        &&& u.set_column@ == export_column()
                        &&& u.set_value == SqlValue::Boolean(true)
                        &&& u.key_column@ == key@
                        &&& u.key_value matches SqlValue::Text(w) && w@ == words@[j]@
                    },
            decreases words@.len() - i,
        {
            r.push(
                UpdatePlan {
                    set_column: export_name(),
                    set_value: SqlValue::Boolean(true),
                    key_column: key.clone(),
                    key_value: SqlValue::Text(words[i].clone()),
                },
            );
            i = i + 1;
        }
        r
    }

    /// One `UPDATE table SET Export = ? WHERE key = ?` per word, in the
    /// order of `words`, bound to true and to that word.
    pub fn mark_unexported_cards_tx(&self, table: &str, key: &String, words: &Vec<String>) -> (r: Vec<
        (String, Vec<SqlValue>),
    >)
        ensures
            r@.len() == words@.len(),
            forall|i: int|
                0 <= i < r@.len() ==> {
                    let s = #[trigger] r@[i];
                    &&& s.0@ == sqlite_update_text(table@, export_column(), key@)
                    &&& s.1@.len() == 2
                    &&& s.1@[0] == SqlValue::Boolean(true)
                    &&& s.1@[1] matches SqlValue::Text(w) && w@ == words@[i]@
                },
    {
        let mut plans = self.mark_exported_plan(key, words);
        let mut tx: Vec<(String, Vec<SqlValue>)> = Vec::new();
        let ghost all = plans@;
        let mut i: usize = 0;
        while i < words.len()
            invariant
                i <= words@.len(),
                all.len() == words@.len(),
                plans@ == all.subrange(i as int, all.len() as int),
                tx@.len() == i,
                forall|k: int|
                    0 <= k < all.len() ==> {
                        let u = #[trigger] all[k];
                        &&& u.set_column@ == export_column()
                        &&& u.set_value == SqlValue::Boolean(true)
                        &&& u.key_column@ == key@
                        &&& u.key_value matches SqlValue::Text(w) && w@ == words@[k]@
                    },
                forall|j: int|
                    0 <= j < i ==> {
                        let s = #[trigger] tx@[j];
                        &&& s.0@ == sqlite_update_text(table@, export_column(), key@)
                        &&& s.1@.len() == 2
                        &&& s.1@[0] == SqlValue::Boolean(true)
                        &&& s.1@[1] matches SqlValue::Text(w) && w@ == words@[j]@
                    },
            decreases words@.len() - i,
        {
            let plan = plans.remove(0);
            assert(plan == all[i as int]);
            tx.push(render_update(table, plan));
            assert(plans@ =~= all.subrange(i + 1, all.len() as int));
            i = i + 1;
        }
        tx
    }
}

} // verus!
