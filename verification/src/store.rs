//! The store of domains: the statements that set it up, write a record,
//! list names and move data in bulk, and the transaction that a batch of
//! statements runs in. The statements are handed to whoever holds the
//! connection to the storage engine; nothing here talks to the engine.

use crate::domain::{derived_id, Domain, Row};
use crate::error::{InvalidRecordError, StoreError};
use crate::filter::{
    admits, law_predicate_binds_every_value, predicate_of, unconstrained, DomainFilter,
    FilterModel,
};
use crate::sql::{
    bind_flag, flag_value, lemma_placeholders_add, placeholders, quote_literal, quoted, values,
    Sql, SqlModel, SqlValue, SqlValueModel,
};
use crate::text::{has_whitespace, is_first_whitespace, same_text};
use vstd::prelude::*;
use vstd::string::*;

verus! {

/// How the store is opened.
#[derive(Clone, Copy, Debug, PartialEq, Eq, Structural)]
pub enum DuckDbType {
    /// A store in memory that is gone with the connection.
    InMemory,
    /// A store in a file, set up where it does not exist yet.
    Persistent,
    /// A store in a file that has been set up before.
    Existing,
}

/// Where data can be imported from.
#[derive(Clone, Copy, Debug, PartialEq, Eq, Structural)]
pub enum DuckDbImportSource {
    Csv,
    Json,
    Parquet,
    SQLite,
    PostgreSQL,
    MySQL,
    Iceberg,
    DeltaLake,
    CloudflareR2,
    AzureBlob,
    S3,
}

/// The formats that the store can be exported in.
#[derive(Clone, Copy, Debug, PartialEq, Eq, Structural)]
pub enum DuckDbExportFormat {
    Csv,
    Parquet,
}

/// The kinds of store that the names of a crawl can be written to.
#[derive(Clone, Copy, Debug, PartialEq, Eq, Structural)]
pub enum Backend {
    /// The table of domains.
    Sql,
    /// A graph of domains.
    Graph,
}

/// The kind of store that a setting names.
pub open spec fn backend_named(setting: Seq<char>) -> Option<Backend> {
    if setting == "sql"@ {
        Some(Backend::Sql)
    } else if setting == "graph"@ {
        Some(Backend::Graph)
    } else {
        None
    }
}

/// Reads the setting that names the kind of store.
pub fn backend_of(setting: &str) -> (r: Option<Backend>)
    ensures
        r == backend_named(setting@),
{
    if same_text(setting, "sql") {
        Some(Backend::Sql)
    } else if same_text(setting, "graph") {
        Some(Backend::Graph)
    } else {
        None
    }
}

/// The namespace that the table of domains lives in.
#[derive(Clone, Copy, Debug, PartialEq, Eq, Structural)]
pub enum Schema {
    Dev,
    Prod,
}

impl Schema {
    /// The name of the namespace.
    pub open spec fn name(self) -> Seq<char> {
        match self {
            Schema::Dev => "dev"@,
            Schema::Prod => "prod"@,
        }
    }

    /// The name of the namespace.
    pub fn as_str(self) -> (r: &'static str)
        ensures
            r@ == self.name(),
    {
        match self {
            Schema::Dev => "dev",
            Schema::Prod => "prod",
        }
    }
}

/// `head`, the name of the namespace, and `tail`.
pub open spec fn qualified(head: Seq<char>, schema: Schema, tail: Seq<char>) -> Seq<char> {
    head + schema.name() + tail
}

/// Adds `head`, the name of the namespace and `tail` to `out`.
fn push_qualified(out: &mut String, head: &str, schema: Schema, tail: &str)
    ensures
        final(out)@ == old(out)@ + qualified(head@, schema, tail@),
{
    out.append(head);
    out.append(schema.as_str());
    out.append(tail);
    assert(out@ =~= old(out)@ + qualified(head@, schema, tail@));
}

/// The text that writes a record: it replaces the row that has the
/// record's identifier, or adds one.
pub open spec fn insert_text(schema: Schema) -> Seq<char> {
    qualified(
        "INSERT OR REPLACE INTO "@,
        schema,
        ".domains (id, name, available, valid, page_rank, censored) VALUES (?, ?, ?, ?, ?, ?)"@,
    )
}

/// The text that rewrites the row that has a record's identifier.
pub open spec fn update_text(schema: Schema) -> Seq<char> {
    qualified(
        "UPDATE "@,
        schema,
        ".domains SET name = ?, available = ?, valid = ?, page_rank = ?, censored = ? WHERE id = ?"@,
    )
}

/// The text that lists names, before its predicate.
pub open spec fn select_text(schema: Schema) -> Seq<char> {
    qualified("SELECT name FROM "@, schema, ".domains"@)
}

/// The values of a row in the order of the table's columns.
pub open spec fn row_values(row: Row) -> Seq<SqlValueModel> {
    seq![
        SqlValueModel::UBigInt(row.id),
        SqlValueModel::Text(row.name),
        flag_value(row.available),
        flag_value(row.valid),
        SqlValueModel::Decimal(row.page_rank),
        flag_value(row.censored),
    ]
}

/// The values of a row with the identifier last.
pub open spec fn row_values_id_last(row: Row) -> Seq<SqlValueModel> {
    seq![
        SqlValueModel::Text(row.name),
        flag_value(row.available),
        flag_value(row.valid),
        SqlValueModel::Decimal(row.page_rank),
        flag_value(row.censored),
        SqlValueModel::UBigInt(row.id),
    ]
}

/// Binds the page rank of a record: zero where none is known.
fn bind_page_rank(domain: &Domain) -> (v: SqlValue)
    ensures
        v@ == SqlValueModel::Decimal(domain@.page_rank),
{
    match domain.page_rank {
        Some(rank) => SqlValue::Decimal(rank),
        None => SqlValue::Decimal(crate::domain::PageRank { thousandths: 0 }),
    }
}

/// The statement that writes `domain` into the table: every field is
/// bound, in the order of the columns, and a row with the same identifier
/// is replaced.
pub fn insert_domain(schema: Schema, domain: &Domain) -> (sql: Sql)
    ensures
        sql@ == (SqlModel { text: insert_text(schema), params: row_values(domain@) }),
{
    let mut text = String::new();
    push_qualified(
        &mut text,
        "INSERT OR REPLACE INTO ",
        schema,
        ".domains (id, name, available, valid, page_rank, censored) VALUES (?, ?, ?, ?, ?, ?)",
    );
    assert(text@ =~= insert_text(schema));
    let mut params: Vec<SqlValue> = Vec::new();
    params.push(SqlValue::UBigInt(domain.id));
    params.push(SqlValue::Text(domain.name.clone()));
    params.push(SqlValue::Boolean(domain.available));
    params.push(bind_flag(domain.valid));
    params.push(bind_page_rank(domain));
    params.push(bind_flag(domain.censored));
    assert(values(params@) =~= row_values(domain@));
    Sql { text, params }
}

/// The row of a name that a crawl has just seen: available, not yet
/// validated or moderated, without a page rank.
pub open spec fn seen_row(name: Seq<char>) -> Row {
    Row {
        id: derived_id(name),
        name,
        available: Some(true),
        valid: None,
        page_rank: 0,
        censored: None,
    }
}

/// The statements that write the names of a crawl, one for each name in
/// the order of the names: a batch for one transaction. The first name
/// that holds whitespace is refused, with its position among the names.
pub fn insert_seen(schema: Schema, names: &Vec<String>) -> (r: Result<
    Vec<Sql>,
    (usize, InvalidRecordError),
>)
    ensures
        match r {
            Ok(statements) => {
                &&& statements@.len() == names@.len()
                &&& forall|i: int| 0 <= i < names@.len() ==> !has_whitespace(#[trigger] names@[i]@)
                &&& forall|i: int|
                    0 <= i < names@.len() ==> (#[trigger] statements@[i])@ == (SqlModel {
                        text: insert_text(schema),
                        params: row_values(seen_row(names@[i]@)),
                    })
            },
            Err((index, error)) => {
                &&& index < names@.len()
                &&& is_first_whitespace(names@[index as int]@, error.position as int)
                &&& forall|j: int| 0 <= j < index ==> !has_whitespace(#[trigger] names@[j]@)
            },
        },
{
    let mut statements: Vec<Sql> = Vec::new();
    let n: usize = names.len();
    let mut i: usize = 0;
    while i < n
        invariant
            n == names@.len(),
            i <= n,
            statements@.len() == i,
            forall|j: int| 0 <= j < i ==> !has_whitespace(#[trigger] names@[j]@),
            forall|j: int|
                0 <= j < i ==> (#[trigger] statements@[j])@ == (SqlModel {
                    text: insert_text(schema),
                    params: row_values(seen_row(names@[j]@)),
                }),
        decreases n - i,
    {
        match Domain::new(&names[i], true, None) {
            Ok(domain) => {
                assert(domain@ == seen_row(names@[i as int]@));
                statements.push(insert_domain(schema, &domain));
            },
            Err(error) => {
                return Err((i, error));
            },
        }
        i = i + 1;
    }
    Ok(statements)
}

/// The statement that rewrites the row of `domain`'s identifier with the
/// fields of `domain`.
pub fn update_domains(schema: Schema, domain: &Domain) -> (sql: Sql)
    ensures
        sql@ == (SqlModel { text: update_text(schema), params: row_values_id_last(domain@) }),
{
    let mut text = String::new();
    push_qualified(
        &mut text,
        "UPDATE ",
        schema,
        ".domains SET name = ?, available = ?, valid = ?, page_rank = ?, censored = ? WHERE id = ?",
    );
    assert(text@ =~= update_text(schema));
    let mut params: Vec<SqlValue> = Vec::new();
    params.push(SqlValue::Text(domain.name.clone()));
    params.push(SqlValue::Boolean(domain.available));
    params.push(bind_flag(domain.valid));
    params.push(bind_page_rank(domain));
    params.push(bind_flag(domain.censored));
    params.push(SqlValue::UBigInt(domain.id));
    assert(values(params@) =~= row_values_id_last(domain@));
    Sql { text, params }
}

/// The statement that lists the names of the rows that a filter admits:
/// the bare selection where the filter has no predicate, else the
/// selection, a space and the predicate, with the predicate's values.
pub open spec fn listing_statement(schema: Schema, f: FilterModel) -> SqlModel {
    match predicate_of(f) {
        Some(predicate) => SqlModel {
            text: select_text(schema) + " "@ + predicate.text,
            params: predicate.params,
        },
        None => SqlModel { text: select_text(schema), params: Seq::empty() },
    }
}

/// The head of the selection has no placeholder.
proof fn lemma_select_head_placeholders()
    ensures
        placeholders("SELECT name FROM "@) == 0,
{
    reveal_with_fuel(placeholders, 18);
    reveal_strlit("SELECT name FROM ");
}

/// The name of a namespace has no placeholder.
proof fn lemma_schema_name_placeholders(schema: Schema)
    ensures
        placeholders(schema.name()) == 0,
{
    reveal_with_fuel(placeholders, 5);
    reveal_strlit("dev");
    reveal_strlit("prod");
}

/// The name of the table has no placeholder.
proof fn lemma_table_name_placeholders()
    ensures
        placeholders(".domains"@) == 0,
{
    reveal_with_fuel(placeholders, 9);
    reveal_strlit(".domains");
}

/// A space is no placeholder.
proof fn lemma_space_placeholders()
    ensures
        placeholders(" "@) == 0,
{
    reveal_with_fuel(placeholders, 2);
    reveal_strlit(" ");
}

/// The selection itself has no placeholder.
proof fn lemma_select_text_placeholders(schema: Schema)
    ensures
        placeholders(select_text(schema)) == 0,
{
    lemma_select_head_placeholders();
    lemma_schema_name_placeholders(schema);
    lemma_table_name_placeholders();
    lemma_placeholders_add("SELECT name FROM "@, schema.name());
    lemma_placeholders_add("SELECT name FROM "@ + schema.name(), ".domains"@);
}

/// A listing binds every value of its filter: the statement's text holds
/// as many placeholders as the statement has values.
pub proof fn law_listing_binds_every_value(schema: Schema, f: FilterModel)
    ensures
        placeholders(listing_statement(schema, f).text) == listing_statement(
            schema,
            f,
        ).params.len(),
{
    lemma_select_text_placeholders(schema);
    if let Some(predicate) = predicate_of(f) {
        law_predicate_binds_every_value(f);
        lemma_space_placeholders();
        lemma_placeholders_add(select_text(schema), " "@);
        lemma_placeholders_add(select_text(schema) + " "@, predicate.text);
    }
}

/// The statement that lists the names of the rows that `filter` admits.
pub fn list_domains(schema: Schema, filter: DomainFilter) -> (sql: Sql)
    ensures
        sql@ == listing_statement(schema, filter@),
{
    let mut text = String::new();
    push_qualified(&mut text, "SELECT name FROM ", schema, ".domains");
    assert(text@ =~= select_text(schema));
    match filter.where_clause() {
        Some(predicate) => {
            text.append(" ");
            text.append(predicate.text.as_str());
            Sql { text, params: predicate.params }
        },
        None => {
            let params: Vec<SqlValue> = Vec::new();
            assert(values(params@) =~= Seq::empty());
            Sql { text, params }
        },
    }
}

/// The statements that set the store up, each only where its subject is
/// missing: the namespace, and in it the table of domains, whose names
/// hold no whitespace.
pub open spec fn setup_text(schema: Schema) -> Seq<char> {
    qualified("CREATE SCHEMA IF NOT EXISTS "@, schema, ";\n"@) + qualified(
        "CREATE TABLE IF NOT EXISTS "@,
        schema,
        ".domains (\n    id          UBIGINT PRIMARY KEY,\n    name        VARCHAR NOT NULL CHECK (NOT regexp_matches(name, '\\s')),\n    available   BOOLEAN DEFAULT NULL,\n    valid       BOOLEAN DEFAULT NULL,\n    page_rank   DECIMAL DEFAULT 0,\n    censored    BOOLEAN DEFAULT NULL\n);\n"@,
    ) + qualified(
        "COMMENT ON TABLE "@,
        schema,
        ".domains IS 'All domains from expired-domains.co';\n"@,
    ) + qualified(
        "COMMENT ON COLUMN "@,
        schema,
        ".domains.id IS 'identifier derived from the name';\n"@,
    ) + qualified("COMMENT ON COLUMN "@, schema, ".domains.name IS 'domain name';\n"@)
        + qualified(
        "COMMENT ON COLUMN "@,
        schema,
        ".domains.available IS 'was domain available at the time of the scan';\n"@,
    ) + qualified(
        "COMMENT ON COLUMN "@,
        schema,
        ".domains.valid IS 'is domain still available';\n"@,
    ) + qualified(
        "COMMENT ON COLUMN "@,
        schema,
        ".domains.page_rank IS 'page rank score from expired-domains.co';\n"@,
    ) + qualified(
        "COMMENT ON COLUMN "@,
        schema,
        ".domains.censored IS 'did the name fail moderation (true == bad words found)';\n"@,
    )
}

/// Writes the statements that set the store up.
pub fn setup_batch(schema: Schema) -> (text: String)
    ensures
        text@ == setup_text(schema),
{
    let mut text = String::new();
    push_qualified(&mut text, "CREATE SCHEMA IF NOT EXISTS ", schema, ";\n");
    push_qualified(
        &mut text,
        "CREATE TABLE IF NOT EXISTS ",
        schema,
        ".domains (\n    id          UBIGINT PRIMARY KEY,\n    name        VARCHAR NOT NULL CHECK (NOT regexp_matches(name, '\\s')),\n    available   BOOLEAN DEFAULT NULL,\n    valid       BOOLEAN DEFAULT NULL,\n    page_rank   DECIMAL DEFAULT 0,\n    censored    BOOLEAN DEFAULT NULL\n);\n",
    );
    push_qualified(
        &mut text,
        "COMMENT ON TABLE ",
        schema,
        ".domains IS 'All domains from expired-domains.co';\n",
    );
    push_qualified(
        &mut text,
        "COMMENT ON COLUMN ",
        schema,
        ".domains.id IS 'identifier derived from the name';\n",
    );
    push_qualified(&mut text, "COMMENT ON COLUMN ", schema, ".domains.name IS 'domain name';\n");
    push_qualified(
        &mut text,
        "COMMENT ON COLUMN ",
        schema,
        ".domains.available IS 'was domain available at the time of the scan';\n",
    );
    push_qualified(
        &mut text,
        "COMMENT ON COLUMN ",
        schema,
        ".domains.valid IS 'is domain still available';\n",
    );
    push_qualified(
        &mut text,
        "COMMENT ON COLUMN ",
        schema,
        ".domains.page_rank IS 'page rank score from expired-domains.co';\n",
    );
    push_qualified(
        &mut text,
        "COMMENT ON COLUMN ",
        schema,
        ".domains.censored IS 'did the name fail moderation (true == bad words found)';\n",
    );
    assert(text@ =~= setup_text(schema));
    text
}

/// Where a store lives.
#[derive(Clone, Debug)]
pub enum Location {
    Memory,
    File(String),
}

/// A location as plain values.
pub enum LocationModel {
    Memory,
    File(Seq<char>),
}

/// What has to be done to open the store.
#[derive(Clone, Debug)]
pub struct InitPlan {
    /// Where the store is opened.
    pub location: Location,
    /// Whether the directory that holds the file is created first where
    /// it is missing. A failure to create it is a `StorageInitError`.
    pub create_directory: bool,
    /// The statements that set the store up, run in one transaction.
    pub setup: Option<String>,
}

/// A plan as plain values.
pub struct InitPlanModel {
    pub location: LocationModel,
    pub create_directory: bool,
    pub setup: Option<Seq<char>>,
}

impl View for InitPlan {
    type V = InitPlanModel;

    open spec fn view(&self) -> InitPlanModel {
        InitPlanModel {
            location: match self.location {
                Location::Memory => LocationModel::Memory,
                Location::File(path) => LocationModel::File(path@),
            },
            create_directory: self.create_directory,
            setup: match self.setup {
                Some(text) => Some(text@),
                None => None,
            },
        }
    }
}

/// The configured text, or the default where nothing is configured.
pub open spec fn configured_or(configured: Option<String>, default: Seq<char>) -> Seq<char> {
    match configured {
        Some(text) => text@,
        None => default,
    }
}

/// Takes the configured text, or the default where nothing is configured.
fn take_or(configured: Option<String>, default: &str) -> (r: String)
    ensures
        r@ == configured_or(configured, default@),
{
    match configured {
        Some(text) => text,
        None => String::from_str(default),
    }
}

/// The plan for each way of opening the store. A store in memory and a
/// persistent one are set up; the persistent one has its directory
/// created; an existing one is only opened. `path` is the configured
/// file, if one is configured.
pub open spec fn init_plan(db_type: DuckDbType, schema: Schema, path: Option<String>)
    -> InitPlanModel {
    match db_type {
        DuckDbType::InMemory => InitPlanModel {
            location: LocationModel::Memory,
            create_directory: false,
            setup: Some(setup_text(schema)),
        },
        DuckDbType::Persistent => InitPlanModel {
            location: LocationModel::File(configured_or(path, "./data/domain-hunter.duckdb"@)),
            create_directory: true,
            setup: Some(setup_text(schema)),
        },
        DuckDbType::Existing => InitPlanModel {
            location: LocationModel::File(configured_or(path, "./data/duck.db"@)),
            create_directory: false,
            setup: None,
        },
    }
}

/// Plans the opening of the store.
pub fn db_init(db_type: DuckDbType, schema: Schema, path: Option<String>) -> (plan: InitPlan)
    ensures
        plan@ == init_plan(db_type, schema, path),
{
    match db_type {
        DuckDbType::InMemory => InitPlan {
            location: Location::Memory,
            create_directory: false,
            setup: Some(setup_batch(schema)),
        },
        DuckDbType::Persistent => InitPlan {
            location: Location::File(take_or(path, "./data/domain-hunter.duckdb")),
            create_directory: true,
            setup: Some(setup_batch(schema)),
        },
        DuckDbType::Existing => InitPlan {
            location: Location::File(take_or(path, "./data/duck.db")),
            create_directory: false,
            setup: None,
        },
    }
}

/// One bulk operation.
#[derive(Clone, Debug)]
pub enum Bulk {
    /// Statements that install and load an extension of the engine.
    Extension(String),
    /// One statement that moves a whole database. It runs in a
    /// transaction that is committed if it succeeds and rolled back if it
    /// fails.
    Transfer(String),
}

/// A bulk operation as plain values.
pub enum BulkModel {
    Extension(Seq<char>),
    Transfer(Seq<char>),
}

/// An optional bulk operation as plain values.
pub open spec fn bulk_model(bulk: Option<Bulk>) -> Option<BulkModel> {
    match bulk {
        Some(Bulk::Extension(text)) => Some(BulkModel::Extension(text@)),
        Some(Bulk::Transfer(text)) => Some(BulkModel::Transfer(text@)),
        None => None,
    }
}

/// The import from each source: a whole database from `directory` where
/// no source is named, the extension for the three sources that have one,
/// nothing for the others.
pub open spec fn import_plan(source: Option<DuckDbImportSource>, directory: Seq<char>) -> Option<
    BulkModel,
> {
    match source {
        None => Some(BulkModel::Transfer("IMPORT DATABASE "@ + quoted(directory) + ";"@)),
        Some(DuckDbImportSource::MySQL) => Some(
            BulkModel::Extension("INSTALL mysql;\nLOAD mysql;"@),
        ),
        Some(DuckDbImportSource::Iceberg) => Some(
            BulkModel::Extension("INSTALL iceberg;\nLOAD iceberg;\nUPDATE EXTENSIONS (iceberg);"@),
        ),
        Some(DuckDbImportSource::DeltaLake) => Some(
            BulkModel::Extension("INSTALL delta;\nLOAD delta;"@),
        ),
        Some(_) => None,
    }
}

/// Plans an import. `directory` is the configured directory of exports,
/// if one is configured; the default is `./duckdb`.
pub fn db_import(source: Option<DuckDbImportSource>, directory: Option<String>) -> (r: Option<
    Bulk,
>)
    ensures
        bulk_model(r) == import_plan(source, configured_or(directory, "./duckdb"@)),
{
    match source {
        None => {
            let target = take_or(directory, "./duckdb");
            let mut text = String::from_str("IMPORT DATABASE ");
            text.append(quote_literal(target.as_str()).as_str());
            text.append(";");
            Some(Bulk::Transfer(text))
        },
        Some(DuckDbImportSource::MySQL) => Some(
            Bulk::Extension(String::from_str("INSTALL mysql;\nLOAD mysql;")),
        ),
        Some(DuckDbImportSource::Iceberg) => Some(
            Bulk::Extension(
                String::from_str("INSTALL iceberg;\nLOAD iceberg;\nUPDATE EXTENSIONS (iceberg);"),
            ),
        ),
        Some(DuckDbImportSource::DeltaLake) => Some(
            Bulk::Extension(String::from_str("INSTALL delta;\nLOAD delta;")),
        ),
        Some(_) => None,
    }
}

/// The options of an export in each format.
pub open spec fn export_options(format: DuckDbExportFormat) -> Seq<char> {
    match format {
        DuckDbExportFormat::Parquet =>
            " (FORMAT PARQUET, COMPRESSION ZSTD, ROW_GROUP_SIZE 100_000);"@,
        DuckDbExportFormat::Csv => " (FORMAT CSV, DELIMITER '|');"@,
    }
}

/// The statement that exports the whole store into `directory`.
pub open spec fn export_text(format: DuckDbExportFormat, directory: Seq<char>) -> Seq<char> {
    "EXPORT DATABASE "@ + quoted(directory) + export_options(format)
}

/// Writes the statement that exports the whole store. `directory` is the
/// configured directory of exports, if one is configured; the default is
/// `./duckdb`. The statement runs in a transaction that is committed if it
/// succeeds and rolled back if it fails.
pub fn db_export(format: DuckDbExportFormat, directory: Option<String>) -> (text: String)
    ensures
        text@ == export_text(format, configured_or(directory, "./duckdb"@)),
{
    let target = take_or(directory, "./duckdb");
    let mut text = String::from_str("EXPORT DATABASE ");
    text.append(quote_literal(target.as_str()).as_str());
    match format {
        DuckDbExportFormat::Parquet => {
            text.append(" (FORMAT PARQUET, COMPRESSION ZSTD, ROW_GROUP_SIZE 100_000);");
        },
        DuckDbExportFormat::Csv => {
            text.append(" (FORMAT CSV, DELIMITER '|');");
        },
    }
    text
}

/// What the holder of the connection is asked to do next for a batch.
#[derive(Clone, Copy, Debug, PartialEq, Eq, Structural)]
pub enum TxAction {
    /// Open a transaction.
    Begin,
    /// Run the statement at this position of the batch.
    Execute { index: usize },
    /// Commit the transaction.
    Commit,
    /// Roll the transaction back.
    Rollback,
    /// Nothing is left to do.
    Finish,
}

/// Where a batch stands: the action whose outcome it awaits.
#[derive(Clone, Copy, Debug, PartialEq, Eq, Structural)]
pub enum TxPhase {
    Beginning,
    Executing { index: usize },
    Committing,
    RollingBack,
    Done,
}

/// A batch of statements in one transaction: all of them take effect, or
/// none does.
#[derive(Clone, Copy, Debug, PartialEq, Eq, Structural)]
pub struct Batch {
    /// The number of statements.
    pub count: usize,
    /// The action that is under way.
    pub phase: TxPhase,
    /// Why the batch was given up, if it was.
    pub failure: Option<StoreError>,
}

impl Batch {
    /// The batch after an action that succeeded (`ok`) or failed, and the
    /// action that it asks for next. The statements run in their order;
    /// after the last the transaction is committed. A statement that fails
    /// has the transaction rolled back, and the batch ends in
    /// `StorageWriteError`, as it does where the transaction cannot be
    /// opened or committed.
    pub open spec fn next(self, ok: bool) -> (Batch, TxAction) {
        let failed = Batch { failure: Some(StoreError::StorageWriteError), ..self };
        match self.phase {
            TxPhase::Beginning => if !ok {
                (Batch { phase: TxPhase::Done, ..failed }, TxAction::Finish)
            } else if self.count > 0 {
                (
                    Batch { phase: TxPhase::Executing { index: 0 }, ..self },
                    TxAction::Execute { index: 0 },
                )
            } else {
                (Batch { phase: TxPhase::Committing, ..self }, TxAction::Commit)
            },
            TxPhase::Executing { index } => if !ok {
                (Batch { phase: TxPhase::RollingBack, ..failed }, TxAction::Rollback)
            } else if index + 1 < self.count {
                (
                    Batch { phase: TxPhase::Executing { index: (index + 1) as usize }, ..self },
                    TxAction::Execute { index: (index + 1) as usize },
                )
            } else {
                (Batch { phase: TxPhase::Committing, ..self }, TxAction::Commit)
            },
            TxPhase::Committing => if ok {
                (Batch { phase: TxPhase::Done, ..self }, TxAction::Finish)
            } else {
                (Batch { phase: TxPhase::Done, ..failed }, TxAction::Finish)
            },
            TxPhase::RollingBack => (Batch { phase: TxPhase::Done, ..self }, TxAction::Finish),
            TxPhase::Done => (self, TxAction::Finish),
        }
    }

    /// What a batch has come to: nothing while it is under way.
    pub open spec fn result(self) -> Option<Result<(), StoreError>> {
        if self.phase is Done {
            match self.failure {
                Some(error) => Some(Err(error)),
                None => Some(Ok(())),
            }
        } else {
            None
        }
    }

    /// Starts a batch of `count` statements. The batch awaits the outcome
    /// of the action that is returned with it, `TxAction::Begin`.
    pub fn begin(count: usize) -> (r: (Batch, TxAction))
        ensures
            r.0 == (Batch { count, phase: TxPhase::Beginning, failure: None }),
            r.1 == TxAction::Begin,
    {
        (Batch { count, phase: TxPhase::Beginning, failure: None }, TxAction::Begin)
    }

    /// Takes in whether the last action succeeded and says what to do
    /// next.
    pub fn step(self, ok: bool) -> (r: (Batch, TxAction))
        ensures
            r == self.next(ok),
    {
        let failure = Some(StoreError::StorageWriteError);
        match self.phase {
            TxPhase::Beginning => {
                if !ok {
                    (Batch { count: self.count, phase: TxPhase::Done, failure }, TxAction::Finish)
                } else if self.count > 0 {
                    (
                        Batch {
                            count: self.count,
                            phase: TxPhase::Executing { index: 0 },
                            failure: self.failure,
                        },
                        TxAction::Execute { index: 0 },
                    )
                } else {
                    (
                        Batch {
                            count: self.count,
                            phase: TxPhase::Committing,
                            failure: self.failure,
                        },
                        TxAction::Commit,
                    )
                }
            },
            TxPhase::Executing { index } => {
                if !ok {
                    (
                        Batch { count: self.count, phase: TxPhase::RollingBack, failure },
                        TxAction::Rollback,
                    )
                } else if index < self.count && index + 1 < self.count {
                    (
                        Batch {
                            count: self.count,
                            phase: TxPhase::Executing { index: index + 1 },
                            failure: self.failure,
                        },
                        TxAction::Execute { index: index + 1 },
                    )
                } else {
                    (
                        Batch {
                            count: self.count,
                            phase: TxPhase::Committing,
                            failure: self.failure,
                        },
                        TxAction::Commit,
                    )
                }
            },
            TxPhase::Committing => {
                if ok {
                    (
                        Batch { count: self.count, phase: TxPhase::Done, failure: self.failure },
                        TxAction::Finish,
                    )
                } else {
                    (Batch { count: self.count, phase: TxPhase::Done, failure }, TxAction::Finish)
                }
            },
            TxPhase::RollingBack => (
                Batch { count: self.count, phase: TxPhase::Done, failure: self.failure },
                TxAction::Finish,
            ),
            TxPhase::Done => (self, TxAction::Finish),
        }
    }

    /// Hands out what the batch came to: nothing while it is under way.
    pub fn outcome(self) -> (r: Option<Result<(), StoreError>>)
        ensures
            r == self.result(),
    {
        match self.phase {
            TxPhase::Done => match self.failure {
                Some(error) => Some(Err(error)),
                None => Some(Ok(())),
            },
            _ => None,
        }
    }
}

/// A batch is committed only after its last statement has succeeded, and a
/// failure is never followed by a commit: a statement that fails has the
/// transaction rolled back, and the batch keeps the error to its end.
pub proof fn law_commit_follows_success(batch: Batch, ok: bool)
    ensures
        batch.next(ok).1 == TxAction::Commit ==> ok && batch.failure == batch.next(ok).0.failure
            && (batch.phase == TxPhase::Beginning && batch.count == 0 || (
        batch.phase matches TxPhase::Executing { index } && index + 1 >= batch.count)),
        batch.phase is Executing && !ok ==> batch.next(ok).1 == TxAction::Rollback,
        !ok && !(batch.phase is RollingBack) && !(batch.phase is Done) ==> batch.next(
            ok,
        ).0.failure.is_some(),
        batch.failure.is_some() ==> batch.next(ok).0.failure.is_some(),
        batch.failure.is_some() && batch.next(ok).0.phase is Done ==> batch.next(ok).0.result()
            == Some(Err::<(), StoreError>(batch.next(ok).0.failure.unwrap())),
{
}

/// The batch after a run of outcomes, and the actions that it asked for
/// on the way, oldest first.
pub open spec fn run(batch: Batch, outcomes: Seq<bool>) -> (Batch, Seq<TxAction>)
    decreases outcomes.len(),
{
    if outcomes.len() == 0 {
        (batch, Seq::empty())
    } else {
        let (before, actions) = run(batch, outcomes.drop_last());
        let (after, action) = before.next(outcomes.last());
        (after, actions.push(action))
    }
}

/// Whether the statement at `index` has been asked for.
pub open spec fn asked_for(actions: Seq<TxAction>, index: int) -> bool {
    0 <= index <= usize::MAX && actions.contains(TxAction::Execute { index: index as usize })
}

/// Whether every statement before `upto` has been asked for.
pub open spec fn asked_for_all(actions: Seq<TxAction>, upto: int) -> bool {
    forall|i: int| 0 <= i < upto ==> #[trigger] asked_for(actions, i)
}

/// Whether a batch that was started with `count` statements can stand at
/// `batch` after having asked for `actions`.
pub open spec fn reachable(count: usize, batch: Batch, actions: Seq<TxAction>) -> bool {
    &&& batch.count == count
    &&& match batch.phase {
        TxPhase::Beginning => batch.failure.is_none() && actions.len() == 0,
        TxPhase::Executing { index } => {
            &&& batch.failure.is_none()
            &&& index < count
            &&& asked_for_all(actions, index + 1)
            &&& !actions.contains(TxAction::Commit)
        },
        TxPhase::Committing => {
            &&& batch.failure.is_none()
            &&& asked_for_all(actions, count as int)
            &&& actions.contains(TxAction::Commit)
        },
        TxPhase::RollingBack => {
            &&& batch.failure.is_some()
            &&& actions.contains(TxAction::Rollback)
            &&& !actions.contains(TxAction::Commit)
        },
        TxPhase::Done => batch.failure.is_none() ==> asked_for_all(actions, count as int)
            && actions.contains(TxAction::Commit),
    }
}

/// One more step keeps a batch among those that can be reached.
proof fn lemma_step_stays_reachable(count: usize, batch: Batch, actions: Seq<TxAction>, ok: bool)
    requires
        reachable(count, batch, actions),
    ensures
        reachable(count, batch.next(ok).0, actions.push(batch.next(ok).1)),
{
    let (after, action) = batch.next(ok);
    let all = actions.push(action);
    assert(all[actions.len() as int] == action);
    assert forall|a: TxAction| actions.contains(a) implies all.contains(a) by {
        let i = choose|i: int| 0 <= i < actions.len() && actions[i] == a;
        assert(all[i] == a);
    }
    assert forall|a: TxAction| all.contains(a) && a != action implies actions.contains(a) by {
        let i = choose|i: int| 0 <= i < all.len() && all[i] == a;
        assert(actions[i] == a);
    }
    assert forall|i: int| asked_for(actions, i) implies asked_for(all, i) by {}
    match batch.phase {
        TxPhase::Beginning => {
            if ok && count > 0 {
                assert(asked_for(all, 0));
            }
        },
        TxPhase::Executing { index } => {
            if ok && index + 1 < count {
                assert(asked_for(all, index + 1));
                assert forall|i: int| 0 <= i < index + 2 implies #[trigger] asked_for(all, i) by {
                    if i <= index {
                        assert(asked_for(actions, i));
                    }
                }
            }
        },
        _ => {},
    }
}

/// All or nothing: a batch that has ended without an error has asked for
/// every one of its statements and then for the commit; a batch whose
/// transaction is being rolled back has never asked for the commit, and
/// ends in `StorageWriteError`.
pub proof fn law_batch_runs_all_or_nothing(count: usize, outcomes: Seq<bool>)
    ensures
        ({
            let (end, actions) = run(
                Batch { count, phase: TxPhase::Beginning, failure: None },
                outcomes,
            );
            &&& reachable(count, end, actions)
            &&& end.result() == Some(Ok::<(), StoreError>(())) ==> actions.contains(
                TxAction::Commit,
            ) && asked_for_all(actions, count as int)
            &&& end.phase == TxPhase::RollingBack ==> !actions.contains(TxAction::Commit)
                && end.next(true).0.result() == Some(
                Err::<(), StoreError>(StoreError::StorageWriteError),
            )
        }),
    decreases outcomes.len(),
{
    let start = Batch { count, phase: TxPhase::Beginning, failure: None };
    if outcomes.len() > 0 {
        law_batch_runs_all_or_nothing(count, outcomes.drop_last());
        let (before, actions) = run(start, outcomes.drop_last());
        lemma_step_stays_reachable(count, before, actions, outcomes.last());
    }
}

/// The table of domains as the statements are written to leave it: at
/// most one row for each identifier. The engine that keeps the table is
/// not part of this library, and nothing is proved of it.
pub type Table = Map<u64, Row>;

/// The table after `row` has been written: the row replaces the one that
/// has its identifier, or is added.
pub open spec fn upsert(table: Table, row: Row) -> Table {
    table.insert(row.id, row)
}

/// Whether every row is kept under its own identifier, the one derived
/// from its name.
pub open spec fn table_wf(table: Table) -> bool {
    forall|id: u64| #[trigger]
        table.dom().contains(id) ==> table[id].id == id && id == derived_id(table[id].name)
}

/// The names of the rows that a filter admits.
pub open spec fn listing(table: Table, f: FilterModel) -> Set<Seq<char>> {
    Set::new(
        |name: Seq<char>|
            exists|id: u64| #[trigger]
                table.dom().contains(id) && table[id].name == name && admits(f, table[id]),
    )
}

/// The names of all rows.
pub open spec fn names(table: Table) -> Set<Seq<char>> {
    Set::new(
        |name: Seq<char>| exists|id: u64| #[trigger]
            table.dom().contains(id) && table[id].name == name,
    )
}

/// Writing a record twice leaves the table as writing it once does, and
/// two records of one name leave one row for the name: the row of the
/// record that was written last.
pub proof fn law_upsert_replaces(table: Table, first: Domain, second: Domain)
    requires
        table_wf(table),
        first.wf(),
        second.wf(),
        first.name@ == second.name@,
    ensures
        upsert(upsert(table, first@), first@) == upsert(table, first@),
        table_wf(upsert(upsert(table, first@), second@)),
        upsert(upsert(table, first@), second@).dom() == table.dom().insert(first.id),
        upsert(upsert(table, first@), second@)[first.id] == second@,
        forall|id: u64| #[trigger]
            upsert(upsert(table, first@), second@).dom().contains(id) && upsert(
                upsert(table, first@),
                second@,
            )[id].name == first.name@ <==> id == first.id,
{
    assert(upsert(upsert(table, first@), first@) =~= upsert(table, first@));
    assert(upsert(upsert(table, first@), second@).dom() =~= table.dom().insert(first.id));
}

/// A filter that constrains nothing lists every name, and has the bare
/// selection as its statement; any filter lists only names of rows that
/// it admits.
pub proof fn law_listing(table: Table, f: FilterModel, schema: Schema)
    ensures
        listing(table, unconstrained()) == names(table),
        listing_statement(schema, unconstrained()) == (SqlModel {
            text: select_text(schema),
            params: Seq::empty(),
        }),
        listing(table, f).subset_of(names(table)),
        forall|name: Seq<char>| #[trigger]
            listing(table, f).contains(name) ==> exists|id: u64| #[trigger]
                table.dom().contains(id) && table[id].name == name && admits(f, table[id]),
{
    assert(listing(table, unconstrained()) =~= names(table));
}

} // verus!
