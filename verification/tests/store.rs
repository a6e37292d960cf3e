use domain_hunter::domain::{Domain, PageRank};
use domain_hunter::error::{InvalidRecordError, StoreError};
use domain_hunter::filter::DomainFilter;
use domain_hunter::sql::{bind_flag, quote_literal, SqlValue};
use domain_hunter::store::{
    backend_of, db_export, db_import, db_init, insert_domain, insert_seen, list_domains,
    setup_batch,
    update_domains, Backend, Batch, Bulk, DuckDbExportFormat, DuckDbImportSource, DuckDbType,
    Location, Schema, TxAction, TxPhase,
};

fn show(values: &[SqlValue]) -> Vec<String> {
    values.iter().map(|v| format!("{:?}", v)).collect()
}

fn empty() -> DomainFilter {
    DomainFilter { id: None, name: None, available: None, valid: None, page_rank: None, censored: None }
}

#[test]
fn test_insert_domain() {
    let domain = Domain::new(&"test.com".to_string(), true, None).unwrap();
    let insert = insert_domain(Schema::Dev, &domain);
    assert_eq!(
        insert.text,
        "INSERT OR REPLACE INTO dev.domains (id, name, available, valid, page_rank, censored) \
         VALUES (?, ?, ?, ?, ?, ?)"
    );
    assert_eq!(insert.params.len(), 6);
    assert_eq!(
        show(&insert.params),
        vec![
            format!("UBigInt({})", domain.id),
            "Text(\"test.com\")".to_string(),
            "Boolean(true)".to_string(),
            "Null".to_string(),
            "Decimal(PageRank { thousandths: 0 })".to_string(),
            "Null".to_string()
        ]
    );
}

#[test]
fn test_insert_duplicate_domain() {
    let first = insert_domain(Schema::Dev, &Domain::new(&"test.com".to_string(), true, None).unwrap());
    let again = insert_domain(Schema::Dev, &Domain::new(&"test.com".to_string(), true, None).unwrap());
    assert_eq!(first.text, again.text);
    assert!(first.text.starts_with("INSERT OR REPLACE INTO dev.domains "));
    assert_eq!(show(&first.params), show(&again.params));
    assert_eq!(format!("{:?}", first.params[0]), format!("{:?}", again.params[0]));
}

#[test]
fn second_write_of_a_name_keeps_the_key_and_brings_its_page_rank() {
    let name = "a.com".to_string();
    let first = insert_domain(Schema::Prod, &Domain::new(&name, true, None).unwrap());
    let second = insert_domain(
        Schema::Prod,
        &Domain::new(&name, true, Some(PageRank { thousandths: 2500 })).unwrap(),
    );
    assert!(second.text.starts_with("INSERT OR REPLACE INTO prod.domains "));
    assert_eq!(show(&first.params[..2]), show(&second.params[..2]));
    assert_eq!(
        format!("{:?}", second.params[4]),
        "Decimal(PageRank { thousandths: 2500 })"
    );
}

#[test]
fn update_binds_the_identifier_last() {
    let mut domain = Domain::new(&"test.com".to_string(), false, Some(PageRank { thousandths: 7 })).unwrap();
    domain.valid = Some(true);
    domain.censored = Some(false);
    let update = update_domains(Schema::Prod, &domain);
    assert_eq!(
        update.text,
        "UPDATE prod.domains SET name = ?, available = ?, valid = ?, page_rank = ?, censored = ? \
         WHERE id = ?"
    );
    assert_eq!(
        show(&update.params),
        vec![
            "Text(\"test.com\")".to_string(),
            "Boolean(false)".to_string(),
            "Boolean(true)".to_string(),
            "Decimal(PageRank { thousandths: 7 })".to_string(),
            "Boolean(false)".to_string(),
            format!("UBigInt({})", domain.id)
        ]
    );
}

#[test]
fn listing_without_and_with_a_filter() {
    let all = list_domains(Schema::Dev, empty());
    assert_eq!(all.text, "SELECT name FROM dev.domains");
    assert!(all.params.is_empty());

    let filter = DomainFilter {
        available: Some(true),
        page_rank: Some(PageRank { thousandths: 1500 }),
        ..empty()
    };
    let some = list_domains(Schema::Prod, filter);
    assert_eq!(
        some.text,
        "SELECT name FROM prod.domains WHERE available = ? AND page_rank >= ?"
    );
    assert_eq!(
        show(&some.params),
        vec!["Boolean(true)", "Decimal(PageRank { thousandths: 1500 })"]
    );
}

#[test]
fn flags_are_bound_as_null_when_unknown() {
    assert_eq!(format!("{:?}", bind_flag(None)), "Null");
    assert_eq!(format!("{:?}", bind_flag(Some(false))), "Boolean(false)");
}

#[test]
fn literals_are_quoted() {
    assert_eq!(quote_literal(""), "''");
    assert_eq!(quote_literal("./duckdb"), "'./duckdb'");
    assert_eq!(quote_literal("it's"), "'it''s'");
    assert_eq!(quote_literal("'"), "''''");
    assert_eq!(quote_literal("a'; DROP TABLE x; --"), "'a''; DROP TABLE x; --'");
    assert_eq!(quote_literal("d\u{e9}p\u{f4}t"), "'d\u{e9}p\u{f4}t'");
}

#[test]
fn setup_names_the_schema_everywhere() {
    let dev = setup_batch(Schema::Dev);
    assert!(dev.starts_with("CREATE SCHEMA IF NOT EXISTS dev;\nCREATE TABLE IF NOT EXISTS dev.domains (\n"));
    assert!(dev.contains("id          UBIGINT PRIMARY KEY,"));
    assert!(dev.contains("name        VARCHAR NOT NULL CHECK (NOT regexp_matches(name, '\\s')),"));
    assert!(dev.contains("page_rank   DECIMAL DEFAULT 0,"));
    assert!(dev.ends_with("(true == bad words found)';\n"));
    assert_eq!(dev.matches("dev").count(), 9);
    assert!(!dev.contains("prod"));
    let prod = setup_batch(Schema::Prod);
    assert_eq!(prod, dev.replace("dev", "prod"));
}

#[test]
fn plans_for_opening_the_store() {
    let plan = db_init(DuckDbType::InMemory, Schema::Dev, Some("ignored".to_string()));
    assert!(matches!(plan.location, Location::Memory));
    assert!(!plan.create_directory);
    assert_eq!(plan.setup, Some(setup_batch(Schema::Dev)));

    let plan = db_init(DuckDbType::Persistent, Schema::Prod, None);
    assert!(matches!(plan.location, Location::File(ref p) if p == "./data/domain-hunter.duckdb"));
    assert!(plan.create_directory);
    assert_eq!(plan.setup, Some(setup_batch(Schema::Prod)));

    let plan = db_init(DuckDbType::Persistent, Schema::Prod, Some("/var/db/x.duckdb".to_string()));
    assert!(matches!(plan.location, Location::File(ref p) if p == "/var/db/x.duckdb"));

    let plan = db_init(DuckDbType::Existing, Schema::Dev, None);
    assert!(matches!(plan.location, Location::File(ref p) if p == "./data/duck.db"));
    assert!(!plan.create_directory);
    assert_eq!(plan.setup, None);

    let plan = db_init(DuckDbType::Existing, Schema::Dev, Some("here.db".to_string()));
    assert!(matches!(plan.location, Location::File(ref p) if p == "here.db"));
}

#[test]
fn imports() {
    match db_import(None, None) {
        Some(Bulk::Transfer(text)) => assert_eq!(text, "IMPORT DATABASE './duckdb';"),
        other => panic!("{:?}", other),
    }
    match db_import(None, Some("o'hara".to_string())) {
        Some(Bulk::Transfer(text)) => assert_eq!(text, "IMPORT DATABASE 'o''hara';"),
        other => panic!("{:?}", other),
    }
    match db_import(Some(DuckDbImportSource::MySQL), None) {
        Some(Bulk::Extension(text)) => assert_eq!(text, "INSTALL mysql;\nLOAD mysql;"),
        other => panic!("{:?}", other),
    }
    match db_import(Some(DuckDbImportSource::Iceberg), None) {
        Some(Bulk::Extension(text)) => {
            assert_eq!(text, "INSTALL iceberg;\nLOAD iceberg;\nUPDATE EXTENSIONS (iceberg);")
        }
        other => panic!("{:?}", other),
    }
    match db_import(Some(DuckDbImportSource::DeltaLake), None) {
        Some(Bulk::Extension(text)) => assert_eq!(text, "INSTALL delta;\nLOAD delta;"),
        other => panic!("{:?}", other),
    }
    for source in [
        DuckDbImportSource::Csv,
        DuckDbImportSource::Json,
        DuckDbImportSource::Parquet,
        DuckDbImportSource::SQLite,
        DuckDbImportSource::PostgreSQL,
        DuckDbImportSource::CloudflareR2,
        DuckDbImportSource::AzureBlob,
        DuckDbImportSource::S3,
    ] {
        assert!(db_import(Some(source), None).is_none());
    }
}

#[test]
fn exports() {
    assert_eq!(
        db_export(DuckDbExportFormat::Parquet, None),
        "EXPORT DATABASE './duckdb' (FORMAT PARQUET, COMPRESSION ZSTD, ROW_GROUP_SIZE 100_000);"
    );
    assert_eq!(
        db_export(DuckDbExportFormat::Csv, Some("/tmp/out".to_string())),
        "EXPORT DATABASE '/tmp/out' (FORMAT CSV, DELIMITER '|');"
    );
}

#[test]
fn batch_commits_after_the_last_statement() {
    let (batch, action) = Batch::begin(2);
    assert_eq!(action, TxAction::Begin);
    assert_eq!(batch.outcome(), None);
    let (batch, action) = batch.step(true);
    assert_eq!(action, TxAction::Execute { index: 0 });
    let (batch, action) = batch.step(true);
    assert_eq!(action, TxAction::Execute { index: 1 });
    let (batch, action) = batch.step(true);
    assert_eq!(action, TxAction::Commit);
    assert_eq!(batch.phase, TxPhase::Committing);
    let (batch, action) = batch.step(true);
    assert_eq!(action, TxAction::Finish);
    assert_eq!(batch.outcome(), Some(Ok(())));
    assert_eq!(batch.step(false), (batch, TxAction::Finish));
}

#[test]
fn batch_rolls_back_when_a_statement_fails() {
    let (batch, _) = Batch::begin(3);
    let (batch, _) = batch.step(true);
    let (batch, action) = batch.step(true);
    assert_eq!(action, TxAction::Execute { index: 1 });
    let (batch, action) = batch.step(false);
    assert_eq!(action, TxAction::Rollback);
    assert_eq!(batch.outcome(), None);
    let (batch, action) = batch.step(true);
    assert_eq!(action, TxAction::Finish);
    assert_eq!(batch.outcome(), Some(Err(StoreError::StorageWriteError)));
}

#[test]
fn batch_edges() {
    let (batch, _) = Batch::begin(0);
    let (batch, action) = batch.step(true);
    assert_eq!(action, TxAction::Commit);
    let (batch, action) = batch.step(false);
    assert_eq!(action, TxAction::Finish);
    assert_eq!(batch.outcome(), Some(Err(StoreError::StorageWriteError)));

    let (batch, _) = Batch::begin(1);
    let (batch, action) = batch.step(false);
    assert_eq!(action, TxAction::Finish);
    assert_eq!(batch.outcome(), Some(Err(StoreError::StorageWriteError)));

    let (batch, _) = Batch::begin(1);
    let (batch, _) = batch.step(true);
    let (batch, _) = batch.step(false);
    let (batch, action) = batch.step(false);
    assert_eq!(action, TxAction::Finish);
    assert_eq!(batch.outcome(), Some(Err(StoreError::StorageWriteError)));
}

#[test]
fn settings_that_name_a_store() {
    assert_eq!(backend_of("sql"), Some(Backend::Sql));
    assert_eq!(backend_of("graph"), Some(Backend::Graph));
    assert_eq!(backend_of(""), None);
    assert_eq!(backend_of("SQL"), None);
    assert_eq!(backend_of("sqlite"), None);
}

#[test]
fn names_of_a_crawl_become_one_statement_each() {
    let names = vec!["foo.com".to_string(), "bar.net".to_string(), "foo.com".to_string()];
    let statements = insert_seen(Schema::Dev, &names).unwrap();
    assert_eq!(statements.len(), 3);
    for (name, statement) in names.iter().zip(&statements) {
        let single = insert_domain(Schema::Dev, &Domain::new(name, true, None).unwrap());
        assert_eq!(statement.text, single.text);
        assert_eq!(show(&statement.params), show(&single.params));
    }
    assert_eq!(show(&statements[0].params), show(&statements[2].params));
    assert!(insert_seen(Schema::Prod, &Vec::new()).unwrap().is_empty());
}

#[test]
fn first_bad_name_of_a_crawl_is_refused() {
    let names = vec!["foo.com".to_string(), "b ar.net".to_string(), " baz.org".to_string()];
    assert_eq!(
        insert_seen(Schema::Dev, &names).err(),
        Some((1, InvalidRecordError { position: 1 }))
    );
}
