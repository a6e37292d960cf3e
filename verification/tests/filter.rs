use domain_hunter::domain::PageRank;
use domain_hunter::error::InvalidFilterError;
use domain_hunter::filter::{
    conjoin, read_flag, split_at_commas, DomainFilter, DomainFilterFields,
};
use domain_hunter::sql::SqlValue;

fn empty() -> DomainFilter {
    DomainFilter { id: None, name: None, available: None, valid: None, page_rank: None, censored: None }
}

fn entry(field: DomainFilterFields, value: &str) -> (DomainFilterFields, Option<String>) {
    (field, Some(value.to_string()))
}

fn show(values: &[SqlValue]) -> Vec<String> {
    values.iter().map(|v| format!("{:?}", v)).collect()
}

#[test]
fn empty_filter_has_no_predicate() {
    assert!(empty().where_clause().is_none());
    assert!(DomainFilter::new(None).unwrap().where_clause().is_none());
    assert!(DomainFilter::new(Some(&Vec::new())).unwrap().where_clause().is_none());
}

#[test]
fn availability_and_page_rank_are_bound_not_spliced() {
    let filter = DomainFilter {
        available: Some(true),
        page_rank: Some(PageRank { thousandths: 1500 }),
        ..empty()
    };
    let p = filter.where_clause().unwrap();
    assert_eq!(p.text, "WHERE available = ? AND page_rank >= ?");
    assert_eq!(
        show(&p.params),
        vec!["Boolean(true)", "Decimal(PageRank { thousandths: 1500 })"]
    );
    assert!(!p.text.contains("1.5"));
    assert!(!p.text.contains("1500"));
    assert!(!p.text.contains("true"));
}

#[test]
fn predicate_text_is_the_same_for_other_values() {
    let a = DomainFilter { id: Some(1), name: Some("com,net".to_string()), censored: Some(false), ..empty() };
    let b = DomainFilter { id: Some(999), name: Some("org,de".to_string()), censored: Some(true), ..empty() };
    assert_eq!(a.where_clause().unwrap().text, b.where_clause().unwrap().text);
}

#[test]
fn every_field_in_column_order() {
    let filter = DomainFilter {
        id: Some(42),
        name: Some("com,net,org".to_string()),
        available: Some(true),
        valid: Some(false),
        page_rank: Some(PageRank { thousandths: 250 }),
        censored: Some(false),
    };
    let p = filter.where_clause().unwrap();
    assert_eq!(
        p.text,
        "WHERE id = ? AND (name LIKE ? OR name LIKE ? OR name LIKE ?) AND available = ? \
         AND valid = ? AND page_rank >= ? AND censored = ?"
    );
    assert_eq!(
        show(&p.params),
        vec![
            "UBigInt(42)",
            "Text(\"%.com\")",
            "Text(\"%.net\")",
            "Text(\"%.org\")",
            "Boolean(true)",
            "Boolean(false)",
            "Decimal(PageRank { thousandths: 250 })",
            "Boolean(false)"
        ]
    );
    assert_eq!(p.text.matches('?').count(), p.params.len());
}

#[test]
fn single_tld_and_hostile_tld() {
    let filter = DomainFilter { name: Some("com".to_string()), ..empty() };
    let p = filter.where_clause().unwrap();
    assert_eq!(p.text, "WHERE (name LIKE ?)");
    assert_eq!(show(&p.params), vec!["Text(\"%.com\")"]);

    let filter = DomainFilter { name: Some("com' OR '1'='1".to_string()), ..empty() };
    let p = filter.where_clause().unwrap();
    assert_eq!(p.text, "WHERE (name LIKE ?)");
    assert_eq!(show(&p.params), vec!["Text(\"%.com' OR '1'='1\")"]);
}

#[test]
fn splitting_at_commas() {
    assert_eq!(split_at_commas(""), vec![""]);
    assert_eq!(split_at_commas("com"), vec!["com"]);
    assert_eq!(split_at_commas("com,net"), vec!["com", "net"]);
    assert_eq!(split_at_commas(",com,,n\u{e9}t,"), vec!["", "com", "", "n\u{e9}t", ""]);
    for s in ["", "a", ",", "a,b,,c", ",,"] {
        let expected: Vec<String> = s.split(",").map(|p| p.to_string()).collect();
        assert_eq!(split_at_commas(s), expected);
    }
}

#[test]
fn joining_with_and() {
    assert_eq!(conjoin(&Vec::new()), "");
    assert_eq!(conjoin(&vec!["a = ?".to_string()]), "a = ?");
    assert_eq!(
        conjoin(&vec!["a = ?".to_string(), "b = ?".to_string(), "c = ?".to_string()]),
        "a = ? AND b = ? AND c = ?"
    );
}

#[test]
fn truth_values() {
    for s in ["true", "1", "True", "T"] {
        assert_eq!(read_flag(s), Some(true));
    }
    for s in ["false", "0", "False", "F"] {
        assert_eq!(read_flag(s), Some(false));
    }
    for s in ["", "TRUE", "yes", "t", "f", " true", "10"] {
        assert_eq!(read_flag(s), None);
    }
}

#[test]
fn filter_from_entries() {
    let entries = vec![
        entry(DomainFilterFields::Id, "17"),
        entry(DomainFilterFields::Name, "com,org"),
        entry(DomainFilterFields::Available, "T"),
        entry(DomainFilterFields::Valid, "0"),
        entry(DomainFilterFields::PageRank, "1.5"),
        entry(DomainFilterFields::Censored, "False"),
    ];
    let f = DomainFilter::new(Some(&entries)).unwrap();
    assert_eq!(f.id, Some(17));
    assert_eq!(f.name, Some("com,org".to_string()));
    assert_eq!(f.available, Some(true));
    assert_eq!(f.valid, Some(false));
    assert_eq!(f.page_rank, Some(PageRank { thousandths: 1500 }));
    assert_eq!(f.censored, Some(false));
}

#[test]
fn entries_without_value_change_nothing_and_later_entries_win() {
    let entries = vec![
        entry(DomainFilterFields::Id, "1"),
        (DomainFilterFields::Id, None),
        (DomainFilterFields::Available, None),
        entry(DomainFilterFields::Valid, "true"),
        entry(DomainFilterFields::Valid, "false"),
    ];
    let f = DomainFilter::new(Some(&entries)).unwrap();
    assert_eq!(f.id, Some(1));
    assert_eq!(f.available, None);
    assert_eq!(f.valid, Some(false));
    assert_eq!(f.name, None);
}

#[test]
fn each_unreadable_entry_has_its_error() {
    let cases = [
        (DomainFilterFields::Id, "-1", InvalidFilterError::Id),
        (DomainFilterFields::Id, "18446744073709551616", InvalidFilterError::Id),
        (DomainFilterFields::Available, "maybe", InvalidFilterError::Available),
        (DomainFilterFields::Valid, "", InvalidFilterError::Valid),
        (DomainFilterFields::PageRank, "high", InvalidFilterError::PageRank),
        (DomainFilterFields::Censored, "2", InvalidFilterError::Censored),
    ];
    for (field, value, error) in cases {
        let entries = vec![entry(DomainFilterFields::Name, "com"), entry(field, value)];
        assert_eq!(DomainFilter::new(Some(&entries)).err(), Some(error));
    }
}

#[test]
fn first_unreadable_entry_is_the_error() {
    let entries = vec![
        entry(DomainFilterFields::Censored, "x"),
        entry(DomainFilterFields::Id, "y"),
    ];
    assert_eq!(DomainFilter::new(Some(&entries)).err(), Some(InvalidFilterError::Censored));
}

#[test]
fn largest_identifier_is_read() {
    let entries = vec![entry(DomainFilterFields::Id, "+18446744073709551615")];
    assert_eq!(DomainFilter::new(Some(&entries)).unwrap().id, Some(u64::MAX));
}
