use domain_hunter::error::CrawlError;
use domain_hunter::markup::{get_last_page, get_records, last_page_of, records_of, Element};

fn element(classes: &[&str], inner_html: &str) -> Element {
    Element {
        classes: classes.iter().map(|c| c.to_string()).collect(),
        inner_html: inner_html.to_string(),
    }
}

#[test]
fn pagination_labels_give_the_highest_number() {
    let html = "<ul><li><a>1</a></li><li><a>2</a></li><li><a>\u{2026}</a></li>\
                <li><a>7</a></li><li><a>Next</a></li></ul>"
        .to_string();
    assert_eq!(get_last_page(&html), Ok(7));
}

#[test]
fn pagination_without_a_number_is_an_error() {
    let html = "<ul><li><a>Previous</a></li><li><a>Next</a></li></ul>".to_string();
    assert_eq!(get_last_page(&html), Err(CrawlError::PaginationParseError));
}

#[test]
fn pagination_without_a_list_is_an_error() {
    let html = "<div><span>3</span></div>".to_string();
    assert_eq!(get_last_page(&html), Err(CrawlError::PaginationParseError));
}

#[test]
fn pagination_reads_only_the_first_list() {
    let html = "<ul><li>4</li></ul><ul><li>9</li></ul>".to_string();
    assert_eq!(get_last_page(&html), Ok(4));
}

#[test]
fn pagination_ignores_labels_that_do_not_fit() {
    let html = "<ul><li>65535</li><li>65536</li><li>+12</li><li>-3</li><li> 8 </li></ul>"
        .to_string();
    assert_eq!(get_last_page(&html), Ok(65535));
}

#[test]
fn last_page_of_plain_elements() {
    let elements = vec![
        element(&[], "<li>3</li><li>10</li>"),
        element(&[], "3"),
        element(&["active"], "10"),
        element(&[], "Next"),
    ];
    assert_eq!(last_page_of(&elements), Ok(10));
    assert_eq!(last_page_of(&Vec::new()), Err(CrawlError::PaginationParseError));
}

#[test]
fn table_gives_marked_names_in_document_order() {
    let html = "<table><tbody>\
                <tr><td><a class=\"exp-domain-link\" href=\"/a\">foo.com</a></td><td>12</td></tr>\
                <tr><td><a class=\"other\">skip.me</a></td></tr>\
                <tr><td><a class=\"x EXP-Domain-Link\">bar.net</a></td><td><b>1</b></td></tr>\
                <tr><td><span class=\"exp-domain-link\">baz.org</span></td></tr>\
                </tbody></table>"
        .to_string();
    let mut results = vec!["earlier.org".to_string()];
    assert_eq!(get_records(&html, &mut results), Ok(()));
    assert_eq!(results, vec!["earlier.org", "foo.com", "bar.net", "baz.org"]);
}

#[test]
fn table_without_marked_elements_gives_nothing() {
    let html = "<table><tr><td>nothing</td></tr></table>".to_string();
    let mut results: Vec<String> = Vec::new();
    assert_eq!(get_records(&html, &mut results), Ok(()));
    assert!(results.is_empty());
}

#[test]
fn markup_without_a_table_leaves_the_results() {
    let html = "<div class=\"exp-domain-link\">foo.com</div>".to_string();
    let mut results = vec!["kept.com".to_string()];
    assert_eq!(get_records(&html, &mut results), Err(CrawlError::ElementNotFoundError));
    assert_eq!(results, vec!["kept.com"]);
}

#[test]
fn records_of_plain_elements() {
    let elements = vec![
        element(&["exp-domain-link"], "a.com"),
        element(&["exp-domain-links"], "no.com"),
        element(&["row", "Exp-Domain-LINK"], "b.net"),
        element(&[], "c.org"),
    ];
    assert_eq!(records_of(&elements), vec!["a.com", "b.net"]);
}
