use domain_hunter::crawl::{
    session_setup, Action, Crawl, CrawlTarget, Event, Failure, Phase, Site,
    FILTER_SETTLE_MILLIS, NAVIGATE_SETTLE_MILLIS, PAGE_SIZE_SETTLE_MILLIS, TURN_SETTLE_MILLIS,
};
use domain_hunter::error::CrawlError;

const TITLE: &str = "Dropped Domains (PageRank > 0)";

fn pagination(last: u16) -> Event {
    Event::Text(format!(
        "<ul><li><a>Previous</a></li><li><a>0</a></li><li><a>\u{2026}</a></li>\
         <li><a>{}</a></li><li><a>Next</a></li></ul>",
        last
    ))
}

fn table(names: &[&str]) -> Event {
    let mut html = String::from("<table><tbody>");
    for name in names {
        html.push_str(&format!(
            "<tr><td><a class=\"exp-domain-link\">{}</a></td><td>1</td></tr>",
            name
        ));
    }
    html.push_str("</tbody></table>");
    Event::Text(html)
}

/// Drives a fresh crawl up to the point where it asks for the pagination.
fn configured() -> Crawl {
    let (mut crawl, first) = Crawl::begin(CrawlTarget::ExpiredDomainsDotCom).unwrap();
    assert_eq!(first, Action::OpenSession);
    assert_eq!(crawl.step(Event::Done), Action::Navigate);
    assert_eq!(crawl.step(Event::Done), Action::Settle { millis: 5000 });
    for index in 0..5 {
        assert_eq!(crawl.step(Event::Done), Action::ClickFilter { index });
    }
    assert_eq!(crawl.step(Event::Done), Action::Settle { millis: 2000 });
    assert_eq!(crawl.step(Event::Done), Action::SelectPageSize);
    assert_eq!(crawl.step(Event::Done), Action::Settle { millis: 5000 });
    assert_eq!(crawl.step(Event::Done), Action::ReadPagination);
    crawl
}

#[test]
fn settle_intervals() {
    assert_eq!(NAVIGATE_SETTLE_MILLIS, 5000);
    assert_eq!(FILTER_SETTLE_MILLIS, 2000);
    assert_eq!(PAGE_SIZE_SETTLE_MILLIS, 5000);
    assert_eq!(TURN_SETTLE_MILLIS, 100);
}

#[test]
fn session_is_headless_and_large() {
    let s = session_setup();
    assert!(s.headless && s.no_sandbox && s.disable_dev_shm_usage && s.maximize);
    assert!(!s.application_cache);
    assert_eq!((s.width, s.height), (1920, 1200));
}

#[test]
fn site_of_the_listing() {
    let site = Site::of(CrawlTarget::ExpiredDomainsDotCom).unwrap();
    assert_eq!(
        site.ids,
        vec!["exp-collapse-link-TILE_NS11", "facet_0-0", "facet_2-0", "facet_2-1", "facet_2-2"]
    );
    assert_eq!(
        site.url,
        "https://www.expired-domains.co/domains-available-by-range/last-31-days/"
    );
    assert_eq!(site.title, TITLE);
    assert_eq!(site.title_id, "exp-title-text-TILE_NS11");
    assert_eq!(site.page_size_id, "tileTableTILE_NS11_length");
    assert_eq!(site.page_size, "100");
    assert_eq!(site.pagination_id, "tileTableTILE_NS11_paginate");
    assert_eq!(site.table_id, "tileTableTILE_NS11_wrapper");
    assert_eq!(site.next_id, "tileTableTILE_NS11_next");
}

#[test]
fn target_without_a_site_is_refused() {
    assert_eq!(Site::of(CrawlTarget::Cloudflare).err(), Some(CrawlError::UnsupportedTargetError));
    assert_eq!(
        Crawl::begin(CrawlTarget::Cloudflare).err(),
        Some(CrawlError::UnsupportedTargetError)
    );
}

#[test]
fn crawl_of_three_pages() {
    let mut crawl = configured();
    assert_eq!(crawl.step(pagination(2)), Action::ReadTitle);
    assert_eq!(crawl.last_page, 2);
    assert_eq!(crawl.step(Event::Text(TITLE.to_string())), Action::ReadTable);
    assert_eq!(crawl.phase, Phase::ReadingTable { page: 0 });
    assert_eq!(crawl.step(table(&["foo.com", "bar.net"])), Action::NextPage);
    assert_eq!(crawl.step(Event::Done), Action::Settle { millis: 100 });
    assert_eq!(crawl.step(Event::Done), Action::ReadTable);
    assert_eq!(crawl.phase, Phase::ReadingTable { page: 1 });
    assert_eq!(crawl.step(table(&[])), Action::NextPage);
    assert_eq!(crawl.step(Event::Done), Action::Settle { millis: 100 });
    assert_eq!(crawl.step(Event::Done), Action::ReadTable);
    assert_eq!(crawl.step(table(&["baz.org", "foo.com"])), Action::NextPage);
    assert_eq!(crawl.clone().outcome(), None);
    assert_eq!(crawl.step(Event::Done), Action::Settle { millis: 100 });
    assert_eq!(crawl.step(Event::Done), Action::Close);
    assert_eq!(crawl.phase, Phase::Closing);
    assert_eq!(crawl.clone().outcome(), None);
    assert_eq!(crawl.step(Event::Done), Action::Finish);
    assert_eq!(crawl.step(Event::Done), Action::Finish);
    assert_eq!(
        crawl.outcome(),
        Some(Ok(vec![
            "foo.com".to_string(),
            "bar.net".to_string(),
            "baz.org".to_string(),
            "foo.com".to_string()
        ]))
    );
}

#[test]
fn crawl_of_a_single_page() {
    let mut crawl = configured();
    assert_eq!(crawl.step(pagination(0)), Action::ReadTitle);
    assert_eq!(crawl.step(Event::Text(TITLE.to_string())), Action::ReadTable);
    assert_eq!(crawl.step(table(&["only.org"])), Action::NextPage);
    assert_eq!(crawl.step(Event::Done), Action::Settle { millis: 100 });
    assert_eq!(crawl.step(Event::Done), Action::Close);
    assert_eq!(crawl.step(Event::Done), Action::Finish);
    assert_eq!(crawl.outcome(), Some(Ok(vec!["only.org".to_string()])));
}

#[test]
fn unexpected_title_closes_the_session() {
    let mut crawl = configured();
    assert_eq!(crawl.step(pagination(3)), Action::ReadTitle);
    assert_eq!(crawl.step(Event::Text("Dropped Domains".to_string())), Action::Close);
    assert_eq!(crawl.phase, Phase::Closing);
    assert_eq!(crawl.failure, Some(CrawlError::UnexpectedPageStateError));
    assert_eq!(crawl.step(Event::Done), Action::Finish);
    assert_eq!(crawl.outcome(), Some(Err(CrawlError::UnexpectedPageStateError)));
}

#[test]
fn unexpected_title_wins_over_a_failed_close() {
    let mut crawl = configured();
    crawl.step(pagination(3));
    assert_eq!(crawl.step(Event::Text(String::new())), Action::Close);
    assert_eq!(crawl.step(Event::Failed(Failure::Other)), Action::Finish);
    assert_eq!(crawl.outcome(), Some(Err(CrawlError::UnexpectedPageStateError)));
}

#[test]
fn pagination_without_numbers_closes_the_session() {
    let mut crawl = configured();
    let html = "<ul><li>Previous</li><li>Next</li></ul>".to_string();
    assert_eq!(crawl.step(Event::Text(html)), Action::Close);
    assert_eq!(crawl.step(Event::Done), Action::Finish);
    assert_eq!(crawl.outcome(), Some(Err(CrawlError::PaginationParseError)));
}

#[test]
fn missing_filter_control_closes_the_session() {
    let (mut crawl, _) = Crawl::begin(CrawlTarget::ExpiredDomainsDotCom).unwrap();
    crawl.step(Event::Done);
    crawl.step(Event::Done);
    assert_eq!(crawl.step(Event::Done), Action::ClickFilter { index: 0 });
    assert_eq!(crawl.step(Event::Done), Action::ClickFilter { index: 1 });
    assert_eq!(crawl.step(Event::Failed(Failure::NoSuchElement)), Action::Close);
    assert_eq!(crawl.step(Event::Done), Action::Finish);
    assert_eq!(crawl.outcome(), Some(Err(CrawlError::ElementNotFoundError)));
}

#[test]
fn failure_in_the_middle_gives_no_partial_result() {
    let mut crawl = configured();
    crawl.step(pagination(5));
    crawl.step(Event::Text(TITLE.to_string()));
    assert_eq!(crawl.step(table(&["foo.com"])), Action::NextPage);
    assert_eq!(crawl.step(Event::Failed(Failure::Other)), Action::Close);
    assert_eq!(crawl.step(Event::Done), Action::Finish);
    assert_eq!(crawl.outcome(), Some(Err(CrawlError::SessionError)));
}

#[test]
fn table_markup_without_a_table_closes_the_session() {
    let mut crawl = configured();
    crawl.step(pagination(5));
    crawl.step(Event::Text(TITLE.to_string()));
    assert_eq!(crawl.step(Event::Text("<p>gone</p>".to_string())), Action::Close);
    assert_eq!(crawl.step(Event::Done), Action::Finish);
    assert_eq!(crawl.outcome(), Some(Err(CrawlError::ElementNotFoundError)));
}

#[test]
fn session_that_does_not_open_needs_no_close() {
    let (mut crawl, _) = Crawl::begin(CrawlTarget::ExpiredDomainsDotCom).unwrap();
    assert_eq!(crawl.step(Event::Failed(Failure::Other)), Action::Finish);
    assert_eq!(crawl.phase, Phase::Done);
    assert_eq!(crawl.outcome(), Some(Err(CrawlError::SessionError)));
}

#[test]
fn failed_close_after_a_good_crawl_is_a_session_error() {
    let mut crawl = configured();
    crawl.step(pagination(0));
    crawl.step(Event::Text(TITLE.to_string()));
    crawl.step(table(&["foo.com"]));
    crawl.step(Event::Done);
    assert_eq!(crawl.step(Event::Done), Action::Close);
    assert_eq!(crawl.step(Event::Failed(Failure::Other)), Action::Finish);
    assert_eq!(crawl.outcome(), Some(Err(CrawlError::SessionError)));
}

#[test]
fn missing_text_where_one_is_due_closes_the_session() {
    let mut crawl = configured();
    assert_eq!(crawl.step(Event::Done), Action::Close);
    assert_eq!(crawl.failure, Some(CrawlError::SessionError));
}

#[test]
fn text_where_none_is_due_is_ignored() {
    let (mut crawl, _) = Crawl::begin(CrawlTarget::ExpiredDomainsDotCom).unwrap();
    assert_eq!(crawl.step(Event::Text("ready".to_string())), Action::Navigate);
    assert_eq!(
        crawl.step(Event::Text("loaded".to_string())),
        Action::Settle { millis: 5000 }
    );
}

#[test]
fn site_without_filters_goes_on_to_settle() {
    let (mut crawl, _) = Crawl::begin(CrawlTarget::ExpiredDomainsDotCom).unwrap();
    crawl.site.ids.clear();
    crawl.step(Event::Done);
    crawl.step(Event::Done);
    assert_eq!(crawl.step(Event::Done), Action::Settle { millis: 2000 });
    assert_eq!(crawl.step(Event::Done), Action::SelectPageSize);
}
