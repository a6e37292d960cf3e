//! One crawl of a listing site as a state machine.
//!
//! The machine never touches a browser. It names the next thing to do as
//! an [`Action`]; whoever drives the browser performs it and reports what
//! happened as an [`Event`]. The steps run strictly one after another, and
//! every way out of a running session passes through [`Action::Close`].

use crate::error::CrawlError;
use crate::markup::{
    get_last_page, get_records, last_page_in, marked_texts, marker_class, selected_descendants,
};
use crate::text::{same_text, texts};
use vstd::prelude::*;
use vstd::string::*;

verus! {

/// Wait after the entry page has been requested, in milliseconds.
pub const NAVIGATE_SETTLE_MILLIS: u64 = 5000;

/// Wait after the listing filters have been set, in milliseconds.
pub const FILTER_SETTLE_MILLIS: u64 = 2000;

/// Wait after the page size has been chosen, in milliseconds.
pub const PAGE_SIZE_SETTLE_MILLIS: u64 = 5000;

/// Wait after the table has been turned to its next page, in milliseconds.
pub const TURN_SETTLE_MILLIS: u64 = 100;

/// The sites that can be crawled.
#[derive(Clone, Copy, Debug, PartialEq, Eq, Structural)]
pub enum CrawlTarget {
    ExpiredDomainsDotCom,
    Cloudflare,
}

/// How the browser session of a crawl is set up.
#[derive(Clone, Copy, Debug, PartialEq, Eq, Structural)]
pub struct SessionSetup {
    pub headless: bool,
    pub no_sandbox: bool,
    pub disable_dev_shm_usage: bool,
    pub application_cache: bool,
    pub width: u32,
    pub height: u32,
    pub maximize: bool,
}

/// The session of every crawl: headless, without sandbox, shared memory
/// and application cache, in a large maximized window.
pub fn session_setup() -> (setup: SessionSetup)
    ensures
        setup == (SessionSetup {
            headless: true,
            no_sandbox: true,
            disable_dev_shm_usage: true,
            application_cache: false,
            width: 1920,
            height: 1200,
            maximize: true,
        }),
{
    SessionSetup {
        headless: true,
        no_sandbox: true,
        disable_dev_shm_usage: true,
        application_cache: false,
        width: 1920,
        height: 1200,
        maximize: true,
    }
}

/// What a crawl has to know of its site.
#[derive(Clone, Debug)]
pub struct Site {
    /// Identifiers of the filter controls, in the order in which they are
    /// clicked.
    pub ids: Vec<String>,
    /// The entry page.
    pub url: String,
    /// The title that the listing must show.
    pub title: String,
    /// Identifier of the element that shows the title.
    pub title_id: String,
    /// Identifier of the control that sets the number of rows per page.
    pub page_size_id: String,
    /// The number of rows per page to choose.
    pub page_size: String,
    /// Identifier of the pagination control.
    pub pagination_id: String,
    /// Identifier of the element around the results table.
    pub table_id: String,
    /// Identifier of the element around the link to the next page.
    pub next_id: String,
}

/// The filter controls of the expired-domains listing: open the tile of
/// dropped domains with a page rank, show available domains only, and
/// include the three approved top-level domains.
pub open spec fn expired_domains_filters() -> Seq<Seq<char>> {
    seq![
        "exp-collapse-link-TILE_NS11"@,
        "facet_0-0"@,
        "facet_2-0"@,
        "facet_2-1"@,
        "facet_2-2"@,
    ]
}

impl Site {
    /// Whether this is the description of the expired-domains listing.
    pub open spec fn is_expired_domains(&self) -> bool {
        &&& texts(self.ids@) == expired_domains_filters()
        &&& self.url@ == "https://www.expired-domains.co/domains-available-by-range/last-31-days/"@
        &&& self.title@ == "Dropped Domains (PageRank > 0)"@
        &&& self.title_id@ == "exp-title-text-TILE_NS11"@
        &&& self.page_size_id@ == "tileTableTILE_NS11_length"@
        &&& self.page_size@ == "100"@
        &&& self.pagination_id@ == "tileTableTILE_NS11_paginate"@
        &&& self.table_id@ == "tileTableTILE_NS11_wrapper"@
        &&& self.next_id@ == "tileTableTILE_NS11_next"@
    }

    /// The description of a crawl target. Only the expired-domains listing
    /// has one.
    pub fn of(target: CrawlTarget) -> (r: Result<Site, CrawlError>)
        ensures
            match r {
                Ok(site) => target == CrawlTarget::ExpiredDomainsDotCom
                    && site.is_expired_domains(),
                Err(e) => target == CrawlTarget::Cloudflare && e
                    == CrawlError::UnsupportedTargetError,
            },
    {
        match target {
            CrawlTarget::ExpiredDomainsDotCom => {
                let mut ids: Vec<String> = Vec::new();
                ids.push(String::from_str("exp-collapse-link-TILE_NS11"));
                ids.push(String::from_str("facet_0-0"));
                ids.push(String::from_str("facet_2-0"));
                ids.push(String::from_str("facet_2-1"));
                ids.push(String::from_str("facet_2-2"));
                assert(texts(ids@) =~= expired_domains_filters());
                Ok(
                    Site {
                        ids,
                        url: String::from_str(
                            "https://www.expired-domains.co/domains-available-by-range/last-31-days/",
                        ),
                        title: String::from_str("Dropped Domains (PageRank > 0)"),
                        title_id: String::from_str("exp-title-text-TILE_NS11"),
                        page_size_id: String::from_str("tileTableTILE_NS11_length"),
                        page_size: String::from_str("100"),
                        pagination_id: String::from_str("tileTableTILE_NS11_paginate"),
                        table_id: String::from_str("tileTableTILE_NS11_wrapper"),
                        next_id: String::from_str("tileTableTILE_NS11_next"),
                    },
                )
            },
            CrawlTarget::Cloudflare => Err(CrawlError::UnsupportedTargetError),
        }
    }
}

/// What the driver of the browser is asked to do next.
#[derive(Clone, Copy, Debug, PartialEq, Eq, Structural)]
pub enum Action {
    /// Open a session as `session_setup` describes it.
    OpenSession,
    /// Load the site's entry page.
    Navigate,
    /// Wait for the page to render.
    Settle { millis: u64 },
    /// Click the filter control at this position of the site's `ids`.
    ClickFilter { index: usize },
    /// Choose the site's page size in its page-size control.
    SelectPageSize,
    /// Report the inner markup of the pagination control.
    ReadPagination,
    /// Report the text of the title element.
    ReadTitle,
    /// Report the outer markup of the table inside the table element.
    ReadTable,
    /// Click the link inside the next-page element.
    NextPage,
    /// Close the session.
    Close,
    /// Nothing is left to do: the outcome can be taken.
    Finish,
}

/// How an action failed.
#[derive(Clone, Copy, Debug, PartialEq, Eq, Structural)]
pub enum Failure {
    /// The element that the action needs is not on the page.
    NoSuchElement,
    /// Any other failure of the browser or of the connection to it.
    Other,
}

/// What became of the last action.
#[derive(Clone, Debug)]
pub enum Event {
    /// It was performed and reports nothing.
    Done,
    /// It was performed and reports this text.
    Text(String),
    /// It failed.
    Failed(Failure),
}

/// An event as plain values.
pub enum EventModel {
    Done,
    Text(Seq<char>),
    Failed(Failure),
}

impl View for Event {
    type V = EventModel;

    open spec fn view(&self) -> EventModel {
        match *self {
            Event::Done => EventModel::Done,
            Event::Text(text) => EventModel::Text(text@),
            Event::Failed(failure) => EventModel::Failed(failure),
        }
    }
}

/// Where a crawl stands: the action whose outcome it awaits.
#[derive(Clone, Copy, Debug, PartialEq, Eq, Structural)]
pub enum Phase {
    Opening,
    Navigating,
    NavigateSettling,
    Configuring { index: usize },
    FiltersSettling,
    SelectingPageSize,
    PageSizeSettling,
    ReadingPagination,
    ReadingTitle,
    ReadingTable { page: u16 },
    Turning { page: u16 },
    TurnSettling { page: u16 },
    Closing,
    Done,
}

/// A crawl in progress.
#[derive(Clone, Debug)]
pub struct Crawl {
    /// The site that is crawled.
    pub site: Site,
    /// The action that is under way.
    pub phase: Phase,
    /// Index of the last page of the table, once it has been read.
    pub last_page: u16,
    /// The domain names found so far, in the order of the pages.
    pub results: Vec<String>,
    /// Why the crawl is being given up, if it is.
    pub failure: Option<CrawlError>,
}

/// A crawl as plain values.
pub struct CrawlModel {
    /// Number of filter controls of the site.
    pub filters: nat,
    /// The title that the listing must show.
    pub title: Seq<char>,
    pub phase: Phase,
    pub last_page: u16,
    pub results: Seq<Seq<char>>,
    pub failure: Option<CrawlError>,
}

impl View for Crawl {
    type V = CrawlModel;

    open spec fn view(&self) -> CrawlModel {
        CrawlModel {
            filters: self.site.ids@.len(),
            title: self.site.title@,
            phase: self.phase,
            last_page: self.last_page,
            results: texts(self.results@),
            failure: self.failure,
        }
    }
}

/// Whether a browser session is open and has not been asked to close.
pub open spec fn driving(phase: Phase) -> bool {
    !(phase is Opening || phase is Closing || phase is Done)
}

/// The error that a failed action ends the crawl with.
pub open spec fn error_of(failure: Failure) -> CrawlError {
    match failure {
        Failure::NoSuchElement => CrawlError::ElementNotFoundError,
        Failure::Other => CrawlError::SessionError,
    }
}

/// The crawl moves on to `phase` and asks for `action`.
pub open spec fn advance(c: CrawlModel, phase: Phase, action: Action) -> (CrawlModel, Action) {
    (CrawlModel { phase, ..c }, action)
}

/// The crawl is given up with `error`: the session is closed first.
pub open spec fn abort(c: CrawlModel, error: CrawlError) -> (CrawlModel, Action) {
    (CrawlModel { phase: Phase::Closing, failure: Some(error), ..c }, Action::Close)
}

/// The step of a crawl with an open session whose last action was
/// performed and reported nothing. An action that had to report a text and
/// did not ends the crawl.
pub open spec fn after_done(c: CrawlModel) -> (CrawlModel, Action) {
    match c.phase {
        Phase::Navigating => advance(
            c,
            Phase::NavigateSettling,
            Action::Settle { millis: NAVIGATE_SETTLE_MILLIS },
        ),
        Phase::NavigateSettling => if c.filters > 0 {
            advance(c, Phase::Configuring { index: 0 }, Action::ClickFilter { index: 0 })
        } else {
            advance(c, Phase::FiltersSettling, Action::Settle { millis: FILTER_SETTLE_MILLIS })
        },
        Phase::Configuring { index } => if index + 1 < c.filters {
            advance(
                c,
                Phase::Configuring { index: (index + 1) as usize },
                Action::ClickFilter { index: (index + 1) as usize },
            )
        } else {
            advance(c, Phase::FiltersSettling, Action::Settle { millis: FILTER_SETTLE_MILLIS })
        },
        Phase::FiltersSettling => advance(c, Phase::SelectingPageSize, Action::SelectPageSize),
        Phase::SelectingPageSize => advance(
            c,
            Phase::PageSizeSettling,
            Action::Settle { millis: PAGE_SIZE_SETTLE_MILLIS },
        ),
        Phase::PageSizeSettling => advance(c, Phase::ReadingPagination, Action::ReadPagination),
        Phase::Turning { page } => advance(
            c,
            Phase::TurnSettling { page },
            Action::Settle { millis: TURN_SETTLE_MILLIS },
        ),
        Phase::TurnSettling { page } => if page < c.last_page {
            advance(c, Phase::ReadingTable { page: (page + 1) as u16 }, Action::ReadTable)
        } else {
            advance(c, Phase::Closing, Action::Close)
        },
        _ => abort(c, CrawlError::SessionError),
    }
}

/// The step of a crawl with an open session whose last action reported
/// `text`: the page count is read from the pagination control, the title
/// is held against the expected one, the names of a table are added to the
/// results. Where no text was asked for, the text is ignored.
pub open spec fn after_text(c: CrawlModel, text: Seq<char>) -> (CrawlModel, Action) {
    match c.phase {
        Phase::ReadingPagination => match last_page_in(selected_descendants(text, "ul"@)) {
            Some(page) => (
                CrawlModel { phase: Phase::ReadingTitle, last_page: page, ..c },
                Action::ReadTitle,
            ),
            None => abort(c, CrawlError::PaginationParseError),
        },
        Phase::ReadingTitle => if text == c.title {
            advance(c, Phase::ReadingTable { page: 0 }, Action::ReadTable)
        } else {
            abort(c, CrawlError::UnexpectedPageStateError)
        },
        Phase::ReadingTable { page } => match selected_descendants(text, "table"@) {
            Some(elements) => (
                CrawlModel {
                    phase: Phase::Turning { page },
                    results: c.results + marked_texts(elements, marker_class()),
                    ..c
                },
                Action::NextPage,
            ),
            None => abort(c, CrawlError::ElementNotFoundError),
        },
        _ => after_done(c),
    }
}

/// The crawl after `event`, and the action that it asks for next.
///
/// Before the session is open a failure ends the crawl with
/// `SessionError`. With an open session every failure asks for the session
/// to be closed and keeps the error. Once the session has been asked to
/// close, the next event ends the crawl; a failure to close is a
/// `SessionError` unless an earlier error is kept. A crawl that is done
/// stays as it is.
pub open spec fn next(c: CrawlModel, event: EventModel) -> (CrawlModel, Action) {
    match c.phase {
        Phase::Done => (c, Action::Finish),
        Phase::Closing => match event {
            EventModel::Failed(_) => (
                CrawlModel {
                    phase: Phase::Done,
                    failure: Some(
                        match c.failure {
                            Some(error) => error,
                            None => CrawlError::SessionError,
                        },
                    ),
                    ..c
                },
                Action::Finish,
            ),
            _ => advance(c, Phase::Done, Action::Finish),
        },
        Phase::Opening => match event {
            EventModel::Failed(_) => (
                CrawlModel { phase: Phase::Done, failure: Some(CrawlError::SessionError), ..c },
                Action::Finish,
            ),
            _ => advance(c, Phase::Navigating, Action::Navigate),
        },
        _ => match event {
            EventModel::Failed(failure) => abort(c, error_of(failure)),
            EventModel::Done => after_done(c),
            EventModel::Text(text) => after_text(c, text),
        },
    }
}

/// What a crawl in state `c` has to hand out: nothing before it is done,
/// then the error that ended it or the names it found.
pub open spec fn outcome_of(c: CrawlModel) -> Option<Result<Seq<Seq<char>>, CrawlError>> {
    if c.phase is Done {
        match c.failure {
            Some(error) => Some(Err(error)),
            None => Some(Ok(c.results)),
        }
    } else {
        None
    }
}

/// The outcome of a crawl as plain values.
pub open spec fn outcome_model(outcome: Option<Result<Vec<String>, CrawlError>>) -> Option<
    Result<Seq<Seq<char>>, CrawlError>,
> {
    match outcome {
        Some(Ok(names)) => Some(Ok(texts(names@))),
        Some(Err(error)) => Some(Err(error)),
        None => None,
    }
}

/// The crawl after a run of events, and the actions that it asked for on
/// the way, oldest first.
pub open spec fn run(c: CrawlModel, events: Seq<EventModel>) -> (CrawlModel, Seq<Action>)
    decreases events.len(),
{
    if events.len() == 0 {
        (c, Seq::empty())
    } else {
        let (before, actions) = run(c, events.drop_last());
        let (after, action) = next(before, events.last());
        (after, actions.push(action))
    }
}

/// A title other than the expected one ends the crawl with
/// `UnexpectedPageStateError`: the step that reads it asks for the session
/// to be closed, and whatever becomes of that, the crawl is then done and
/// hands out this error.
pub proof fn law_title_mismatch_closes_session(
    c: CrawlModel,
    title: Seq<char>,
    closed: EventModel,
)
    requires
        c.phase == Phase::ReadingTitle,
        title != c.title,
    ensures
        next(c, EventModel::Text(title)).1 == Action::Close,
        next(c, EventModel::Text(title)).0.phase == Phase::Closing,
        next(next(c, EventModel::Text(title)).0, closed).1 == Action::Finish,
        outcome_of(next(next(c, EventModel::Text(title)).0, closed).0) == Some(
            Err::<Seq<Seq<char>>, CrawlError>(CrawlError::UnexpectedPageStateError),
        ),
{
}

/// One step of a crawl with an open session either goes on driving the
/// browser or asks for the session to be closed; a failed action always
/// does the latter. `Action::Close` is asked for at no other time, and a
/// crawl is never done straight out of an open session.
pub proof fn law_step_releases_session(c: CrawlModel, event: EventModel)
    ensures
        driving(c.phase) ==> driving(next(c, event).0.phase) || next(c, event).0.phase
            == Phase::Closing,
        next(c, event).1 == Action::Close <==> driving(c.phase) && next(c, event).0.phase
            == Phase::Closing,
        driving(c.phase) && event is Failed ==> next(c, event).1 == Action::Close,
        next(c, event).0.phase == Phase::Done ==> !driving(c.phase),
{
}

/// A crawl that had an open session and is done has asked for the session
/// to be closed, whatever happened in between.
pub proof fn law_finished_crawl_closed_session(c: CrawlModel, events: Seq<EventModel>)
    requires
        driving(c.phase),
    ensures
        driving(run(c, events).0.phase) || run(c, events).1.contains(Action::Close),
        run(c, events).0.phase == Phase::Done ==> run(c, events).1.contains(Action::Close),
    decreases events.len(),
{
    if events.len() > 0 {
        law_finished_crawl_closed_session(c, events.drop_last());
        let (before, actions) = run(c, events.drop_last());
        let (after, action) = next(before, events.last());
        law_step_releases_session(before, events.last());
        let all = actions.push(action);
        if actions.contains(Action::Close) {
            let i = choose|i: int| 0 <= i < actions.len() && actions[i] == Action::Close;
            assert(all[i] == Action::Close);
        } else if !driving(after.phase) {
            assert(all[actions.len() as int] == Action::Close);
        }
    }
}

/// From its start to its end a crawl releases what it took: a crawl that
/// is done has asked for the session to be closed, unless the session
/// never opened.
pub proof fn law_started_crawl_closed_session(c: CrawlModel, events: Seq<EventModel>)
    requires
        c.phase == Phase::Opening,
    ensures
        events.len() == 0 || driving(run(c, events).0.phase) || run(c, events).1.contains(
            Action::Close,
        ) || events[0] is Failed,
        run(c, events).0.phase == Phase::Done ==> run(c, events).1.contains(Action::Close) || (
        events.len() > 0 && events[0] is Failed),
    decreases events.len(),
{
    if events.len() > 0 {
        let earlier = events.drop_last();
        law_started_crawl_closed_session(c, earlier);
        let (before, actions) = run(c, earlier);
        let (after, action) = next(before, events.last());
        law_step_releases_session(before, events.last());
        let all = actions.push(action);
        if earlier.len() > 0 {
            assert(earlier[0] == events[0]);
            if actions.contains(Action::Close) {
                let i = choose|i: int| 0 <= i < actions.len() && actions[i] == Action::Close;
                assert(all[i] == Action::Close);
            } else if driving(before.phase) && !driving(after.phase) {
                assert(all[actions.len() as int] == Action::Close);
            }
        }
    }
}

/// The pages after `page`, up to the last one.
pub open spec fn pages_after(c: CrawlModel, page: u16) -> nat {
    if page < c.last_page {
        (c.last_page - page) as nat
    } else {
        0
    }
}

/// A bound on the events that a crawl can still take in before it is
/// done.
pub open spec fn steps_left(c: CrawlModel) -> nat {
    let reading: nat = 3 * 65535 + 6;
    match c.phase {
        Phase::Done => 0,
        Phase::Closing => 1,
        Phase::TurnSettling { page } => 2 + 3 * pages_after(c, page),
        Phase::Turning { page } => 3 + 3 * pages_after(c, page),
        Phase::ReadingTable { page } => 4 + 3 * pages_after(c, page),
        Phase::ReadingTitle => 5 + 3 * (c.last_page as nat),
        Phase::ReadingPagination => reading,
        Phase::PageSizeSettling => reading + 1,
        Phase::SelectingPageSize => reading + 2,
        Phase::FiltersSettling => reading + 3,
        Phase::Configuring { index } => reading + 4 + if index < c.filters {
            (c.filters - index) as nat
        } else {
            0
        },
        Phase::NavigateSettling => reading + 5 + c.filters,
        Phase::Navigating => reading + 6 + c.filters,
        Phase::Opening => reading + 7 + c.filters,
    }
}

/// Every crawl comes to an end: each event brings a crawl that is not
/// done closer to being done, whatever the event is. The number of filter
/// controls is that of a vector, as it is in the view of every `Crawl`.
pub proof fn law_crawl_terminates(c: CrawlModel, event: EventModel)
    requires
        c.phase != Phase::Done,
        c.filters <= usize::MAX,
    ensures
        steps_left(next(c, event).0) < steps_left(c),
        next(c, event).0.filters == c.filters,
        next(c, event).0.title == c.title,
{
}

/// The crawl after one page has been read and turned: the table's markup
/// is taken in, the next page is asked for and given time to render.
pub open spec fn after_page(c: CrawlModel, table: Seq<char>) -> CrawlModel {
    next(next(next(c, EventModel::Text(table)).0, EventModel::Done).0, EventModel::Done).0
}

/// The crawl after a run of pages.
pub open spec fn after_pages(c: CrawlModel, tables: Seq<Seq<char>>) -> CrawlModel
    decreases tables.len(),
{
    if tables.len() == 0 {
        c
    } else {
        after_page(after_pages(c, tables.drop_last()), tables.last())
    }
}

/// The names in the tables of a run of pages, in the order of the pages.
/// Markup without a table holds no name.
pub open spec fn names_of_pages(tables: Seq<Seq<char>>) -> Seq<Seq<char>>
    decreases tables.len(),
{
    if tables.len() == 0 {
        Seq::empty()
    } else {
        names_of_pages(tables.drop_last()) + match selected_descendants(tables.last(), "table"@) {
            Some(elements) => marked_texts(elements, marker_class()),
            None => Seq::empty(),
        }
    }
}

/// Where a crawl stands after the first `count` pages of a run in which
/// every page shows a table.
proof fn lemma_pages_read(c: CrawlModel, tables: Seq<Seq<char>>, count: int)
    requires
        c.phase == (Phase::ReadingTable { page: 0 }),
        0 <= count <= tables.len(),
        tables.len() == c.last_page + 1,
        forall|i: int|
            0 <= i < tables.len() ==> selected_descendants(#[trigger] tables[i], "table"@).is_some(),
    ensures
        ({
            let now = after_pages(c, tables.subrange(0, count));
            &&& now.phase == if count <= c.last_page {
                Phase::ReadingTable { page: count as u16 }
            } else {
                Phase::Closing
            }
            &&& now.results == c.results + names_of_pages(tables.subrange(0, count))
            &&& now.last_page == c.last_page
            &&& now.failure == c.failure
        }),
    decreases count,
{
    let read = tables.subrange(0, count);
    if count == 0 {
        assert(c.results + names_of_pages(read) =~= c.results);
    } else {
        lemma_pages_read(c, tables, count - 1);
        assert(read.drop_last() =~= tables.subrange(0, count - 1));
        assert(read.last() == tables[count - 1]);
        let before = after_pages(c, tables.subrange(0, count - 1));
        let found = marked_texts(
            selected_descendants(tables[count - 1], "table"@).unwrap(),
            marker_class(),
        );
        assert(before.results + found =~= c.results + names_of_pages(read));
    }
}

/// A crawl that finds a table on every page collects the names of all
/// pages, from the first to the last, in their order: after the last page
/// it asks for the session to be closed, and once that is done it hands
/// out every name.
pub proof fn law_crawl_collects_every_page(c: CrawlModel, tables: Seq<Seq<char>>)
    requires
        c.phase == (Phase::ReadingTable { page: 0 }),
        c.failure.is_none(),
        tables.len() == c.last_page + 1,
        forall|i: int|
            0 <= i < tables.len() ==> selected_descendants(#[trigger] tables[i], "table"@).is_some(),
    ensures
        after_pages(c, tables).phase == Phase::Closing,
        after_pages(c, tables).results == c.results + names_of_pages(tables),
        outcome_of(next(after_pages(c, tables), EventModel::Done).0) == Some(
            Ok::<Seq<Seq<char>>, CrawlError>(c.results + names_of_pages(tables)),
        ),
{
    lemma_pages_read(c, tables, tables.len() as int);
    assert(tables.subrange(0, tables.len() as int) =~= tables);
}

/// A crawl hands out names only if nothing failed: an error that a step
/// has kept is the outcome of the finished crawl.
pub proof fn law_no_partial_results(c: CrawlModel, event: EventModel)
    requires
        c.failure.is_some(),
    ensures
        next(c, event).0.failure.is_some(),
        c.phase == Phase::Closing ==> outcome_of(next(c, event).0) == Some(
            Err::<Seq<Seq<char>>, CrawlError>(c.failure.unwrap()),
        ),
{
}

impl Crawl {
    /// Starts a crawl of `target`. The crawl awaits the outcome of the
    /// action that is returned with it, `Action::OpenSession`.
    pub fn begin(target: CrawlTarget) -> (r: Result<(Crawl, Action), CrawlError>)
        ensures
            match r {
                Ok((crawl, action)) => {
                    &&& target == CrawlTarget::ExpiredDomainsDotCom
                    &&& crawl.site.is_expired_domains()
                    &&& crawl.phase == Phase::Opening
                    &&& crawl.last_page == 0
                    &&& crawl.results@.len() == 0
                    &&& crawl.failure.is_none()
                    &&& action == Action::OpenSession
                },
                Err(e) => target == CrawlTarget::Cloudflare && e
                    == CrawlError::UnsupportedTargetError,
            },
    {
        match Site::of(target) {
            Ok(site) => Ok(
                (
                    Crawl {
                        site,
                        phase: Phase::Opening,
                        last_page: 0,
                        results: Vec::new(),
                        failure: None,
                    },
                    Action::OpenSession,
                ),
            ),
            Err(e) => Err(e),
        }
    }

    /// Gives the crawl up with `error` and asks for the session to be closed.
    fn abort(&mut self, error: CrawlError) -> (action: Action)
        ensures
            (final(self)@, action) == abort(old(self)@, error),
            final(self).site == old(self).site,
    {
        self.phase = Phase::Closing;
        self.failure = Some(error);
        Action::Close
    }

    /// Moves on after an action that reported nothing.
    fn step_done(&mut self) -> (action: Action)
        ensures
            (final(self)@, action) == after_done(old(self)@),
            final(self).site == old(self).site,
    {
        match self.phase {
            Phase::Navigating => {
                self.phase = Phase::NavigateSettling;
                Action::Settle { millis: NAVIGATE_SETTLE_MILLIS }
            },
            Phase::NavigateSettling => {
                if self.site.ids.len() > 0 {
                    self.phase = Phase::Configuring { index: 0 };
                    Action::ClickFilter { index: 0 }
                } else {
                    self.phase = Phase::FiltersSettling;
                    Action::Settle { millis: FILTER_SETTLE_MILLIS }
                }
            },
            Phase::Configuring { index } => {
                let count: usize = self.site.ids.len();
                if index < count && index + 1 < count {
                    self.phase = Phase::Configuring { index: index + 1 };
                    Action::ClickFilter { index: index + 1 }
                } else {
                    self.phase = Phase::FiltersSettling;
                    Action::Settle { millis: FILTER_SETTLE_MILLIS }
                }
            },
            Phase::FiltersSettling => {
                self.phase = Phase::SelectingPageSize;
                Action::SelectPageSize
            },
            Phase::SelectingPageSize => {
                self.phase = Phase::PageSizeSettling;
                Action::Settle { millis: PAGE_SIZE_SETTLE_MILLIS }
            },
            Phase::PageSizeSettling => {
                self.phase = Phase::ReadingPagination;
                Action::ReadPagination
            },
            Phase::Turning { page } => {
                self.phase = Phase::TurnSettling { page };
                Action::Settle { millis: TURN_SETTLE_MILLIS }
            },
            Phase::TurnSettling { page } => {
                if page < self.last_page {
                    self.phase = Phase::ReadingTable { page: page + 1 };
                    Action::ReadTable
                } else {
                    self.phase = Phase::Closing;
                    Action::Close
                }
            },
            _ => self.abort(CrawlError::SessionError),
        }
    }

    /// Moves on after an action that reported `text`.
    fn step_text(&mut self, text: String) -> (action: Action)
        ensures
            (final(self)@, action) == after_text(old(self)@, text@),
            final(self).site == old(self).site,
    {
        match self.phase {
            Phase::ReadingPagination => match get_last_page(&text) {
                Ok(page) => {
                    self.phase = Phase::ReadingTitle;
                    self.last_page = page;
                    Action::ReadTitle
                },
                Err(_) => self.abort(CrawlError::PaginationParseError),
            },
            Phase::ReadingTitle => {
                if same_text(text.as_str(), self.site.title.as_str()) {
                    self.phase = Phase::ReadingTable { page: 0 };
                    Action::ReadTable
                } else {
                    self.abort(CrawlError::UnexpectedPageStateError)
                }
            },
            Phase::ReadingTable { page } => match get_records(&text, &mut self.results) {
                Ok(()) => {
                    self.phase = Phase::Turning { page };
                    Action::NextPage
                },
                Err(_) => self.abort(CrawlError::ElementNotFoundError),
            },
            _ => self.step_done(),
        }
    }

    /// Takes in what became of the last action and says what to do next.
    pub fn step(&mut self, event: Event) -> (action: Action)
        ensures
            (final(self)@, action) == next(old(self)@, event@),
            final(self).site == old(self).site,
    {
        match self.phase {
            Phase::Done => Action::Finish,
            Phase::Closing => {
                match event {
                    Event::Failed(_) => {
                        self.failure = Some(
                            match self.failure {
                                Some(error) => error,
                                None => CrawlError::SessionError,
                            },
                        );
                    },
                    _ => {},
                }
                self.phase = Phase::Done;
                Action::Finish
            },
            Phase::Opening => match event {
                Event::Failed(_) => {
                    self.phase = Phase::Done;
                    self.failure = Some(CrawlError::SessionError);
                    Action::Finish
                },
                _ => {
                    self.phase = Phase::Navigating;
                    Action::Navigate
                },
            },
            _ => match event {
                Event::Failed(failure) => {
                    let error = match failure {
                        Failure::NoSuchElement => CrawlError::ElementNotFoundError,
                        Failure::Other => CrawlError::SessionError,
                    };
                    self.abort(error)
                },
                Event::Done => self.step_done(),
                Event::Text(text) => self.step_text(text),
            },
        }
    }

    /// Hands out what the crawl came to: nothing while it is under way,
    /// then the error that ended it or every name it found.
    pub fn outcome(self) -> (r: Option<Result<Vec<String>, CrawlError>>)
        ensures
            outcome_model(r) == outcome_of(self@),
    {
        match self.phase {
            Phase::Done => match self.failure {
                Some(error) => Some(Err(error)),
                None => Some(Ok(self.results)),
            },
            _ => None,
        }
    }
}

} // verus!
