//! Reading rendered markup: the page count of a pagination control and the
//! domain names of a results table.

use crate::error::CrawlError;
use crate::text::{
    eq_ignore_ascii_case, equals_ignoring_ascii_case, parse_u16, parse_unsigned, texts,
};
use vstd::prelude::*;

verus! {

/// What the extraction reads of one element of a parsed fragment.
#[derive(Clone, Debug)]
pub struct Element {
    /// The element's classes.
    pub classes: Vec<String>,
    /// The markup between the element's tags.
    pub inner_html: String,
}

/// An element as plain values: its classes and its inner markup.
pub type ElementModel = (Seq<Seq<char>>, Seq<char>);

impl Element {
    /// The element as plain values.
    pub open spec fn model(&self) -> ElementModel {
        (texts(self.classes@), self.inner_html@)
    }
}

/// A vector of elements as plain values.
pub open spec fn models(elements: Seq<Element>) -> Seq<ElementModel> {
    elements.map_values(|e: Element| e.model())
}

/// An optional vector of elements as plain values.
pub open spec fn selection_model(selection: Option<Vec<Element>>) -> Option<Seq<ElementModel>> {
    match selection {
        Some(elements) => Some(models(elements@)),
        None => None,
    }
}

/// The HTML parser's reading of `markup` as a fragment: the first element
/// that its selection yields for the CSS selector `selector`, followed by
/// the elements below it in document order, each with its classes and its
/// inner markup. `None` where no element matches or `selector` is no
/// selector.
pub uninterp spec fn selected_descendants(markup: Seq<char>, selector: Seq<char>) -> Option<
    Seq<(Seq<Seq<char>>, Seq<char>)>,
>;

/// Parses `markup` with `scraper::Html::parse_fragment`, takes the first
/// element that `Html::select` yields for `scraper::Selector::parse(selector)`
/// and walks it with `ElementRef::descendent_elements`, which starts at that
/// element itself. Each element is handed out with its `classes()` and its
/// `inner_html()`. Nothing is proved of the parser: the contract only gives
/// its result the name `selected_descendants`.
#[verifier::external_body]
fn select_descendants(markup: &str, selector: &str) -> (r: Option<Vec<Element>>)
    ensures
        selection_model(r) == selected_descendants(markup@, selector@),
{
    let document = scraper::Html::parse_fragment(markup);
    let group = match scraper::Selector::parse(selector) {
        Ok(group) => group,
        Err(_) => return None,
    };
    let root = document.select(&group).next()?;
    Some(
        root.descendent_elements().map(
            |e| Element {
                classes: e.value().classes().map(|c| c.to_string()).collect(),
                inner_html: e.inner_html(),
            },
        ).collect(),
    )
}

/// Calls `itertools::max`, which is `Iterator::max` on the vector's items:
/// `None` for an empty vector, else an item that no other item exceeds.
#[verifier::external_body]
fn max_of(values: Vec<u16>) -> (r: Option<u16>)
    ensures
        values@.len() == 0 ==> r.is_none(),
        values@.len() > 0 ==> r.is_some() && values@.contains(r.unwrap()) && forall|i: int|
            0 <= i < values@.len() ==> values@[i] <= r.unwrap(),
{
    itertools::max(values)
}

/// Whether one of `classes` is `class` up to ASCII case.
pub open spec fn has_class(classes: Seq<Seq<char>>, class: Seq<char>) -> bool {
    exists|i: int| 0 <= i < classes.len() && eq_ignore_ascii_case(#[trigger] classes[i], class)
}

/// The inner markup of the elements that carry `class`, in document order.
pub open spec fn marked_texts(elements: Seq<ElementModel>, class: Seq<char>) -> Seq<Seq<char>>
    decreases elements.len(),
{
    if elements.len() == 0 {
        Seq::empty()
    } else {
        let before = marked_texts(elements.drop_last(), class);
        if has_class(elements.last().0, class) {
            before.push(elements.last().1)
        } else {
            before
        }
    }
}

/// The page number that an element's inner markup shows, if it is one.
pub open spec fn page_label(element: ElementModel) -> Option<nat> {
    parse_unsigned(element.1, u16::MAX as nat)
}

/// Whether some element shows a page number.
pub open spec fn has_page_label(elements: Seq<ElementModel>) -> bool {
    exists|i: int| 0 <= i < elements.len() && page_label(#[trigger] elements[i]).is_some()
}

/// Whether `page` is the highest page number that the elements show.
pub open spec fn is_last_page(elements: Seq<ElementModel>, page: u16) -> bool {
    &&& exists|i: int|
        0 <= i < elements.len() && page_label(#[trigger] elements[i]) == Some(page as nat)
    &&& forall|i: int|
        0 <= i < elements.len() ==> (page_label(#[trigger] elements[i]) matches Some(p) ==> p
            <= page)
}

/// The highest page number that the elements show, if they show any.
pub open spec fn last_page(elements: Seq<ElementModel>) -> Option<u16> {
    if has_page_label(elements) {
        Some(choose|page: u16| is_last_page(elements, page))
    } else {
        None
    }
}

/// The page count that a pagination control's markup shows: the highest
/// page number below its first list, if there is a list and a number.
pub open spec fn last_page_in(selection: Option<Seq<ElementModel>>) -> Option<u16> {
    match selection {
        Some(elements) => last_page(elements),
        None => None,
    }
}

/// At most one page number is the highest.
pub proof fn lemma_last_page_unique(elements: Seq<ElementModel>, page: u16)
    requires
        is_last_page(elements, page),
    ensures
        last_page(elements) == Some(page),
{
    let i = choose|i: int|
        0 <= i < elements.len() && page_label(#[trigger] elements[i]) == Some(page as nat);
    assert(page_label(elements[i]).is_some());
    let other = choose|other: u16| is_last_page(elements, other);
    let j = choose|j: int|
        0 <= j < elements.len() && page_label(#[trigger] elements[j]) == Some(other as nat);
    assert(page_label(elements[j]) == Some(other as nat));
    assert(page_label(elements[i]) == Some(page as nat));
}

/// The class that marks a domain name in the results table.
pub open spec fn marker_class() -> Seq<char> {
    "exp-domain-link"@
}

impl Element {
    /// Tells whether the element carries `class`, up to ASCII case.
    pub fn carries_class(&self, class: &str) -> (r: bool)
        ensures
            r == has_class(self.model().0, class@),
    {
        let n: usize = self.classes.len();
        let mut i: usize = 0;
        while i < n
            invariant
                n == self.classes@.len(),
                i <= n,
                forall|j: int|
                    0 <= j < i ==> !eq_ignore_ascii_case(
                        #[trigger] texts(self.classes@)[j],
                        class@,
                    ),
            decreases n - i,
        {
            if equals_ignoring_ascii_case(self.classes[i].as_str(), class) {
                assert(texts(self.classes@)[i as int] == self.classes@[i as int]@);
                return true;
            }
            assert(texts(self.classes@)[i as int] == self.classes@[i as int]@);
            i = i + 1;
        }
        false
    }
}

/// The highest page number among the elements of a pagination control.
pub fn last_page_of(elements: &Vec<Element>) -> (r: Result<u16, CrawlError>)
    ensures
        match r {
            Ok(page) => last_page(models(elements@)) == Some(page) && is_last_page(
                models(elements@),
                page,
            ),
            Err(e) => e == CrawlError::PaginationParseError && last_page(models(elements@))
                == None::<u16>,
        },
{
    let ghost all = models(elements@);
    let mut pages: Vec<u16> = Vec::new();
    let mut sources: Ghost<Seq<int>> = Ghost(Seq::empty());
    let n: usize = elements.len();
    let mut i: usize = 0;
    while i < n
        invariant
            n == elements@.len(),
            i <= n,
            all == models(elements@),
            sources@.len() == pages@.len(),
            forall|k: int|
                0 <= k < pages@.len() ==> 0 <= #[trigger] sources@[k] < i && page_label(
                    all[sources@[k]],
                ) == Some(pages@[k] as nat),
            forall|j: int|
                0 <= j < i ==> (page_label(#[trigger] all[j]) matches Some(p) ==> exists|k: int|
                    0 <= k < pages@.len() && #[trigger] pages@[k] as nat == p),
        decreases n - i,
    {
        assert(all[i as int].1 == elements@[i as int].inner_html@);
        let ghost before = pages@;
        match parse_u16(elements[i].inner_html.as_str()) {
            Some(page) => {
                pages.push(page);
                proof {
                    sources@ = sources@.push(i as int);
                    assert(pages@[before.len() as int] == page);
                    assert forall|j: int| 0 <= j < i + 1 implies (page_label(
                        #[trigger] all[j],
                    ) matches Some(p) ==> exists|k: int|
                        0 <= k < pages@.len() && #[trigger] pages@[k] as nat == p) by {
                        if j < i {
                            if let Some(p) = page_label(all[j]) {
                                let k = choose|k: int|
                                    0 <= k < before.len() && #[trigger] before[k] as nat == p;
                                assert(pages@[k] == before[k]);
                            }
                        } else {
                            assert(pages@[before.len() as int] as nat == page as nat);
                        }
                    }
                }
            },
            None => {},
        }
        i = i + 1;
    }
    let ghost found = pages@;
    match max_of(pages) {
        Some(page) => {
            proof {
                let k = choose|k: int| 0 <= k < found.len() && found[k] == page;
                assert(page_label(all[sources@[k]]) == Some(page as nat));
                assert forall|j: int| 0 <= j < all.len() implies (page_label(
                    #[trigger] all[j],
                ) matches Some(p) ==> p <= page) by {
                    if let Some(p) = page_label(all[j]) {
                        let m = choose|m: int| 0 <= m < found.len() && #[trigger] found[m] as nat == p;
                        assert(found[m] <= page);
                    }
                }
                lemma_last_page_unique(all, page);
            }
            Ok(page)
        },
        None => {
            assert(!has_page_label(all)) by {
                if has_page_label(all) {
                    let j = choose|j: int|
                        0 <= j < all.len() && page_label(#[trigger] all[j]).is_some();
                    assert(page_label(all[j]).is_some());
                }
            }
            Err(CrawlError::PaginationParseError)
        },
    }
}

/// The page count of a pagination control: the highest number among the
/// labels of its first list.
pub fn get_last_page(html: &String) -> (r: Result<u16, CrawlError>)
    ensures
        match r {
            Ok(page) => last_page_in(selected_descendants(html@, "ul"@)) == Some(page),
            Err(e) => e == CrawlError::PaginationParseError && last_page_in(
                selected_descendants(html@, "ul"@),
            ) == None::<u16>,
        },
{
    match select_descendants(html.as_str(), "ul") {
        Some(elements) => last_page_of(&elements),
        None => Err(CrawlError::PaginationParseError),
    }
}

/// The domain names among the elements of a results table: the inner
/// markup of each element that carries the marker class, in document order.
pub fn records_of(elements: &Vec<Element>) -> (records: Vec<String>)
    ensures
        texts(records@) == marked_texts(models(elements@), marker_class()),
{
    let ghost all = models(elements@);
    let mut records: Vec<String> = Vec::new();
    let n: usize = elements.len();
    let mut i: usize = 0;
    assert(all.subrange(0, 0) =~= Seq::empty());
    assert(texts(records@) =~= Seq::empty());
    while i < n
        invariant
            n == elements@.len(),
            i <= n,
            all == models(elements@),
            texts(records@) == marked_texts(all.subrange(0, i as int), marker_class()),
        decreases n - i,
    {
        let ghost before = records@;
        proof {
            assert(all.subrange(0, i + 1).drop_last() =~= all.subrange(0, i as int));
            assert(all.subrange(0, i + 1).last() == elements@[i as int].model());
        }
        if elements[i].carries_class("exp-domain-link") {
            records.push(elements[i].inner_html.clone());
            assert(texts(records@) =~= texts(before).push(elements@[i as int].inner_html@));
        }
        i = i + 1;
    }
    assert(all.subrange(0, n as int) =~= all);
    records
}

/// Appends to `results` the domain names of one rendered results table.
/// Markup without a table leaves `results` as it is.
pub fn get_records(table_html: &String, results: &mut Vec<String>) -> (r: Result<(), CrawlError>)
    ensures
        match selected_descendants(table_html@, "table"@) {
            Some(elements) => r.is_ok() && texts(final(results)@) == texts(old(results)@)
                + marked_texts(elements, marker_class()),
            None => r == Err::<(), CrawlError>(CrawlError::ElementNotFoundError) && *final(results)
                == *old(results),
        },
{
    match select_descendants(table_html.as_str(), "table") {
        Some(elements) => {
            let mut records = records_of(&elements);
            let ghost found = records@;
            results.append(&mut records);
            assert(texts(results@) =~= texts(old(results)@) + texts(found));
            Ok(())
        },
        None => Err(CrawlError::ElementNotFoundError),
    }
}

} // verus!
