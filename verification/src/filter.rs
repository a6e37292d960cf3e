//! Filters over the table of domains, and the predicate that a filter
//! becomes: text with placeholders, every value bound.

use crate::domain::{parse_page_rank, PageRank, Row};
use crate::error::InvalidFilterError;
use crate::sql::{
    lemma_placeholders_add, placeholders, values, Sql, SqlModel, SqlValue, SqlValueModel,
};
use crate::text::{ends_with, parse_u64, parse_unsigned, same_text, texts};
use vstd::prelude::*;
use vstd::string::*;

verus! {

/// The fields that a filter can constrain.
#[derive(Clone, Copy, Debug, PartialEq, Eq, Hash, Structural)]
pub enum DomainFilterFields {
    Id,
    Name,
    Available,
    Valid,
    PageRank,
    Censored,
}

/// The top-level domains that the catalogue takes in.
#[derive(Clone, Copy, Debug, PartialEq, Eq, Hash, Structural)]
pub enum DomainApprovedTlds {
    Com,
    Net,
    Org,
}

/// Constraints on the rows of a listing. A field that is absent
/// constrains nothing.
#[derive(Clone, Debug)]
pub struct DomainFilter {
    /// The row has this identifier.
    pub id: Option<u64>,
    /// The row's name ends in one of these top-level domains, written
    /// without their dot and separated by commas.
    pub name: Option<String>,
    /// The row has this availability.
    pub available: Option<bool>,
    /// The row has this validity.
    pub valid: Option<bool>,
    /// The row's page rank is at least this.
    pub page_rank: Option<PageRank>,
    /// The row has this moderation flag.
    pub censored: Option<bool>,
}

/// A filter as plain values.
pub struct FilterModel {
    pub id: Option<u64>,
    pub name: Option<Seq<char>>,
    pub available: Option<bool>,
    pub valid: Option<bool>,
    /// Page rank floor in thousandths.
    pub page_rank: Option<nat>,
    pub censored: Option<bool>,
}

impl View for DomainFilter {
    type V = FilterModel;

    open spec fn view(&self) -> FilterModel {
        FilterModel {
            id: self.id,
            name: match self.name {
                Some(name) => Some(name@),
                None => None,
            },
            available: self.available,
            valid: self.valid,
            page_rank: match self.page_rank {
                Some(rank) => Some(rank.thousandths as nat),
                None => None,
            },
            censored: self.censored,
        }
    }
}

/// The filter that constrains nothing.
pub open spec fn unconstrained() -> FilterModel {
    FilterModel {
        id: None,
        name: None,
        available: None,
        valid: None,
        page_rank: None,
        censored: None,
    }
}

/// The truth value that `s` denotes.
pub open spec fn parse_flag(s: Seq<char>) -> Option<bool> {
    if s == "true"@ || s == "1"@ || s == "True"@ || s == "T"@ {
        Some(true)
    } else if s == "false"@ || s == "0"@ || s == "False"@ || s == "F"@ {
        Some(false)
    } else {
        None
    }
}

/// A textual entry of a filter as plain values.
pub type EntryModel = (DomainFilterFields, Option<Seq<char>>);

/// An entry as plain values.
pub open spec fn entry_model(entry: (DomainFilterFields, Option<String>)) -> EntryModel {
    (
        entry.0,
        match entry.1 {
            Some(text) => Some(text@),
            None => None,
        },
    )
}

/// The entries of a vector as plain values.
pub open spec fn entry_models(entries: Seq<(DomainFilterFields, Option<String>)>) -> Seq<
    EntryModel,
> {
    entries.map_values(|e: (DomainFilterFields, Option<String>)| entry_model(e))
}

/// The filter `f` with one more entry taken in. An entry without a value
/// changes nothing; one with a value sets its field, and is refused where
/// the value cannot be read.
pub open spec fn with_entry(f: FilterModel, entry: EntryModel) -> Result<
    FilterModel,
    InvalidFilterError,
> {
    match entry.1 {
        None => Ok(f),
        Some(text) => match entry.0 {
            DomainFilterFields::Id => match parse_unsigned(text, u64::MAX as nat) {
                Some(id) => Ok(FilterModel { id: Some(id as u64), ..f }),
                None => Err(InvalidFilterError::Id),
            },
            DomainFilterFields::Name => Ok(FilterModel { name: Some(text), ..f }),
            DomainFilterFields::Available => match parse_flag(text) {
                Some(flag) => Ok(FilterModel { available: Some(flag), ..f }),
                None => Err(InvalidFilterError::Available),
            },
            DomainFilterFields::Valid => match parse_flag(text) {
                Some(flag) => Ok(FilterModel { valid: Some(flag), ..f }),
                None => Err(InvalidFilterError::Valid),
            },
            DomainFilterFields::PageRank => match parse_page_rank(text) {
                Some(rank) => Ok(FilterModel { page_rank: Some(rank), ..f }),
                None => Err(InvalidFilterError::PageRank),
            },
            DomainFilterFields::Censored => match parse_flag(text) {
                Some(flag) => Ok(FilterModel { censored: Some(flag), ..f }),
                None => Err(InvalidFilterError::Censored),
            },
        },
    }
}

/// The filter that a run of entries describes: each entry in turn is
/// taken in, a later one replacing an earlier one for the same field, and
/// the first entry that cannot be read is the error.
pub open spec fn filter_of(entries: Seq<EntryModel>) -> Result<FilterModel, InvalidFilterError>
    decreases entries.len(),
{
    if entries.len() == 0 {
        Ok(unconstrained())
    } else {
        match filter_of(entries.drop_last()) {
            Ok(f) => with_entry(f, entries.last()),
            Err(e) => Err(e),
        }
    }
}

/// The outcome of building a filter as plain values.
pub open spec fn built_model(r: Result<DomainFilter, InvalidFilterError>) -> Result<
    FilterModel,
    InvalidFilterError,
> {
    match r {
        Ok(filter) => Ok(filter@),
        Err(e) => Err(e),
    }
}

/// The pieces of `s` between its commas. A text without a comma is one
/// piece, and so is the empty text.
pub open spec fn split_commas(s: Seq<char>) -> Seq<Seq<char>>
    decreases s.len(),
{
    if s.len() == 0 {
        seq![Seq::empty()]
    } else {
        let before = split_commas(s.drop_last());
        if s.last() == ',' {
            before.push(Seq::empty())
        } else {
            before.drop_last().push(before.last().push(s.last()))
        }
    }
}

/// Whether `name` lies under the top-level domain `tld`.
pub open spec fn under_tld(name: Seq<char>, tld: Seq<char>) -> bool {
    ends_with(name, seq!['.'] + tld)
}

/// Whether `name` lies under one of the top-level domains in `tlds`.
pub open spec fn under_some_tld(name: Seq<char>, tlds: Seq<Seq<char>>) -> bool {
    exists|i: int| 0 <= i < tlds.len() && under_tld(name, #[trigger] tlds[i])
}

/// Whether a row meets every constraint of a filter.
pub open spec fn admits(f: FilterModel, row: Row) -> bool {
    &&& f.id matches Some(id) ==> row.id == id
    &&& f.name matches Some(tlds) ==> under_some_tld(row.name, split_commas(tlds))
    &&& f.available matches Some(flag) ==> row.available == Some(flag)
    &&& f.valid matches Some(flag) ==> row.valid == Some(flag)
    &&& f.page_rank matches Some(floor) ==> row.page_rank >= floor
    &&& f.censored matches Some(flag) ==> row.censored == Some(flag)
}

/// `count` suffix tests on the name, joined by `OR`. There is at least one.
pub open spec fn alternatives(count: nat) -> Seq<char>
    decreases count,
{
    if count <= 1 {
        "name LIKE ?"@
    } else {
        alternatives((count - 1) as nat) + " OR name LIKE ?"@
    }
}

/// The patterns that the suffix tests are given: `%.` and the top-level
/// domain.
pub open spec fn patterns(tlds: Seq<Seq<char>>) -> Seq<SqlValueModel> {
    tlds.map_values(|tld: Seq<char>| SqlValueModel::Text("%."@ + tld))
}

/// One comparison where the field is constrained, none where it is not.
pub open spec fn when<T>(present: bool, item: T) -> Seq<T> {
    if present {
        seq![item]
    } else {
        Seq::empty()
    }
}

/// The comparisons of a filter, one for each constrained field, in the
/// order of the table's columns. None of them holds a value of the filter.
pub open spec fn comparisons(f: FilterModel) -> Seq<Seq<char>> {
    when(f.id.is_some(), "id = ?"@) + when(
        f.name.is_some(),
        "("@ + alternatives(split_commas(f.name.unwrap()).len()) + ")"@,
    ) + when(f.available.is_some(), "available = ?"@) + when(f.valid.is_some(), "valid = ?"@)
        + when(f.page_rank.is_some(), "page_rank >= ?"@) + when(
        f.censored.is_some(),
        "censored = ?"@,
    )
}

/// The values of a filter, in the order of the placeholders of its
/// comparisons.
pub open spec fn arguments(f: FilterModel) -> Seq<SqlValueModel> {
    when(f.id.is_some(), SqlValueModel::UBigInt(f.id.unwrap())) + (if f.name.is_some() {
        patterns(split_commas(f.name.unwrap()))
    } else {
        Seq::empty()
    }) + when(f.available.is_some(), SqlValueModel::Boolean(f.available.unwrap())) + when(
        f.valid.is_some(),
        SqlValueModel::Boolean(f.valid.unwrap()),
    ) + when(f.page_rank.is_some(), SqlValueModel::Decimal(f.page_rank.unwrap())) + when(
        f.censored.is_some(),
        SqlValueModel::Boolean(f.censored.unwrap()),
    )
}

/// The parts joined by `AND`.
pub open spec fn conjunction(parts: Seq<Seq<char>>) -> Seq<char>
    decreases parts.len(),
{
    if parts.len() == 0 {
        Seq::empty()
    } else if parts.len() == 1 {
        parts[0]
    } else {
        conjunction(parts.drop_last()) + " AND "@ + parts.last()
    }
}

/// The predicate of a filter: none where nothing is constrained, else
/// `WHERE` and the conjunction of the comparisons, with the values bound.
pub open spec fn predicate_of(f: FilterModel) -> Option<SqlModel> {
    if comparisons(f).len() == 0 {
        None
    } else {
        Some(SqlModel { text: "WHERE "@ + conjunction(comparisons(f)), params: arguments(f) })
    }
}

/// An optional predicate as plain values.
pub open spec fn predicate_model(predicate: Option<Sql>) -> Option<SqlModel> {
    match predicate {
        Some(sql) => Some(sql@),
        None => None,
    }
}

/// Whether two filters constrain the same fields, the name by equally
/// many top-level domains.
pub open spec fn same_shape(f: FilterModel, g: FilterModel) -> bool {
    &&& f.id.is_some() == g.id.is_some()
    &&& f.name.is_some() == g.name.is_some()
    &&& f.name.is_some() ==> split_commas(f.name.unwrap()).len() == split_commas(
        g.name.unwrap(),
    ).len()
    &&& f.available.is_some() == g.available.is_some()
    &&& f.valid.is_some() == g.valid.is_some()
    &&& f.page_rank.is_some() == g.page_rank.is_some()
    &&& f.censored.is_some() == g.censored.is_some()
}

/// The predicate's text does not depend on the values of the filter: two
/// filters that constrain the same fields have the same text, whatever
/// they compare with.
pub proof fn law_predicate_text_ignores_values(f: FilterModel, g: FilterModel)
    requires
        same_shape(f, g),
    ensures
        comparisons(f) == comparisons(g),
        predicate_of(f).is_some() == predicate_of(g).is_some(),
        predicate_of(f).is_some() ==> predicate_of(f).unwrap().text == predicate_of(
            g,
        ).unwrap().text,
{
}

/// A filter has no predicate exactly if it constrains nothing, and such a
/// filter admits every row.
pub proof fn law_unconstrained_filter_admits_all(f: FilterModel, row: Row)
    ensures
        predicate_of(f).is_none() <==> f == unconstrained(),
        admits(unconstrained(), row),
{
}

/// A filter on availability and page rank admits only rows that meet
/// both, and binds both values.
pub proof fn law_constraints_are_conjoined(f: FilterModel, row: Row)
    requires
        f.available.is_some(),
        f.page_rank.is_some(),
        admits(f, row),
    ensures
        row.available == f.available,
        row.page_rank >= f.page_rank.unwrap(),
        arguments(f).contains(SqlValueModel::Boolean(f.available.unwrap())),
        arguments(f).contains(SqlValueModel::Decimal(f.page_rank.unwrap())),
{
    let head = when(f.id.is_some(), SqlValueModel::UBigInt(f.id.unwrap())) + (if f.name.is_some() {
        patterns(split_commas(f.name.unwrap()))
    } else {
        Seq::empty()
    });
    let a = head.len() as int;
    assert(arguments(f)[a] == SqlValueModel::Boolean(f.available.unwrap()));
    let b = a + 1 + when(f.valid.is_some(), SqlValueModel::Boolean(f.valid.unwrap())).len();
    assert(arguments(f)[b] == SqlValueModel::Decimal(f.page_rank.unwrap()));
}

/// The placeholders of all parts together.
pub open spec fn placeholders_in(parts: Seq<Seq<char>>) -> nat
    decreases parts.len(),
{
    if parts.len() == 0 {
        0
    } else {
        placeholders_in(parts.drop_last()) + placeholders(parts.last())
    }
}

/// The placeholders of two runs of parts add up when the runs are joined.
proof fn lemma_placeholders_in_add(a: Seq<Seq<char>>, b: Seq<Seq<char>>)
    ensures
        placeholders_in(a + b) == placeholders_in(a) + placeholders_in(b),
    decreases b.len(),
{
    if b.len() == 0 {
        assert(a + b =~= a);
    } else {
        lemma_placeholders_in_add(a, b.drop_last());
        assert((a + b).drop_last() =~= a + b.drop_last());
        assert((a + b).last() == b.last());
    }
}

/// The word that joins the parts has no placeholder.
proof fn lemma_and_placeholders()
    ensures
        placeholders(" AND "@) == 0,
{
    reveal_with_fuel(placeholders, 6);
    reveal_strlit(" AND ");
}

/// Joining parts with `AND` neither adds nor drops a placeholder.
proof fn lemma_conjunction_placeholders(parts: Seq<Seq<char>>)
    ensures
        placeholders(conjunction(parts)) == placeholders_in(parts),
    decreases parts.len(),
{
    reveal_with_fuel(placeholders_in, 2);
    if parts.len() == 1 {
        assert(parts.drop_last().len() == 0);
    } else if parts.len() > 1 {
        lemma_and_placeholders();
        lemma_conjunction_placeholders(parts.drop_last());
        lemma_placeholders_add(conjunction(parts.drop_last()), " AND "@);
        lemma_placeholders_add(conjunction(parts.drop_last()) + " AND "@, parts.last());
    }
}

/// The first suffix test has one placeholder.
proof fn lemma_first_test_placeholders()
    ensures
        placeholders("name LIKE ?"@) == 1,
{
    reveal_with_fuel(placeholders, 12);
    reveal_strlit("name LIKE ?");
}

/// Each further suffix test has one placeholder.
proof fn lemma_further_test_placeholders()
    ensures
        placeholders(" OR name LIKE ?"@) == 1,
{
    reveal_with_fuel(placeholders, 16);
    reveal_strlit(" OR name LIKE ?");
}

/// Each suffix test has one placeholder.
proof fn lemma_alternatives_placeholders(count: nat)
    ensures
        placeholders(alternatives(count)) == if count <= 1 {
            1nat
        } else {
            count
        },
    decreases count,
{
    if count <= 1 {
        lemma_first_test_placeholders();
    } else {
        lemma_further_test_placeholders();
        lemma_alternatives_placeholders((count - 1) as nat);
        lemma_placeholders_add(alternatives((count - 1) as nat), " OR name LIKE ?"@);
    }
}

/// One part where the field is constrained has the placeholders of its
/// text.
proof fn lemma_when_placeholders(present: bool, text: Seq<char>)
    ensures
        placeholders_in(when(present, text)) == if present {
            placeholders(text)
        } else {
            0
        },
{
    reveal_with_fuel(placeholders_in, 2);
    if present {
        assert(when(present, text).drop_last().len() == 0);
    }
}

/// The fixed words of a predicate have no placeholder.
proof fn lemma_words_placeholders()
    ensures
        placeholders("WHERE "@) == 0,
        placeholders("("@) == 0,
        placeholders(")"@) == 0,
{
    reveal_with_fuel(placeholders, 7);
    reveal_strlit("WHERE ");
    reveal_strlit("(");
    reveal_strlit(")");
}

/// The comparison of the identifier has one placeholder.
proof fn lemma_id_placeholders()
    ensures
        placeholders("id = ?"@) == 1,
{
    reveal_with_fuel(placeholders, 7);
    reveal_strlit("id = ?");
}

/// The comparison of the availability has one placeholder.
proof fn lemma_available_placeholders()
    ensures
        placeholders("available = ?"@) == 1,
{
    reveal_with_fuel(placeholders, 14);
    reveal_strlit("available = ?");
}

/// The comparison of the validity has one placeholder.
proof fn lemma_valid_placeholders()
    ensures
        placeholders("valid = ?"@) == 1,
{
    reveal_with_fuel(placeholders, 10);
    reveal_strlit("valid = ?");
}

/// The comparison of the page rank has one placeholder.
proof fn lemma_page_rank_placeholders()
    ensures
        placeholders("page_rank >= ?"@) == 1,
{
    reveal_with_fuel(placeholders, 15);
    reveal_strlit("page_rank >= ?");
}

/// The comparison of the moderation flag has one placeholder.
proof fn lemma_censored_placeholders()
    ensures
        placeholders("censored = ?"@) == 1,
{
    reveal_with_fuel(placeholders, 13);
    reveal_strlit("censored = ?");
}

/// Every value of a filter is bound to a placeholder of its predicate, and
/// every placeholder has its value: the predicate's text holds as many
/// placeholders as the predicate has values.
pub proof fn law_predicate_binds_every_value(f: FilterModel)
    ensures
        predicate_of(f) matches Some(predicate) ==> placeholders(predicate.text)
            == predicate.params.len(),
{
    if predicate_of(f).is_some() {
        let tlds = if f.name.is_some() {
            split_commas(f.name.unwrap())
        } else {
            Seq::empty()
        };
        let id = when(f.id.is_some(), "id = ?"@);
        let name = when(f.name.is_some(), "("@ + alternatives(tlds.len()) + ")"@);
        let available = when(f.available.is_some(), "available = ?"@);
        let valid = when(f.valid.is_some(), "valid = ?"@);
        let rank = when(f.page_rank.is_some(), "page_rank >= ?"@);
        let censored = when(f.censored.is_some(), "censored = ?"@);
        lemma_words_placeholders();
        lemma_id_placeholders();
        lemma_available_placeholders();
        lemma_valid_placeholders();
        lemma_page_rank_placeholders();
        lemma_censored_placeholders();
        if f.name.is_some() {
            lemma_split_commas_len(f.name.unwrap());
            lemma_alternatives_placeholders(tlds.len());
            lemma_placeholders_add("("@, alternatives(tlds.len()));
            lemma_placeholders_add("("@ + alternatives(tlds.len()), ")"@);
        }
        lemma_when_placeholders(f.id.is_some(), "id = ?"@);
        lemma_when_placeholders(f.name.is_some(), "("@ + alternatives(tlds.len()) + ")"@);
        lemma_when_placeholders(f.available.is_some(), "available = ?"@);
        lemma_when_placeholders(f.valid.is_some(), "valid = ?"@);
        lemma_when_placeholders(f.page_rank.is_some(), "page_rank >= ?"@);
        lemma_when_placeholders(f.censored.is_some(), "censored = ?"@);
        lemma_placeholders_in_add(id, name);
        lemma_placeholders_in_add(id + name, available);
        lemma_placeholders_in_add(id + name + available, valid);
        lemma_placeholders_in_add(id + name + available + valid, rank);
        lemma_placeholders_in_add(id + name + available + valid + rank, censored);
        assert(comparisons(f) == id + name + available + valid + rank + censored);
        lemma_conjunction_placeholders(comparisons(f));
        lemma_placeholders_add("WHERE "@, conjunction(comparisons(f)));
    }
}

/// Reads a truth value.
pub fn read_flag(s: &str) -> (r: Option<bool>)
    ensures
        r == parse_flag(s@),
{
    if same_text(s, "true") || same_text(s, "1") || same_text(s, "True") || same_text(s, "T") {
        Some(true)
    } else if same_text(s, "false") || same_text(s, "0") || same_text(s, "False") || same_text(
        s,
        "F",
    ) {
        Some(false)
    } else {
        None
    }
}

/// Splits a text at its commas.
pub fn split_at_commas(s: &str) -> (pieces: Vec<String>)
    ensures
        texts(pieces@) == split_commas(s@),
{
    let mut pieces: Vec<String> = Vec::new();
    let n: usize = s.unicode_len();
    let mut start: usize = 0;
    let mut i: usize = 0;
    assert(s@.subrange(0, 0) =~= Seq::empty());
    assert(texts(pieces@).push(s@.subrange(0, 0)) =~= split_commas(
        s@.subrange(0, 0),
    ));
    while i < n
        invariant
            n == s@.len(),
            start <= i <= n,
            texts(pieces@).push(s@.subrange(start as int, i as int))
                == split_commas(s@.subrange(0, i as int)),
        decreases n - i,
    {
        let ghost done = texts(pieces@);
        let ghost before = split_commas(s@.subrange(0, i as int));
        let ghost upto = s@.subrange(0, i + 1);
        assert(upto.drop_last() =~= s@.subrange(0, i as int));
        assert(upto.last() == s@[i as int]);
        assert(before.last() == s@.subrange(start as int, i as int));
        assert(before.drop_last() =~= done);
        if s.get_char(i) == ',' {
            let piece = s.substring_char(start, i);
            pieces.push(String::from_str(piece));
            start = i + 1;
            assert(s@.subrange(start as int, start as int) =~= Seq::empty());
            assert(texts(pieces@) =~= before);
        } else {
            assert(s@.subrange(start as int, i + 1) =~= s@.subrange(start as int, i as int).push(
                s@[i as int],
            ));
        }
        i = i + 1;
    }
    assert(s@.subrange(0, n as int) =~= s@);
    let ghost done = texts(pieces@);
    pieces.push(String::from_str(s.substring_char(start, n)));
    assert(texts(pieces@) =~= done.push(s@.subrange(start as int, n as int)));
    pieces
}

impl DomainFilter {
    /// The filter that a list of textual entries describes, or the error
    /// of the first entry that cannot be read. Without a list the filter
    /// constrains nothing.
    pub fn new(obj: Option<&Vec<(DomainFilterFields, Option<String>)>>) -> (r: Result<
        DomainFilter,
        InvalidFilterError,
    >)
        ensures
            built_model(r) == match obj {
                Some(entries) => filter_of(entry_models(entries@)),
                None => Ok(unconstrained()),
            },
    {
        let mut filter = DomainFilter {
            id: None,
            name: None,
            available: None,
            valid: None,
            page_rank: None,
            censored: None,
        };
        let entries = match obj {
            Some(entries) => entries,
            None => {
                return Ok(filter);
            },
        };
        let ghost all = entry_models(entries@);
        let n: usize = entries.len();
        let mut i: usize = 0;
        assert(all.subrange(0, 0) =~= Seq::empty());
        while i < n
            invariant
                n == entries@.len(),
                i <= n,
                obj == Some(entries),
                all == entry_models(entries@),
                filter_of(all.subrange(0, i as int)) == Ok::<FilterModel, InvalidFilterError>(
                    filter@,
                ),
            decreases n - i,
        {
            proof {
                assert(all.subrange(0, i + 1).drop_last() =~= all.subrange(0, i as int));
                assert(all.subrange(0, i + 1).last() == entry_model(entries@[i as int]));
                Self::lemma_refused_entry(all, i + 1);
            }
            match &entries[i].1 {
                None => {},
                Some(text) => match entries[i].0 {
                    DomainFilterFields::Id => match parse_u64(text.as_str()) {
                        Some(id) => {
                            filter.id = Some(id);
                        },
                        None => {
                            return Err(InvalidFilterError::Id);
                        },
                    },
                    DomainFilterFields::Name => {
                        filter.name = Some(text.clone());
                    },
                    DomainFilterFields::Available => match read_flag(text.as_str()) {
                        Some(flag) => {
                            filter.available = Some(flag);
                        },
                        None => {
                            return Err(InvalidFilterError::Available);
                        },
                    },
                    DomainFilterFields::Valid => match read_flag(text.as_str()) {
                        Some(flag) => {
                            filter.valid = Some(flag);
                        },
                        None => {
                            return Err(InvalidFilterError::Valid);
                        },
                    },
                    DomainFilterFields::PageRank => match PageRank::parse(text.as_str()) {
                        Some(rank) => {
                            filter.page_rank = Some(rank);
                        },
                        None => {
                            return Err(InvalidFilterError::PageRank);
                        },
                    },
                    DomainFilterFields::Censored => match read_flag(text.as_str()) {
                        Some(flag) => {
                            filter.censored = Some(flag);
                        },
                        None => {
                            return Err(InvalidFilterError::Censored);
                        },
                    },
                },
            }
            i = i + 1;
        }
        assert(all.subrange(0, n as int) =~= all);
        Ok(filter)
    }

    /// An entry that is refused is refused for good: the entries after it
    /// do not change the error.
    pub proof fn lemma_refused_entry(entries: Seq<EntryModel>, upto: int)
        requires
            0 <= upto <= entries.len(),
        ensures
            filter_of(entries.subrange(0, upto)).is_err() ==> filter_of(entries) == filter_of(
                entries.subrange(0, upto),
            ),
        decreases entries.len() - upto,
    {
        if upto < entries.len() {
            assert(entries.subrange(0, upto + 1).drop_last() =~= entries.subrange(0, upto));
            Self::lemma_refused_entry(entries, upto + 1);
        } else {
            assert(entries.subrange(0, upto) =~= entries);
        }
    }

    /// The predicate of the filter, or none where it constrains nothing.
    pub fn where_clause(&self) -> (r: Option<Sql>)
        ensures
            predicate_model(r) == predicate_of(self@),
    {
        let mut parts: Vec<String> = Vec::new();
        let mut params: Vec<SqlValue> = Vec::new();
        push_comparison(
            &mut parts,
            &mut params,
            "id = ?",
            match self.id {
                Some(id) => Some(SqlValue::UBigInt(id)),
                None => None,
            },
        );
        if let Some(name) = &self.name {
            let test = tld_test(name.as_str(), &mut params);
            parts.push(test);
        }
        push_comparison(&mut parts, &mut params, "available = ?", bound_flag(self.available));
        push_comparison(&mut parts, &mut params, "valid = ?", bound_flag(self.valid));
        push_comparison(
            &mut parts,
            &mut params,
            "page_rank >= ?",
            match self.page_rank {
                Some(rank) => Some(SqlValue::Decimal(rank)),
                None => None,
            },
        );
        push_comparison(&mut parts, &mut params, "censored = ?", bound_flag(self.censored));
        assert(texts(parts@) =~= comparisons(self@));
        assert(values(params@) =~= arguments(self@));
        if parts.len() == 0 {
            return None;
        }
        let mut text = String::from_str("WHERE ");
        text.append(conjoin(&parts).as_str());
        Some(Sql { text, params })
    }
}

/// The value that a constrained flag is compared with.
fn bound_flag(flag: Option<bool>) -> (r: Option<SqlValue>)
    ensures
        r.is_some() == flag.is_some(),
        flag matches Some(b) ==> r.unwrap()@ == SqlValueModel::Boolean(b),
{
    match flag {
        Some(b) => Some(SqlValue::Boolean(b)),
        None => None,
    }
}

/// Adds a comparison and the value that it compares with, where there is
/// one.
fn push_comparison(
    parts: &mut Vec<String>,
    params: &mut Vec<SqlValue>,
    comparison: &str,
    value: Option<SqlValue>,
)
    ensures
        texts(final(parts)@) == texts(old(parts)@) + when(value.is_some(), comparison@),
        values(final(params)@) == values(old(params)@) + when(value.is_some(), value.unwrap()@),
{
    if let Some(bound) = value {
        parts.push(String::from_str(comparison));
        params.push(bound);
    }
    assert(texts(parts@) =~= texts(old(parts)@) + when(value.is_some(), comparison@));
    assert(values(params@) =~= values(old(params)@) + when(value.is_some(), value.unwrap()@));
}

/// The test of a name against a list of top-level domains: one suffix
/// test for each, with its pattern bound.
fn tld_test(name: &str, params: &mut Vec<SqlValue>) -> (test: String)
    ensures
        test@ == "("@ + alternatives(split_commas(name@).len()) + ")"@,
        values(final(params)@) == values(old(params)@) + patterns(split_commas(name@)),
{
    let tlds = split_at_commas(name);
    let ghost wanted = split_commas(name@);
    let ghost bound = values(params@);
    proof {
        lemma_split_commas_len(name@);
    }
    let count: usize = tlds.len();
    assert(count == wanted.len()) by {
        assert(texts(tlds@).len() == tlds@.len());
    }
    let mut tests = String::from_str("name LIKE ?");
    let mut k: usize = 0;
    assert(values(params@) =~= bound + patterns(wanted.subrange(0, 0)));
    while k < count
        invariant
            k <= count,
            count >= 1,
            count == tlds@.len(),
            texts(tlds@) == wanted,
            tests@ == alternatives(k as nat),
            values(params@) == bound + patterns(wanted.subrange(0, k as int)),
        decreases count - k,
    {
        let ghost so_far = values(params@);
        if k > 0 {
            tests.append(" OR name LIKE ?");
        }
        let mut pattern = String::from_str("%.");
        pattern.append(tlds[k].as_str());
        assert(wanted[k as int] == tlds@[k as int]@);
        params.push(SqlValue::Text(pattern));
        assert(values(params@) =~= so_far.push(SqlValueModel::Text("%."@ + wanted[k as int])));
        assert(values(params@) =~= bound + patterns(wanted.subrange(0, k + 1)));
        k = k + 1;
    }
    assert(wanted.subrange(0, count as int) =~= wanted);
    let mut test = String::from_str("(");
    test.append(tests.as_str());
    test.append(")");
    test
}

/// A text has at least one piece between its commas.
pub proof fn lemma_split_commas_len(s: Seq<char>)
    ensures
        split_commas(s).len() >= 1,
    decreases s.len(),
{
    if s.len() > 0 {
        lemma_split_commas_len(s.drop_last());
    }
}

/// Joins comparisons with `AND`.
pub fn conjoin(parts: &Vec<String>) -> (text: String)
    ensures
        text@ == conjunction(texts(parts@)),
{
    let count: usize = parts.len();
    let ghost all = texts(parts@);
    if count == 0 {
        return String::new();
    }
    let mut text = parts[0].clone();
    assert(all.subrange(0, 1) =~= seq![all[0]]);
    let mut k: usize = 1;
    while k < count
        invariant
            1 <= k <= count,
            count == parts@.len(),
            all == texts(parts@),
            text@ == conjunction(all.subrange(0, k as int)),
        decreases count - k,
    {
        assert(all.subrange(0, k + 1).drop_last() =~= all.subrange(0, k as int));
        assert(all.subrange(0, k + 1).last() == parts@[k as int]@);
        text.append(" AND ");
        text.append(parts[k].as_str());
        k = k + 1;
    }
    assert(all.subrange(0, count as int) =~= all);
    text
}

} // verus!
