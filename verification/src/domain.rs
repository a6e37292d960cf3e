//! Domain records: a name that holds no whitespace, with an identifier
//! derived from it.

use crate::error::InvalidRecordError;
use crate::text::{
    all_digits, decimal_value, find_whitespace, has_whitespace, is_digit, is_first_whitespace,
    read_digits,
};
use std::collections::hash_map::DefaultHasher;
use std::hash::Hasher;
use vstd::prelude::*;
use vstd::std_specs::hash::DefaultHasherAdditionalSpecFns;
use vstd::utf8::encode_utf8;

verus! {

/// A page rank score in thousandths, the precision that the store keeps.
#[derive(Clone, Copy, Debug, PartialEq, Eq, Structural)]
pub struct PageRank {
    pub thousandths: u64,
}

/// One observed domain.
#[derive(Clone, Debug)]
pub struct Domain {
    /// The identifier derived from the name.
    pub id: u64,
    /// The domain name.
    pub name: String,
    /// Whether the domain was available when it was seen.
    pub available: bool,
    /// Whether a later validation found the domain still available.
    pub valid: Option<bool>,
    /// The page rank score, where one is known.
    pub page_rank: Option<PageRank>,
    /// Whether a later moderation pass found the name objectionable.
    pub censored: Option<bool>,
}

/// A row of the table of domains.
pub struct Row {
    pub id: u64,
    pub name: Seq<char>,
    pub available: Option<bool>,
    pub valid: Option<bool>,
    /// Page rank in thousandths.
    pub page_rank: nat,
    pub censored: Option<bool>,
}

/// The identifier of a name: the hash that the standard library's default
/// hasher gives for the name's bytes followed by the byte `0xff`.
pub open spec fn derived_id(name: Seq<char>) -> u64 {
    DefaultHasher::spec_finish(seq![encode_utf8(name), seq![0xffu8]])
}

impl View for Domain {
    type V = Row;

    /// The row that the record is stored as: an unknown page rank is
    /// stored as zero.
    open spec fn view(&self) -> Row {
        Row {
            id: self.id,
            name: self.name@,
            available: Some(self.available),
            valid: self.valid,
            page_rank: match self.page_rank {
                Some(rank) => rank.thousandths as nat,
                None => 0,
            },
            censored: self.censored,
        }
    }
}

impl Domain {
    /// Whether the record is well formed: its name holds no whitespace and
    /// its identifier is the one derived from the name.
    pub open spec fn wf(&self) -> bool {
        !has_whitespace(self.name@) && self.id == derived_id(self.name@)
    }

    /// The identifier of `name`.
    pub fn calculate_hash(name: &String) -> (id: u64)
        ensures
            id == derived_id(name@),
    {
        let mut hasher = DefaultHasher::new();
        hasher.write(name.as_str().as_bytes());
        let end: Vec<u8> = vec![0xffu8];
        hasher.write(end.as_slice());
        assert(end@ =~= seq![0xffu8]);
        assert(hasher@ =~= seq![encode_utf8(name@), seq![0xffu8]]);
        hasher.finish()
    }

    /// A record of a domain that was just seen, not yet validated or
    /// moderated. A name that holds whitespace is refused.
    pub fn new(name: &String, available: bool, page_rank: Option<PageRank>) -> (r: Result<
        Domain,
        InvalidRecordError,
    >)
        ensures
            match r {
                Ok(domain) => {
                    &&& !has_whitespace(name@)
                    &&& domain.wf()
                    &&& domain.name@ == name@
                    &&& domain.available == available
                    &&& domain.valid.is_none()
                    &&& domain.page_rank == page_rank
                    &&& domain.censored.is_none()
                },
                Err(e) => is_first_whitespace(name@, e.position as int),
            },
    {
        match find_whitespace(name.as_str()) {
            Some(position) => Err(InvalidRecordError { position }),
            None => Ok(
                Domain {
                    id: Self::calculate_hash(name),
                    name: name.clone(),
                    available,
                    valid: None,
                    page_rank,
                    censored: None,
                },
            ),
        }
    }
}

/// Two well-formed records of one name have one identifier.
pub proof fn law_id_is_determined_by_name(a: Domain, b: Domain)
    requires
        a.wf(),
        b.wf(),
        a.name@ == b.name@,
    ensures
        a.id == b.id,
{
}

/// The position of the decimal point of `s`: that of its first `.`, or
/// the length of `s` where it has none.
pub open spec fn is_point(s: Seq<char>, point: int) -> bool {
    &&& 0 <= point <= s.len()
    &&& forall|j: int| 0 <= j < point ==> #[trigger] s[j] != '.'
    &&& point < s.len() ==> s[point] == '.'
}

/// The digits after the decimal point at `point`.
pub open spec fn fraction_digits(s: Seq<char>, point: int) -> Seq<char> {
    if point < s.len() {
        s.subrange(point + 1, s.len() as int)
    } else {
        Seq::empty()
    }
}

/// What one, two or three digits after the decimal point count in
/// thousandths.
pub open spec fn fraction_thousandths(digits: Seq<char>) -> nat {
    if digits.len() == 1 {
        decimal_value(digits) * 100
    } else if digits.len() == 2 {
        decimal_value(digits) * 10
    } else {
        decimal_value(digits)
    }
}

/// The score that `s` denotes, in thousandths, with its decimal point at
/// `point`: at least one digit, then nothing or a point and one to three
/// digits. The score has to fit in 64 bits.
pub open spec fn page_rank_at(s: Seq<char>, point: int) -> Option<nat> {
    let whole = s.subrange(0, point);
    let fraction = fraction_digits(s, point);
    if whole.len() > 0 && all_digits(whole) && (point < s.len() ==> 1 <= fraction.len() <= 3
        && all_digits(fraction)) && decimal_value(whole) * 1000 + fraction_thousandths(fraction)
        <= u64::MAX {
        Some(decimal_value(whole) * 1000 + fraction_thousandths(fraction))
    } else {
        None
    }
}

/// The score that `s` denotes, in thousandths.
pub open spec fn parse_page_rank(s: Seq<char>) -> Option<nat> {
    page_rank_at(s, choose|point: int| is_point(s, point))
}

impl PageRank {
    /// Reads a score written as a decimal numeral with at most three
    /// digits after the point, such as `2`, `1.5` or `0.125`.
    pub fn parse(s: &str) -> (r: Option<PageRank>)
        ensures
            match r {
                Some(rank) => parse_page_rank(s@) == Some(rank.thousandths as nat),
                None => parse_page_rank(s@).is_none(),
            },
    {
        let n: usize = s.unicode_len();
        let mut point: usize = 0;
        while point < n && s.get_char(point) != '.'
            invariant
                n == s@.len(),
                point <= n,
                forall|j: int| 0 <= j < point ==> #[trigger] s@[j] != '.',
            decreases n - point,
        {
            point = point + 1;
        }
        proof {
            assert(is_point(s@, point as int));
            let chosen = choose|p: int| is_point(s@, p);
            if chosen < point {
                assert(s@[chosen] != '.');
            }
            if point < chosen {
                assert(s@[point as int] != '.');
            }
            assert(chosen == point);
        }
        let whole = match read_digits(s.substring_char(0, point)) {
            Some(whole) => whole,
            None => {
                proof {
                    let digits = s@.subrange(0, point as int);
                    if digits.len() > 0 && all_digits(digits) {
                        assert(decimal_value(digits) > u64::MAX);
                        assert(decimal_value(digits) * 1000 > u64::MAX) by (nonlinear_arith)
                            requires
                                decimal_value(digits) > u64::MAX,
                        ;
                    }
                }
                return None;
            },
        };
        let part: u64 = if point < n {
            let digits = s.substring_char(point + 1, n);
            if n - point - 1 > 3 {
                return None;
            }
            match read_digits(digits) {
                Some(value) => {
                    if n - point - 1 == 1 {
                        proof {
                            lemma_decimal_value_bound(digits@);
                        }
                        value * 100
                    } else if n - point - 1 == 2 {
                        proof {
                            lemma_decimal_value_bound(digits@);
                        }
                        value * 10
                    } else {
                        value
                    }
                },
                None => {
                    proof {
                        if digits@.len() > 0 && all_digits(digits@) {
                            lemma_decimal_value_bound(digits@);
                        }
                    }
                    return None;
                },
            }
        } else {
            0
        };
        if whole > (u64::MAX - part) / 1000 {
            return None;
        }
        Some(PageRank { thousandths: whole * 1000 + part })
    }
}

/// Up to three digits denote less than a thousand.
pub proof fn lemma_decimal_value_bound(digits: Seq<char>)
    requires
        digits.len() <= 3,
        all_digits(digits),
    ensures
        digits.len() == 0 ==> decimal_value(digits) == 0,
        digits.len() == 1 ==> decimal_value(digits) <= 9,
        digits.len() == 2 ==> decimal_value(digits) <= 99,
        digits.len() == 3 ==> decimal_value(digits) <= 999,
    decreases digits.len(),
{
    if digits.len() > 0 {
        lemma_decimal_value_bound(digits.drop_last());
        assert(is_digit(digits.last()));
    }
}

} // verus!
