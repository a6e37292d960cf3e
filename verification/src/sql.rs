//! Statements for the storage engine: text with `?` placeholders and the
//! values that are bound to them.

use crate::domain::PageRank;
use vstd::prelude::*;
use vstd::string::*;

verus! {

/// A value that is bound to a placeholder.
#[derive(Clone, Debug)]
pub enum SqlValue {
    UBigInt(u64),
    Text(String),
    Boolean(bool),
    /// A decimal number, in thousandths.
    Decimal(PageRank),
    Null,
}

/// A bound value as plain values.
pub enum SqlValueModel {
    UBigInt(u64),
    Text(Seq<char>),
    Boolean(bool),
    Decimal(nat),
    Null,
}

impl View for SqlValue {
    type V = SqlValueModel;

    open spec fn view(&self) -> SqlValueModel {
        match *self {
            SqlValue::UBigInt(n) => SqlValueModel::UBigInt(n),
            SqlValue::Text(text) => SqlValueModel::Text(text@),
            SqlValue::Boolean(b) => SqlValueModel::Boolean(b),
            SqlValue::Decimal(rank) => SqlValueModel::Decimal(rank.thousandths as nat),
            SqlValue::Null => SqlValueModel::Null,
        }
    }
}

/// The bound values of a vector as plain values.
pub open spec fn values(params: Seq<SqlValue>) -> Seq<SqlValueModel> {
    params.map_values(|v: SqlValue| v@)
}

/// Statement text and the values for its placeholders, in their order.
#[derive(Clone, Debug)]
pub struct Sql {
    pub text: String,
    pub params: Vec<SqlValue>,
}

/// A statement as plain values.
pub struct SqlModel {
    pub text: Seq<char>,
    pub params: Seq<SqlValueModel>,
}

impl View for Sql {
    type V = SqlModel;

    open spec fn view(&self) -> SqlModel {
        SqlModel { text: self.text@, params: values(self.params@) }
    }
}

/// The number of placeholders in a statement's text.
pub open spec fn placeholders(text: Seq<char>) -> nat
    decreases text.len(),
{
    if text.len() == 0 {
        0
    } else {
        placeholders(text.drop_last()) + if text.last() == '?' {
            1nat
        } else {
            0nat
        }
    }
}

/// The placeholders of two texts add up when the texts are joined.
pub proof fn lemma_placeholders_add(a: Seq<char>, b: Seq<char>)
    ensures
        placeholders(a + b) == placeholders(a) + placeholders(b),
    decreases b.len(),
{
    if b.len() == 0 {
        assert(a + b =~= a);
    } else {
        lemma_placeholders_add(a, b.drop_last());
        assert((a + b).drop_last() =~= a + b.drop_last());
        assert((a + b).last() == b.last());
    }
}

/// The value bound for a flag that may be unknown.
pub open spec fn flag_value(flag: Option<bool>) -> SqlValueModel {
    match flag {
        Some(b) => SqlValueModel::Boolean(b),
        None => SqlValueModel::Null,
    }
}

/// Binds a flag that may be unknown.
pub fn bind_flag(flag: Option<bool>) -> (v: SqlValue)
    ensures
        v@ == flag_value(flag),
{
    match flag {
        Some(b) => SqlValue::Boolean(b),
        None => SqlValue::Null,
    }
}

/// `s` with every single quote doubled.
pub open spec fn doubled_quotes(s: Seq<char>) -> Seq<char>
    decreases s.len(),
{
    if s.len() == 0 {
        Seq::empty()
    } else if s.last() == '\'' {
        doubled_quotes(s.drop_last()) + seq!['\'', '\'']
    } else {
        doubled_quotes(s.drop_last()).push(s.last())
    }
}

/// `s` as a string literal of the engine: in single quotes, with the
/// single quotes inside it doubled.
pub open spec fn quoted(s: Seq<char>) -> Seq<char> {
    seq!['\''] + doubled_quotes(s) + seq!['\'']
}

/// Writes `s` as a string literal of the engine.
pub fn quote_literal(s: &str) -> (r: String)
    ensures
        r@ == quoted(s@),
{
    proof {
        reveal_strlit("'");
        reveal_strlit("''");
    }
    let mut out = String::from_str("'");
    let n: usize = s.unicode_len();
    let mut i: usize = 0;
    assert(s@.subrange(0, 0) =~= Seq::empty());
    assert(out@ =~= seq!['\''] + doubled_quotes(s@.subrange(0, 0)));
    while i < n
        invariant
            n == s@.len(),
            i <= n,
            out@ == seq!['\''] + doubled_quotes(s@.subrange(0, i as int)),
            "'"@ == seq!['\''],
            "''"@ == seq!['\'', '\''],
        decreases n - i,
    {
        let ghost before = s@.subrange(0, i as int);
        let ghost upto = s@.subrange(0, i + 1);
        assert(upto.drop_last() =~= before);
        assert(upto.last() == s@[i as int]);
        if s.get_char(i) == '\'' {
            out.append("''");
            assert(out@ =~= seq!['\''] + doubled_quotes(upto));
        } else {
            let piece = s.substring_char(i, i + 1);
            assert(piece@ =~= seq![s@[i as int]]);
            out.append(piece);
            assert(out@ =~= seq!['\''] + doubled_quotes(upto));
        }
        i = i + 1;
    }
    assert(s@.subrange(0, n as int) =~= s@);
    out.append("'");
    out
}

} // verus!
