//! Statements with positional parameters (`$1`, `$2`, ...), as the server
//! hands them to the database.
use crate::text::{decimal, digit_char, lemma_decimal_chars};
use vstd::prelude::*;

verus! {

/// A value bound to a positional parameter.
#[derive(Debug)]
pub enum SqlParam {
    Text(String),
    Int(i32),
}

/// The text of a statement and the values of its parameters, in order.
#[derive(Debug)]
pub struct SqlStatement {
    pub query: String,
    pub params: Vec<SqlParam>,
}

/// The number of `$` signs in a text: the placeholders of a statement.
pub open spec fn placeholder_count(s: Seq<char>) -> int
    decreases s.len(),
{
    if s.len() == 0 {
        0
    } else {
        placeholder_count(s.drop_last()) + if s.last() == '$' { 1int } else { 0 }
    }
}

/// The placeholders of two joined texts are those of each.
pub proof fn lemma_placeholder_count_concat(a: Seq<char>, b: Seq<char>)
    ensures
        placeholder_count(a + b) == placeholder_count(a) + placeholder_count(b),
    decreases b.len(),
{
    if b.len() == 0 {
        assert(a + b =~= a);
    } else {
        assert((a + b).drop_last() =~= a + b.drop_last());
        lemma_placeholder_count_concat(a, b.drop_last());
    }
}

/// A text without `$` holds no placeholder.
pub proof fn lemma_no_placeholder(s: Seq<char>)
    requires
        forall|i: int| 0 <= i < s.len() ==> s[i] != '$',
    ensures
        placeholder_count(s) == 0,
    decreases s.len(),
{
    if s.len() > 0 {
        lemma_no_placeholder(s.drop_last());
    }
}

/// Decimal text holds no placeholder.
pub proof fn lemma_decimal_no_placeholder(n: int)
    ensures
        placeholder_count(decimal(n)) == 0,
{
    assert forall|i: int| 0 <= i < decimal(n).len() implies decimal(n)[i] != '$' by {
        lemma_decimal_chars(n, i);
        if decimal(n)[i] != '-' {
            let d = choose|d: int| 0 <= d < 10 && decimal(n)[i] == digit_char(d);
        }
    }
    lemma_no_placeholder(decimal(n));
}

} // verus!
