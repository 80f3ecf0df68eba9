use vstd::prelude::*;

use crate::text::{
    lemma_seq_lt_asymmetric, lemma_seq_lt_irreflexive, lemma_seq_lt_transitive, seq_lt, str_eq,
    str_lt,
};

verus! {

/// Order by a first text, then a second one.
pub open spec fn text_pair_lt(a1: Seq<char>, a2: Seq<char>, b1: Seq<char>, b2: Seq<char>) -> bool {
    seq_lt(a1, b1) || (a1 == b1 && seq_lt(a2, b2))
}

/// Order by a number, then a text.
pub open spec fn num_text_lt(a1: int, a2: Seq<char>, b1: int, b2: Seq<char>) -> bool {
    a1 < b1 || (a1 == b1 && seq_lt(a2, b2))
}

pub proof fn lemma_text_pair_transitive(
    a1: Seq<char>,
    a2: Seq<char>,
    b1: Seq<char>,
    b2: Seq<char>,
    c1: Seq<char>,
    c2: Seq<char>,
)
    requires
        text_pair_lt(a1, a2, b1, b2),
        text_pair_lt(b1, b2, c1, c2),
    ensures
        text_pair_lt(a1, a2, c1, c2),
{
    if seq_lt(a1, b1) && seq_lt(b1, c1) {
        lemma_seq_lt_transitive(a1, b1, c1);
    } else if seq_lt(a1, b1) {
    } else if seq_lt(b1, c1) {
    } else {
        lemma_seq_lt_transitive(a2, b2, c2);
    }
}

pub proof fn lemma_text_pair_asymmetric(a1: Seq<char>, a2: Seq<char>, b1: Seq<char>, b2: Seq<char>)
    requires
        text_pair_lt(a1, a2, b1, b2),
    ensures
        !text_pair_lt(b1, b2, a1, a2),
{
    if seq_lt(a1, b1) {
        lemma_seq_lt_asymmetric(a1, b1);
        if b1 == a1 {
            lemma_seq_lt_irreflexive(a1);
        }
    } else {
        lemma_seq_lt_irreflexive(a1);
        lemma_seq_lt_asymmetric(a2, b2);
    }
}

pub proof fn lemma_num_text_transitive(
    a1: int,
    a2: Seq<char>,
    b1: int,
    b2: Seq<char>,
    c1: int,
    c2: Seq<char>,
)
    requires
        num_text_lt(a1, a2, b1, b2),
        num_text_lt(b1, b2, c1, c2),
    ensures
        num_text_lt(a1, a2, c1, c2),
{
    if a1 == b1 && b1 == c1 {
        lemma_seq_lt_transitive(a2, b2, c2);
    }
}

pub proof fn lemma_num_text_asymmetric(a1: int, a2: Seq<char>, b1: int, b2: Seq<char>)
    requires
        num_text_lt(a1, a2, b1, b2),
    ensures
        !num_text_lt(b1, b2, a1, a2),
{
    if a1 == b1 {
        lemma_seq_lt_asymmetric(a2, b2);
    }
}

pub fn text_pair_less(a1: &str, a2: &str, b1: &str, b2: &str) -> (r: bool)
    ensures
        r == text_pair_lt(a1@, a2@, b1@, b2@),
{
    if str_lt(a1, b1) {
        true
    } else if str_eq(a1, b1) {
        str_lt(a2, b2)
    } else {
        false
    }
}

pub fn num_text_less(a1: i64, a2: &str, b1: i64, b2: &str) -> (r: bool)
    ensures
        r == num_text_lt(a1 as int, a2@, b1 as int, b2@),
{
    if a1 < b1 {
        true
    } else if a1 == b1 {
        str_lt(a2, b2)
    } else {
        false
    }
}

} // verus!
