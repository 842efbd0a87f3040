//! The order of values: booleans, numbers and strings are ordered among
//! their own kind, nothing else is.

use core::cmp::Ordering;
use vstd::prelude::*;
use vstd::std_specs::cmp::PartialOrdSpecImpl;
use crate::number;
use crate::text::characters;
use crate::text::lemma_same_rank;
use crate::text::rank_texts;
use crate::text::text_rank;
use crate::value::Value;
use crate::value::ValueView;

verus! {

/// The order of two texts: that of the first characters in which they
/// differ; where one text starts the other, the shorter comes first.
pub open spec fn text_order(a: Seq<char>, b: Seq<char>) -> Ordering {
    if text_rank(a, b) < 0 {
        Ordering::Less
    } else if text_rank(a, b) > 0 {
        Ordering::Greater
    } else {
        Ordering::Equal
    }
}

/// The order of two numbers as binary64 orders them; none where one is a
/// NaN.
pub open spec fn number_order(a: u64, b: u64) -> Option<Ordering> {
    if number::is_nan(a) || number::is_nan(b) {
        None
    } else if number::number_less(a, b) {
        Some(Ordering::Less)
    } else if number::number_less(b, a) {
        Some(Ordering::Greater)
    } else {
        Some(Ordering::Equal)
    }
}

/// The order of two values. `false` comes before `true`, numbers are
/// ordered as binary64 orders them, strings by their characters. Values of
/// different kinds, functions, natives and `nil` are not ordered.
pub open spec fn value_order(a: ValueView, b: ValueView) -> Option<Ordering> {
    match (a, b) {
        (ValueView::Bool(a), ValueView::Bool(b)) => Some(
            if a == b {
                Ordering::Equal
            } else if b {
                Ordering::Less
            } else {
                Ordering::Greater
            },
        ),
        (ValueView::Number(a), ValueView::Number(b)) => number_order(a, b),
        (ValueView::String(a), ValueView::String(b)) => Some(text_order(a, b)),
        _ => None,
    }
}

/// Compares two texts character by character.
pub fn compare_texts(a: &str, b: &str) -> (r: Ordering)
    ensures
        r == text_order(a@, b@),
{
    let rank = rank_texts(&characters(a), &characters(b));
    if rank < 0 {
        Ordering::Less
    } else if rank > 0 {
        Ordering::Greater
    } else {
        Ordering::Equal
    }
}

impl PartialOrd for Value {
    fn partial_cmp(&self, other: &Value) -> (r: Option<Ordering>) {
        match (self, other) {
            (Value::Bool(a), Value::Bool(b)) => Some(
                if *a == *b {
                    Ordering::Equal
                } else if *b {
                    Ordering::Less
                } else {
                    Ordering::Greater
                },
            ),
            (Value::Number(a), Value::Number(b)) => {
                if number::nan(*a) || number::nan(*b) {
                    None
                } else if number::less(*a, *b) {
                    Some(Ordering::Less)
                } else if number::less(*b, *a) {
                    Some(Ordering::Greater)
                } else {
                    Some(Ordering::Equal)
                }
            },
            (Value::String(a), Value::String(b)) => Some(compare_texts(a.as_str(), b.as_str())),
            _ => None,
        }
    }
}

impl PartialOrdSpecImpl for Value {
    open spec fn obeys_partial_cmp_spec() -> bool {
        true
    }

    open spec fn partial_cmp_spec(&self, other: &Value) -> Option<Ordering> {
        value_order(self@, other@)
    }
}

/// The order of values agrees with their equality: two values are equal
/// exactly when they are ordered as equal, or are of a kind that is not
/// ordered and the same.
pub proof fn order_agrees_with_equality(a: ValueView, b: ValueView)
    ensures
        value_order(a, b) == Some(Ordering::Equal) ==> a.equals(b),
        (a is Bool || a is Number || a is String) && a.equals(b) ==> value_order(a, b) == Some(
            Ordering::Equal,
        ),
{
    match (a, b) {
        (ValueView::String(x), ValueView::String(y)) => {
            lemma_same_rank(x, y);
        },
        _ => {},
    }
}

} // verus!
