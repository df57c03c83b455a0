//! How diagnostics spell lists and optional values.

use vstd::prelude::*;

use crate::manifest::rules::variant_texts;
use crate::text::{debug_spelling, debug_text, join3, optional_text, texts};

verus! {

/// The items with a comma and a space between them.
pub open spec fn comma_separated(items: Seq<Seq<char>>) -> Seq<char>
    decreases items.len(),
{
    if items.len() == 0 {
        ""@
    } else if items.len() == 1 {
        items[0]
    } else {
        comma_separated(items.drop_last()) + ", "@ + items.last()
    }
}

/// The items between square brackets.
pub open spec fn bracketed(items: Seq<Seq<char>>) -> Seq<char> {
    "["@ + comma_separated(items) + "]"@
}

/// `None`, or the quoted text in `Some(..)`.
pub open spec fn optional_debug(item: Option<Seq<char>>) -> Seq<char> {
    match item {
        Some(text) => "Some("@ + debug_spelling(text) + ")"@,
        None => "None"@,
    }
}

/// Each text quoted.
pub open spec fn quoted(items: Seq<Seq<char>>) -> Seq<Seq<char>> {
    Seq::new(items.len(), |i: int| debug_spelling(items[i]))
}

/// The quoted texts between square brackets.
pub open spec fn list_debug(items: Seq<Seq<char>>) -> Seq<char> {
    bracketed(quoted(items))
}

pub open spec fn optionals(items: Seq<Option<Seq<char>>>) -> Seq<Seq<char>> {
    Seq::new(items.len(), |i: int| optional_debug(items[i]))
}

/// The optional texts between square brackets.
pub open spec fn optional_list_debug(items: Seq<Option<Seq<char>>>) -> Seq<char> {
    bracketed(optionals(items))
}

/// Spells the items between square brackets.
pub fn bracketed_text(items: &Vec<String>) -> (text: String)
    ensures
        text@ == bracketed(texts(items@)),
{
    let ghost all = texts(items@);
    let mut inner = "".to_owned();
    let mut i: usize = 0;
    assert(all.take(0) =~= Seq::<Seq<char>>::empty());
    while i < items.len()
        invariant
            i <= items@.len(),
            all == texts(items@),
            inner@ == comma_separated(all.take(i as int)),
        decreases items@.len() - i,
    {
        proof {
            assert(all.take(i + 1).drop_last() =~= all.take(i as int));
            assert(all.take(i + 1).last() == items@[i as int]@);
        }
        inner = if i == 0 {
            items[i].clone()
        } else {
            join3(&inner, ", ", &items[i])
        };
        i += 1;
    }
    assert(all.take(i as int) =~= all);
    join3("[", &inner, "]")
}

/// Spells an optional text.
pub fn optional_debug_text(item: &Option<String>) -> (text: String)
    ensures
        text@ == optional_debug(optional_text(*item)),
{
    match item {
        Some(value) => join3("Some(", &debug_text(value), ")"),
        None => "None".to_owned(),
    }
}

/// Spells a list of texts.
pub fn list_debug_text(items: &Vec<String>) -> (text: String)
    ensures
        text@ == list_debug(texts(items@)),
{
    let ghost all = quoted(texts(items@));
    let mut spelled: Vec<String> = Vec::new();
    let mut i: usize = 0;
    assert(texts(spelled@) =~= all.take(0));
    while i < items.len()
        invariant
            i <= items@.len(),
            all == quoted(texts(items@)),
            texts(spelled@) == all.take(i as int),
        decreases items@.len() - i,
    {
        crate::text::push_text(&mut spelled, &debug_text(&items[i]));
        i += 1;
        assert(texts(spelled@) =~= all.take(i as int));
    }
    assert(all.take(i as int) =~= all);
    bracketed_text(&spelled)
}

/// Spells a list of optional texts.
pub fn optional_list_debug_text(items: &Vec<Option<String>>) -> (text: String)
    ensures
        text@ == optional_list_debug(variant_texts(items@)),
{
    let ghost all = optionals(variant_texts(items@));
    let mut spelled: Vec<String> = Vec::new();
    let mut i: usize = 0;
    assert(texts(spelled@) =~= all.take(0));
    while i < items.len()
        invariant
            i <= items@.len(),
            all == optionals(variant_texts(items@)),
            texts(spelled@) == all.take(i as int),
        decreases items@.len() - i,
    {
        crate::text::push_text(&mut spelled, &optional_debug_text(&items[i]));
        i += 1;
        assert(texts(spelled@) =~= all.take(i as int));
    }
    assert(all.take(i as int) =~= all);
    bracketed_text(&spelled)
}

/// Lists are spelled in brackets with a comma and a space between two items.
pub proof fn law_list_is_spelled_in_brackets(front: Seq<Seq<char>>, item: Seq<char>)
    ensures
        bracketed(Seq::empty()) == seq!['[', ']'],
        bracketed(seq![item]) == seq!['['] + item + seq![']'],
        front.len() > 0 ==> comma_separated(front.push(item)) == comma_separated(front) + seq![
            ',',
            ' ',
        ] + item,
        optional_debug(None) == "None"@,
        optional_debug(Some(item)) == "Some("@ + debug_spelling(item) + ")"@,
{
    reveal_strlit("[");
    reveal_strlit("]");
    reveal_strlit(", ");
    reveal_strlit("");
    assert("["@ =~= seq!['[']);
    assert("]"@ =~= seq![']']);
    assert(", "@ =~= seq![',', ' ']);
    assert("["@ + ""@ + "]"@ =~= seq!['[', ']']);
    assert(front.push(item).drop_last() =~= front);
}

} // verus!
