//! The little that is read out of JSON documents, which are carried as text.
use serde_json::Value;

use vstd::prelude::*;

use crate::text::views;

verus! {

/// The items of the array that `serde_json` reads in a text, each as JSON text;
/// `None` where the text is no array.
pub uninterp spec fn json_items_of(text: Seq<char>) -> Option<Seq<Seq<char>>>;

/// The string that `serde_json` reads in a text; `None` where it is no string.
pub uninterp spec fn json_string_of(text: Seq<char>) -> Option<Seq<char>>;

/// The member of the object that `serde_json` reads in a text, as JSON text;
/// `None` where the text is no object or has no such member.
pub uninterp spec fn json_member_of(text: Seq<char>, key: Seq<char>) -> Option<Seq<char>>;

/// The JSON text with the member `key` of the object at `pointer` set to a
/// number, as `serde_json` reads and writes it; `None` where the text is no JSON
/// or has no object there.
pub uninterp spec fn json_with_number_of(
    text: Seq<char>,
    pointer: Seq<char>,
    key: Seq<char>,
    number: usize,
) -> Option<Seq<char>>;

/// The characters stand for themselves in a JSON string.
pub open spec fn is_unescaped(s: Seq<char>) -> bool {
    forall|i: int| 0 <= i < s.len() ==> (#[trigger] s[i]) >= ' ' && s[i] != '"' && s[i] != '\\'
}

/// The text in quotes.
pub open spec fn quoted(s: Seq<char>) -> Seq<char> {
    seq!['"'] + s + seq!['"']
}

/// `serde_json::from_str` into an array of values, and `Value::to_string` of each.
/// What it reads is only named.
#[verifier::external_body]
pub(crate) fn json_items(text: &str) -> (r: Option<Vec<String>>)
    ensures
        match r {
            Some(items) => json_items_of(text@) == Some(views(items@)),
            None => json_items_of(text@) is None,
        },
{
    let items: Vec<Value> = serde_json::from_str(text).ok()?;
    Some(items.iter().map(|item| item.to_string()).collect())
}

/// `serde_json::from_str` into a string. What it reads is only named, but for a
/// text in quotes that holds nothing to unescape: that is read as it stands.
#[verifier::external_body]
pub(crate) fn json_string(text: &str) -> (r: Option<String>)
    ensures
        match r {
            Some(s) => json_string_of(text@) == Some(s@),
            None => json_string_of(text@) is None,
        },
        forall|s: Seq<char>| #[trigger]
            quoted(s) == text@ && is_unescaped(s) ==> (match r {
                Some(t) => t@ == s,
                None => false,
            }),
{
    serde_json::from_str(text).ok()
}

/// `serde_json::from_str`, `Value::get` and `Value::to_string`. What it reads is
/// only named.
#[verifier::external_body]
pub(crate) fn json_member(text: &str, key: &str) -> (r: Option<String>)
    ensures
        match r {
            Some(s) => json_member_of(text@, key@) == Some(s@),
            None => json_member_of(text@, key@) is None,
        },
{
    let value: Value = serde_json::from_str(text).ok()?;
    value.get(key).map(|member| member.to_string())
}

/// `serde_json::from_str`, `Value::pointer_mut`, `Map::insert` and
/// `Value::to_string`. What the text is then, is only named.
#[verifier::external_body]
pub(crate) fn json_with_number(text: &str, pointer: &str, key: &str, number: usize) -> (r: Option<
    String,
>)
    ensures
        match r {
            Some(s) => json_with_number_of(text@, pointer@, key@, number) == Some(s@),
            None => json_with_number_of(text@, pointer@, key@, number) is None,
        },
{
    let mut value: Value = serde_json::from_str(text).ok()?;
    let object = value.pointer_mut(pointer)?.as_object_mut()?;
    object.insert(key.to_owned(), Value::from(number));
    Some(value.to_string())
}

/// The strings among the items of an array; none where the text is no array.
pub open spec fn strings_of(text: Seq<char>) -> Seq<Seq<char>> {
    match json_items_of(text) {
        Some(items) => strings_among(items),
        None => Seq::empty(),
    }
}

/// The strings among JSON texts, in order.
pub open spec fn strings_among(items: Seq<Seq<char>>) -> Seq<Seq<char>>
    decreases items.len(),
{
    if items.len() == 0 {
        Seq::empty()
    } else {
        let before = strings_among(items.drop_last());
        match json_string_of(items.last()) {
            Some(s) => before.push(s),
            None => before,
        }
    }
}

/// The strings among JSON texts, in order.
pub fn pick_strings(items: &Vec<String>) -> (r: Vec<String>)
    ensures
        views(r@) == strings_among(views(items@)),
{
    let mut out: Vec<String> = Vec::new();
    let mut i: usize = 0;
    assert(views(out@) =~= Seq::<Seq<char>>::empty());
    while i < items.len()
        invariant
            i <= items@.len(),
            views(out@) == strings_among(views(items@).subrange(0, i as int)),
        decreases items@.len() - i,
    {
        let ghost before = out@;
        proof {
            let next = views(items@).subrange(0, i + 1);
            assert(next.drop_last() =~= views(items@).subrange(0, i as int));
            assert(next.last() == items@[i as int]@);
        }
        if let Some(s) = json_string(items[i].as_str()) {
            out.push(s);
            assert(views(out@) =~= views(before).push(s@));
        }
        i = i + 1;
    }
    assert(views(items@).subrange(0, items@.len() as int) =~= views(items@));
    out
}

/// The strings of a JSON array.
pub fn strings(text: &str) -> (r: Vec<String>)
    ensures
        views(r@) == strings_of(text@),
{
    match json_items(text) {
        Some(items) => pick_strings(&items),
        None => {
            let none: Vec<String> = Vec::new();
            assert(views(none@) =~= Seq::<Seq<char>>::empty());
            none
        },
    }
}

// ---------------------------------------------------------------------------
// Laws
// ---------------------------------------------------------------------------
/// Of the items of an array the strings are kept, in order, and nothing else.
pub proof fn law_only_strings_are_read(items: Seq<Seq<char>>, item: Seq<char>)
    ensures
        json_string_of(item) is None ==> strings_among(items.push(item)) == strings_among(items),
        json_string_of(item) matches Some(s) ==> strings_among(items.push(item)) == strings_among(
            items,
        ).push(s),
        strings_among(Seq::empty()).len() == 0,
{
    assert(items.push(item).drop_last() =~= items);
}

} // verus!
