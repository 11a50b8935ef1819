//! JSON texts of strings and of lists of strings.
use vstd::prelude::*;

verus! {

/// The views of an optional list of strings.
pub open spec fn opt_views(list: Option<Vec<String>>) -> Option<Seq<Seq<char>>> {
    match list {
        Some(v) => Some(crate::text::views(v@)),
        None => None,
    }
}

/// What stands for `c` inside a JSON string: a backslash and a letter for the characters that have
/// one, a backslash and the code of the other control characters, and any other character itself.
pub open spec fn json_form(c: char) -> Seq<char> {
    if c == '"' {
        "\\\""@
    } else if c == '\\' {
        "\\\\"@
    } else if c as int == 8 {
        "\\b"@
    } else if c as int == 9 {
        "\\t"@
    } else if c as int == 10 {
        "\\n"@
    } else if c as int == 12 {
        "\\f"@
    } else if c as int == 13 {
        "\\r"@
    } else if (c as int) < 32 {
        "\\u00"@ + seq![
            crate::numerals::digit(c as int / 16),
            crate::numerals::digit(c as int % 16),
        ]
    } else {
        seq![c]
    }
}

/// What stands for `s` inside a JSON string.
pub open spec fn json_escaped(s: Seq<char>) -> Seq<char>
    decreases s.len(),
{
    if s.len() == 0 {
        Seq::empty()
    } else {
        json_escaped(s.drop_last()) + json_form(s.last())
    }
}

/// The JSON text of a string, quotes included.
pub open spec fn json_string(s: Seq<char>) -> Seq<char> {
    "\""@ + json_escaped(s) + "\""@
}

/// The JSON texts of strings, with commas between them.
pub open spec fn json_items(items: Seq<Seq<char>>) -> Seq<char>
    decreases items.len(),
{
    if items.len() == 0 {
        Seq::empty()
    } else if items.len() == 1 {
        json_string(items[0])
    } else {
        json_items(items.drop_last()) + ","@ + json_string(items.last())
    }
}

/// The JSON text of a list of strings.
pub open spec fn json_list(items: Seq<Seq<char>>) -> Seq<char> {
    "["@ + json_items(items) + "]"@
}

/// The list of strings that a JSON text stands for; `None` where it stands for none.
pub uninterp spec fn list_in_json(text: Seq<char>) -> Option<Seq<Seq<char>>>;

/// `serde_json::to_string` of a list of strings: the JSON texts of the strings in order, with
/// commas between them and brackets around them. Every such list has a text, and reading that text
/// gives the list back.
#[verifier::external_body]
pub(crate) fn list_to_json(items: &[String]) -> (r: Option<String>)
    ensures
        r is Some,
        r->0@ == json_list(crate::text::views(items@)),
        list_in_json(r->0@) == Some(crate::text::views(items@)),
{
    serde_json::to_string(items).ok()
}

/// `serde_json::from_str` into a list of strings. The result depends on the text alone.
#[verifier::external_body]
pub(crate) fn list_from_json(text: &str) -> (r: Option<Vec<String>>)
    ensures
        opt_views(r) == list_in_json(text@),
{
    serde_json::from_str(text).ok()
}

/// `serde_json::to_string` of a string: its characters between quotes, with an escape for each
/// quote, backslash and control character. Every string has a text.
#[verifier::external_body]
pub(crate) fn string_to_json(s: &str) -> (r: Option<String>)
    ensures
        r is Some,
        r->0@ == json_string(s@),
{
    serde_json::to_string(s).ok()
}

} // verus!
