//! JSON text of strings and of lists of strings.
//!
//! Escaping a string is left to `serde_json`; what surrounds the escaped
//! strings (commas, brackets) is written here.

use vstd::prelude::*;
use vstd::string::StringExecFns;

verus! {

/// The JSON string literal that `serde_json::to_string` gives for the text
/// `s`, quotes included, or `None` where it reports an error.
pub uninterp spec fn json_text(s: Seq<char>) -> Option<Seq<char>>;

/// Calls `serde_json::to_string` on a string slice. The call either yields the
/// JSON string literal of `s` or an error; which of the two, and the literal,
/// depend on the characters of `s` alone, and the contract gives them the name
/// [`json_text`]. The error itself is dropped.
#[verifier::external_body]
fn encode_text(s: &str) -> (r: Option<String>)
    ensures
        r matches Some(t) ==> json_text(s@) == Some(t@),
        r is None ==> json_text(s@) is None,
{
    serde_json::to_string(s).ok()
}

/// The views of a list of strings.
pub open spec fn texts(items: Seq<String>) -> Seq<Seq<char>> {
    items.map_values(|s: String| s@)
}

/// The JSON literals of `items`, separated by commas, or `None` where one of
/// them has no literal.
pub open spec fn json_items(items: Seq<Seq<char>>) -> Option<Seq<char>>
    decreases items.len(),
{
    if items.len() == 0 {
        Some(Seq::empty())
    } else {
        match (json_items(items.drop_last()), json_text(items.last())) {
            (Some(before), Some(last)) => Some(
                if items.len() == 1 {
                    last
                } else {
                    before + ","@ + last
                },
            ),
            _ => None,
        }
    }
}

/// The JSON array of the strings `items`.
pub open spec fn json_array(items: Seq<Seq<char>>) -> Option<Seq<char>> {
    match json_items(items) {
        Some(body) => Some("["@ + body + "]"@),
        None => None,
    }
}

/// Appends the JSON string literal of `s` to `out`. Where `s` has no literal,
/// `out` stays as it is and the result is `false`.
pub fn push_text(out: &mut String, s: &str) -> (done: bool)
    ensures
        done == json_text(s@).is_some(),
        done ==> final(out)@ == old(out)@ + json_text(s@).unwrap(),
        !done ==> final(out)@ == old(out)@,
{
    match encode_text(s) {
        Some(t) => {
            out.append(t.as_str());
            true
        },
        None => false,
    }
}

/// Renders a list of strings as a JSON array.
pub fn array_text(items: &Vec<String>) -> (r: Option<String>)
    ensures
        r.is_some() == json_array(texts(items@)).is_some(),
        r matches Some(t) ==> t@ == json_array(texts(items@)).unwrap(),
{
    let mut body = String::new();
    let mut i: usize = 0;
    assert(texts(items@).take(0) =~= Seq::<Seq<char>>::empty());
    while i < items.len()
        invariant
            i <= items.len(),
            json_items(texts(items@).take(i as int)) == Some(body@),
        decreases items.len() - i,
    {
        let ghost before = body@;
        let ghost prefix = texts(items@).take(i as int + 1);
        proof {
            assert(prefix.drop_last() =~= texts(items@).take(i as int));
            assert(prefix.last() == items@[i as int]@);
        }
        if i > 0 {
            body.append(",");
        }
        if !push_text(&mut body, items[i].as_str()) {
            proof {
                lemma_json_items_none(texts(items@), i as int + 1);
            }
            return None;
        }
        proof {
            if i == 0 {
                assert(before + json_text(items@[0]@).unwrap() =~= json_text(
                    items@[0]@,
                ).unwrap());
            }
        }
        i = i + 1;
    }
    assert(texts(items@).take(i as int) =~= texts(items@));
    let mut text = String::from_str("[");
    text.append(body.as_str());
    text.append("]");
    Some(text)
}

/// A list has no rendering as soon as one of its prefixes has none.
proof fn lemma_json_items_none(items: Seq<Seq<char>>, n: int)
    requires
        0 <= n <= items.len(),
        json_items(items.take(n)) is None,
    ensures
        json_items(items) is None,
    decreases items.len() - n,
{
    if n < items.len() {
        assert(items.take(n + 1).drop_last() =~= items.take(n));
        lemma_json_items_none(items, n + 1);
    } else {
        assert(items.take(n) =~= items);
    }
}

} // verus!
