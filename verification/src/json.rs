//! Text as JSON writes it.

use vstd::prelude::*;

use crate::text;

verus! {

/// A character inside a JSON string.
pub open spec fn escape(c: char) -> Seq<char> {
    if c == '"' {
        "\\\""@
    } else if c == '\\' {
        "\\\\"@
    } else if c == '\u{8}' {
        "\\b"@
    } else if c == '\t' {
        "\\t"@
    } else if c == '\n' {
        "\\n"@
    } else if c == '\u{c}' {
        "\\f"@
    } else if c == '\r' {
        "\\r"@
    } else if (c as int) < 0x20 {
        "\\u00"@ + text::zero_padded(text::digits(c as nat, 16), 2)
    } else {
        seq![c]
    }
}

/// A text inside a JSON string.
pub open spec fn escaped(s: Seq<char>) -> Seq<char>
    decreases s.len(),
{
    if s.len() == 0 {
        Seq::empty()
    } else {
        escaped(s.drop_last()) + escape(s.last())
    }
}

/// A text as a JSON string.
pub open spec fn quoted(s: Seq<char>) -> Seq<char> {
    "\""@ + escaped(s) + "\""@
}

/// Texts as a JSON array of strings.
pub open spec fn string_array(list: Seq<Seq<char>>) -> Seq<char> {
    "["@ + text::joined(list.map_values(|s: Seq<char>| quoted(s)), ","@) + "]"@
}

/// A text as a JSON string, by `serde_json::to_string`.
///
/// Claims that quotes, backslashes and the control characters below U+0020 are escaped, the
/// latter by their short forms where JSON has them and as `\u00xx` otherwise, that every other
/// character stands for itself, and that quotes surround the whole. Writing a string to memory
/// does not fail.
#[verifier::external_body]
pub(crate) fn string(s: &str) -> (r: String)
    ensures
        r@ == quoted(s@),
{
    serde_json::to_string(s).unwrap()
}

/// Texts as a JSON array of strings.
pub fn strings(list: &Vec<String>) -> (r: String)
    ensures
        r@ == string_array(text::views(list@)),
{
    let ghost all = text::views(list@).map_values(|s: Seq<char>| quoted(s));
    let mut parts: Vec<String> = Vec::new();
    let mut i: usize = 0;
    while i < list.len()
        invariant
            all == text::views(list@).map_values(|s: Seq<char>| quoted(s)),
            i <= list.len(),
            text::views(parts@) == all.take(i as int),
        decreases list.len() - i,
    {
        let ghost before = text::views(parts@);
        parts.push(string(list[i].as_str()));
        i += 1;
        assert(text::views(parts@) =~= before.push(quoted(list@[i - 1]@)));
        assert(text::views(parts@) =~= all.take(i as int));
    }
    assert(all.take(all.len() as int) =~= all);
    let mut r: String = "[".to_owned();
    r.append(text::join(&parts, ",").as_str());
    r.append("]");
    r
}

// ---------------------------------------------------------------------------
// Laws
// ---------------------------------------------------------------------------

/// An array is its strings in order, with a comma between neighbours and brackets around them.
pub proof fn arrays_hold_their_strings(list: &Vec<String>, r: String)
    requires
        call_ensures(strings, (list,), r),
    ensures
        r@ == "["@ + text::joined(
            Seq::new(list@.len(), |i: int| quoted(list@[i]@)),
            ","@,
        ) + "]"@,
{
    assert(text::views(list@).map_values(|s: Seq<char>| quoted(s)) =~= Seq::new(
        list@.len(),
        |i: int| quoted(list@[i]@),
    ));
}

} // verus!
