//! Paths as text.

use vstd::prelude::*;

use crate::text;

verus! {

/// `base` with the relative path `rest` below it.
pub open spec fn below(base: Seq<char>, rest: Seq<char>) -> Seq<char> {
    if base.len() == 0 || base.last() == '/' {
        base + rest
    } else {
        base + "/"@ + rest
    }
}

/// `base` with the relative path `rest` below it.
pub fn join(base: &str, rest: &str) -> (r: String)
    ensures
        r@ == below(base@, rest@),
{
    let v: Vec<char> = text::chars_of(base);
    let mut r: String = base.to_owned();
    if v.len() > 0 && v[v.len() - 1] != '/' {
        r.append("/");
    }
    r.append(rest);
    r
}

// ---------------------------------------------------------------------------
// Laws
// ---------------------------------------------------------------------------

/// A path below another is that path, a slash unless it ends in one or is empty, and the rest.
pub proof fn one_slash_stands_between(base: &str, rest: &str, r: String)
    requires
        call_ensures(join, (base, rest), r),
    ensures
        r@ == below(base@, rest@),
        base@.len() == 0 ==> r@ == rest@,
        base@.len() > 0 && base@.last() == '/' ==> r@ == base@ + rest@,
        base@.len() > 0 && base@.last() != '/' ==> r@ == base@ + seq!['/'] + rest@,
{
    reveal_strlit("/");
    assert("/"@ =~= seq!['/']);
    if base@.len() == 0 {
        assert(base@ + rest@ =~= rest@);
    }
}

} // verus!
