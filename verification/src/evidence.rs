//! `Evidence`: the observations that a verdict was derived from.

use vstd::prelude::*;

use crate::text;

verus! {

/// A single key/value observation made during probing.
#[derive(Debug, PartialEq, Eq)]
pub struct EvidencePair {
    /// Short label, such as `dev_node_exists`.
    pub key: String,
    /// The observed value as text, such as `true`.
    pub value: String,
}

/// What an `EvidencePair` stands for.
pub struct PairView {
    pub key: Seq<char>,
    pub value: Seq<char>,
}

impl View for EvidencePair {
    type V = PairView;

    open spec fn view(&self) -> PairView {
        PairView { key: self.key@, value: self.value@ }
    }
}

impl Clone for EvidencePair {
    fn clone(&self) -> (r: Self)
        ensures
            r@ == self@,
    {
        EvidencePair { key: self.key.clone(), value: self.value.clone() }
    }
}

impl EvidencePair {
    /// A new key/value pair.
    pub fn new(key: &str, value: &str) -> (r: Self)
        ensures
            r@ == (PairView { key: key@, value: value@ }),
    {
        EvidencePair { key: key.to_owned(), value: value.to_owned() }
    }
}

/// The full evidence record attached to a report.
#[derive(Debug, PartialEq, Eq)]
pub struct Evidence {
    /// Key/value observations.
    pub pairs: Vec<EvidencePair>,
    /// Free-text detail for context that does not fit in pairs.
    pub detail: Option<String>,
}

/// What an `Evidence` stands for.
pub struct EvidenceView {
    pub pairs: Seq<PairView>,
    pub detail: Option<Seq<char>>,
}

impl EvidenceView {
    /// No observations.
    pub open spec fn empty() -> EvidenceView {
        EvidenceView { pairs: Seq::empty(), detail: None }
    }

    /// One more observation.
    pub open spec fn with(self, key: Seq<char>, value: Seq<char>) -> EvidenceView {
        EvidenceView { pairs: self.pairs.push(PairView { key, value }), detail: self.detail }
    }

    /// Another free-text detail.
    pub open spec fn with_detail(self, detail: Seq<char>) -> EvidenceView {
        EvidenceView { pairs: self.pairs, detail: Some(detail) }
    }
}

/// The value of the first pair with `key`.
pub open spec fn lookup(pairs: Seq<PairView>, key: Seq<char>) -> Option<Seq<char>>
    decreases pairs.len(),
{
    if pairs.len() == 0 {
        None
    } else if pairs[0].key == key {
        Some(pairs[0].value)
    } else {
        lookup(pairs.drop_first(), key)
    }
}

impl View for Evidence {
    type V = EvidenceView;

    open spec fn view(&self) -> EvidenceView {
        EvidenceView { pairs: text::views(self.pairs@), detail: text::opt_view(self.detail) }
    }
}

/// A copy of a list of pairs.
fn clone_pairs(pairs: &Vec<EvidencePair>) -> (r: Vec<EvidencePair>)
    ensures
        text::views(r@) == text::views(pairs@),
{
    let mut r: Vec<EvidencePair> = Vec::new();
    let mut i: usize = 0;
    while i < pairs.len()
        invariant
            i <= pairs.len(),
            r.len() == i,
            forall|j: int| 0 <= j < i ==> (#[trigger] r@[j])@ == pairs@[j]@,
        decreases pairs.len() - i,
    {
        r.push(pairs[i].clone());
        i += 1;
    }
    assert(text::views(r@) =~= text::views(pairs@));
    r
}

impl Clone for Evidence {
    fn clone(&self) -> (r: Self)
        ensures
            r@ == self@,
    {
        let detail: Option<String> = match &self.detail {
            Some(d) => Some(d.clone()),
            None => None,
        };
        Evidence { pairs: clone_pairs(&self.pairs), detail }
    }
}

impl Evidence {
    /// An empty evidence record.
    #[must_use]
    pub fn empty() -> (r: Self)
        ensures
            r@ == EvidenceView::empty(),
    {
        let r: Evidence = Evidence { pairs: Vec::new(), detail: None };
        assert(r@.pairs =~= Seq::empty());
        r
    }

    /// An evidence record with a single key/value pair.
    #[must_use]
    pub fn single(key: &str, value: &str) -> (r: Self)
        ensures
            r@ == EvidenceView::empty().with(key@, value@),
    {
        Evidence::empty().with(key, value)
    }

    /// Adds a key/value pair.
    #[must_use]
    pub fn with(self, key: &str, value: &str) -> (r: Self)
        ensures
            r@ == self@.with(key@, value@),
    {
        let mut pairs: Vec<EvidencePair> = self.pairs;
        let ghost before = text::views(pairs@);
        pairs.push(EvidencePair::new(key, value));
        assert(text::views(pairs@) =~= before.push(PairView { key: key@, value: value@ }));
        Evidence { pairs, detail: self.detail }
    }

    /// Sets the free-text detail.
    #[must_use]
    pub fn with_detail(self, detail: &str) -> (r: Self)
        ensures
            r@ == self@.with_detail(detail@),
    {
        Evidence { pairs: self.pairs, detail: Some(detail.to_owned()) }
    }

    /// The value of the first pair with `key`.
    #[must_use]
    pub fn get(&self, key: &str) -> (r: Option<&str>)
        ensures
            text::opt_view(r) == lookup(self@.pairs, key@),
    {
        let ghost all = self@.pairs;
        let mut i: usize = 0;
        assert(all.skip(0) =~= all);
        while i < self.pairs.len()
            invariant
                all == text::views(self.pairs@),
                i <= self.pairs.len(),
                lookup(all, key@) == lookup(all.skip(i as int), key@),
            decreases self.pairs.len() - i,
        {
            assert(all.skip(i as int)[0] == self.pairs@[i as int]@);
            if text::same(self.pairs[i].key.as_str(), key) {
                return Some(self.pairs[i].value.as_str());
            }
            assert(all.skip(i as int).drop_first() =~= all.skip(i + 1));
            i += 1;
        }
        None
    }
}

// ---------------------------------------------------------------------------
// Laws
// ---------------------------------------------------------------------------

/// What is recorded by a key is found by it, and later records do not hide earlier ones.
pub proof fn the_first_record_is_found(e: EvidenceView, key: Seq<char>, value: Seq<char>)
    ensures
        lookup(e.with(key, value).pairs, key) == match lookup(e.pairs, key) {
            Some(v) => Some(v),
            None => Some(value),
        },
    decreases e.pairs.len(),
{
    let pairs = e.with(key, value).pairs;
    if e.pairs.len() > 0 {
        let rest = EvidenceView { pairs: e.pairs.drop_first(), detail: e.detail };
        the_first_record_is_found(rest, key, value);
        assert(pairs.drop_first() =~= rest.with(key, value).pairs);
    } else {
        assert(pairs.drop_first() =~= Seq::empty());
        assert(pairs[0].key == key);
    }
}

/// A record by one key changes nothing about the others.
pub proof fn records_do_not_interfere(
    e: EvidenceView,
    key: Seq<char>,
    value: Seq<char>,
    other: Seq<char>,
)
    requires
        other != key,
    ensures
        lookup(e.with(key, value).pairs, other) == lookup(e.pairs, other),
    decreases e.pairs.len(),
{
    let pairs = e.with(key, value).pairs;
    if e.pairs.len() > 0 {
        let rest = EvidenceView { pairs: e.pairs.drop_first(), detail: e.detail };
        records_do_not_interfere(rest, key, value, other);
        assert(pairs.drop_first() =~= rest.with(key, value).pairs);
    } else {
        assert(pairs.drop_first() =~= Seq::empty());
        assert(pairs[0].key == key);
        assert(lookup(pairs.drop_first(), other) is None);
    }
}

proof fn lookup_is_first(pairs: Seq<PairView>, key: Seq<char>)
    ensures
        match lookup(pairs, key) {
            Some(v) => exists|i: int|
                0 <= i < pairs.len() && (#[trigger] pairs[i]).key == key && pairs[i].value == v
                    && forall|j: int| 0 <= j < i ==> (#[trigger] pairs[j]).key != key,
            None => forall|j: int| 0 <= j < pairs.len() ==> (#[trigger] pairs[j]).key != key,
        },
    decreases pairs.len(),
{
    if pairs.len() > 0 {
        if pairs[0].key == key {
            assert(pairs[0].value == lookup(pairs, key)->0);
        } else {
            let rest = pairs.drop_first();
            lookup_is_first(rest, key);
            if lookup(rest, key) is Some {
                let v = lookup(rest, key)->0;
                let i = choose|i: int|
                    0 <= i < rest.len() && (#[trigger] rest[i]).key == key && rest[i].value == v
                        && forall|j: int| 0 <= j < i ==> (#[trigger] rest[j]).key != key;
                assert(pairs[i + 1] == rest[i]);
                assert forall|j: int| 0 <= j < i + 1 implies (#[trigger] pairs[j]).key != key by {
                    if j > 0 {
                        assert(rest[j - 1] == pairs[j]);
                    }
                }
            } else {
                assert forall|j: int| 0 <= j < pairs.len() implies (#[trigger] pairs[j]).key
                    != key by {
                    if j > 0 {
                        assert(rest[j - 1] == pairs[j]);
                    }
                }
            }
        }
    }
}

/// What is found by a key is the value of the first pair with it, and nothing is found exactly
/// where no pair has it.
pub proof fn the_first_pair_with_a_key_is_found(e: &Evidence, key: &str, r: Option<&str>)
    requires
        call_ensures(Evidence::get, (e, key), r),
    ensures
        text::opt_view(r) == lookup(e@.pairs, key@),
        r is None <==> forall|j: int|
            0 <= j < e.pairs@.len() ==> (#[trigger] e.pairs@[j]).key@ != key@,
        r is Some ==> exists|i: int|
            0 <= i < e.pairs@.len() && (#[trigger] e.pairs@[i]).key@ == key@
                && e.pairs@[i].value@ == r->0@ && forall|j: int|
                0 <= j < i ==> (#[trigger] e.pairs@[j]).key@ != key@,
{
    let pairs = e@.pairs;
    lookup_is_first(pairs, key@);
    assert forall|j: int| 0 <= j < pairs.len() implies #[trigger] e.pairs@[j]@ == pairs[j] by {}
    if r is Some {
        let i = choose|i: int|
            0 <= i < pairs.len() && (#[trigger] pairs[i]).key == key@ && pairs[i].value == r->0@
                && forall|j: int| 0 <= j < i ==> (#[trigger] pairs[j]).key != key@;
        assert(e.pairs@[i].key@ == key@);
        assert forall|j: int| 0 <= j < i implies (#[trigger] e.pairs@[j]).key@ != key@ by {
            assert(pairs[j].key != key@);
        }
    } else {
        assert forall|j: int| 0 <= j < e.pairs@.len() implies (#[trigger] e.pairs@[j]).key@
            != key@ by {
            assert(pairs[j].key != key@);
        }
    }
    if r is Some {
        let i = choose|i: int| 0 <= i < e.pairs@.len() && (#[trigger] e.pairs@[i]).key@ == key@;
        assert(!(forall|j: int|
            0 <= j < e.pairs@.len() ==> (#[trigger] e.pairs@[j]).key@ != key@));
    }
}

/// A new pair goes to the end and leaves everything else as it was; a detail leaves the pairs.
pub proof fn records_are_kept_in_order(
    e: Evidence,
    key: &str,
    value: &str,
    detail: &str,
    r: Evidence,
    d: Evidence,
)
    requires
        call_ensures(Evidence::with, (e, key, value), r),
        call_ensures(Evidence::with_detail, (e, detail), d),
    ensures
        r.pairs@.len() == e.pairs@.len() + 1,
        r.pairs@.last().key@ == key@,
        r.pairs@.last().value@ == value@,
        forall|i: int|
            0 <= i < e.pairs@.len() ==> (#[trigger] r.pairs@[i]).key@ == e.pairs@[i].key@
                && r.pairs@[i].value@ == e.pairs@[i].value@,
        text::opt_view(r.detail) == text::opt_view(e.detail),
        d.pairs@.len() == e.pairs@.len(),
        forall|i: int|
            0 <= i < e.pairs@.len() ==> (#[trigger] d.pairs@[i]).key@ == e.pairs@[i].key@
                && d.pairs@[i].value@ == e.pairs@[i].value@,
        text::opt_view(d.detail) == Some(detail@),
{
    assert(r@.pairs.len() == r.pairs@.len() && e@.pairs.len() == e.pairs@.len());
    assert(d@.pairs.len() == d.pairs@.len());
    let n = e.pairs@.len() as int;
    assert(r@.pairs[n] == r.pairs@[n]@);
    assert forall|i: int| 0 <= i < e.pairs@.len() implies (#[trigger] r.pairs@[i]).key@
        == e.pairs@[i].key@ && r.pairs@[i].value@ == e.pairs@[i].value@ by {
        assert(r@.pairs[i] == r.pairs@[i]@ && e@.pairs[i] == e.pairs@[i]@);
    }
    assert forall|i: int| 0 <= i < e.pairs@.len() implies (#[trigger] d.pairs@[i]).key@
        == e.pairs@[i].key@ && d.pairs@[i].value@ == e.pairs@[i].value@ by {
        assert(d@.pairs[i] == d.pairs@[i]@ && e@.pairs[i] == e.pairs@[i]@);
    }
}

} // verus!
