//! `ReceiptStore`: which files hold receipts, where they lie, and in what order they are read.

use vstd::prelude::*;

use crate::order;
use crate::paths;
use crate::receipt::{self, Receipt, ReceiptView};
use crate::text;
use crate::time::{self, Civil};

verus! {

/// A directory of receipt files, one file per receipt, named after its moment.
#[derive(Debug, Clone)]
pub struct ReceiptStore {
    dir: String,
}

impl View for ReceiptStore {
    type V = Seq<char>;

    closed spec fn view(&self) -> Seq<char> {
        self.dir@
    }
}

/// A file of the store's directory.
#[derive(Debug)]
pub struct StoredFile {
    /// The file's name, without the directory.
    pub name: Vec<u8>,
    /// What the file holds, if it holds a receipt.
    pub receipt: Option<Receipt>,
}

/// The default directory of a store.
pub open spec fn default_dir(home: Option<Seq<char>>) -> Seq<char> {
    match home {
        Some(h) => paths::below(h, ".local/share/quicken/receipts"@),
        None => "/tmp/quicken-receipts"@,
    }
}

/// Whether a file is taken for a receipt: its name is something followed by `.json`.
pub open spec fn is_receipt_name(name: Seq<u8>) -> bool {
    name.len() > 5 && name.skip(name.len() - 5) == seq![46u8, 106, 115, 111, 110]
}

/// The names of a list of files.
pub open spec fn names_of(files: Seq<StoredFile>) -> Seq<Seq<u8>> {
    files.map_values(|f: StoredFile| f.name@)
}

/// Whether `list` numbers the receipt files among `names`, each once, sorted by name.
pub open spec fn is_load_order(names: Seq<Seq<u8>>, list: Seq<int>) -> bool {
    &&& list.no_duplicates()
    &&& forall|k: int|
        0 <= k < list.len() ==> 0 <= #[trigger] list[k] < names.len() && is_receipt_name(
            names[list[k]],
        )
    &&& forall|i: int|
        0 <= i < names.len() && is_receipt_name(#[trigger] names[i]) ==> list.contains(i)
    &&& forall|j: int, k: int|
        0 <= j < k < list.len() ==> !order::precedes(
            order::byte_values(names[#[trigger] list[k]]),
            order::byte_values(names[#[trigger] list[j]]),
        )
}

/// The receipts among the files that `list` numbers, in its order.
pub open spec fn receipts_in(files: Seq<StoredFile>, list: Seq<int>) -> Seq<ReceiptView>
    decreases list.len(),
{
    if list.len() == 0 {
        Seq::empty()
    } else {
        let before = receipts_in(files, list.drop_last());
        match files[list.last()].receipt {
            Some(r) => before.push(r@),
            None => before,
        }
    }
}

/// The last of a list of receipts, if there is one.
pub open spec fn last_of(receipts: Seq<ReceiptView>) -> Option<ReceiptView> {
    if receipts.len() > 0 {
        Some(receipts.last())
    } else {
        None
    }
}

/// The numbers in a list of indices.
pub open spec fn numbers(list: Seq<usize>) -> Seq<int> {
    list.map_values(|i: usize| i as int)
}

/// Whether a file is taken for a receipt.
pub fn names_receipt(name: &Vec<u8>) -> (r: bool)
    ensures
        r == is_receipt_name(name@),
{
    let n: usize = name.len();
    let r: bool = n > 5 && name[n - 5] == 46 && name[n - 4] == 106 && name[n - 3] == 115 && name[n
        - 2] == 111 && name[n - 1] == 110;
    proof {
        if n > 5 {
            let tail = name@.skip(n - 5);
            assert(tail.len() == 5);
            assert(tail[0] == name@[n - 5] && tail[1] == name@[n - 4] && tail[2] == name@[n - 3]
                && tail[3] == name@[n - 2] && tail[4] == name@[n - 1]);
            let json = seq![46u8, 106, 115, 111, 110];
            assert(json[0] == 46 && json[1] == 106 && json[2] == 115 && json[3] == 111 && json[4]
                == 110);
            if r {
                assert(tail =~= json);
            }
        }
    }
    r
}

/// Whether `list` is sorted by the names of the files that it numbers.
spec fn is_sorted(names: Seq<Seq<u8>>, list: Seq<int>) -> bool {
    forall|j: int, k: int|
        0 <= j < k < list.len() ==> !order::precedes(
            order::byte_values(names[#[trigger] list[k]]),
            order::byte_values(names[#[trigger] list[j]]),
        )
}

proof fn inserting_keeps_sorted(names: Seq<Seq<u8>>, list: Seq<int>, at: int, i: int)
    requires
        is_sorted(names, list),
        0 <= at <= list.len(),
        forall|k: int|
            0 <= k < at ==> !order::precedes(
                order::byte_values(names[i]),
                order::byte_values(names[#[trigger] list[k]]),
            ),
        at < list.len() ==> order::precedes(
            order::byte_values(names[i]),
            order::byte_values(names[list[at]]),
        ),
    ensures
        is_sorted(names, list.insert(at, i)),
{
    let new = list.insert(at, i);
    let name = order::byte_values(names[i]);
    assert forall|j: int, k: int| 0 <= j < k < new.len() implies !order::precedes(
        order::byte_values(names[#[trigger] new[k]]),
        order::byte_values(names[#[trigger] new[j]]),
    ) by {
        if j == at {
            // The one behind is at or after the first that `i` precedes.
            let behind = order::byte_values(names[list[k - 1]]);
            let first = order::byte_values(names[list[at]]);
            if order::precedes(behind, name) {
                order::precedes_is_transitive(behind, name, first);
                order::precedes_is_total(behind, first);
                assert(k - 1 == at || !order::precedes(behind, first));
            }
        } else if k == at {
            assert(new[j] == list[j]);
        } else {
            let jj = if j < at { j } else { j - 1 };
            let kk = if k < at { k } else { k - 1 };
            assert(new[j] == list[jj]);
            assert(new[k] == list[kk]);
        }
    }
}

/// The numbers of the receipt files among `files`, sorted by name.
pub fn load_order(files: &Vec<StoredFile>) -> (r: Vec<usize>)
    ensures
        is_load_order(names_of(files@), numbers(r@)),
{
    let ghost all = names_of(files@);
    let mut r: Vec<usize> = Vec::new();
    let mut i: usize = 0;
    while i < files.len()
        invariant
            all == names_of(files@),
            i <= files.len(),
            r.len() <= i,
            forall|k: int|
                0 <= k < r.len() ==> (#[trigger] numbers(r@)[k]) < i && is_receipt_name(
                    all[numbers(r@)[k]],
                ),
            numbers(r@).no_duplicates(),
            forall|j: int|
                0 <= j < i && is_receipt_name(#[trigger] all[j]) ==> numbers(r@).contains(j),
            is_sorted(all, numbers(r@)),
        decreases files.len() - i,
    {
        if names_receipt(&files[i].name) {
            let mut at: usize = 0;
            assert forall|k: int| 0 <= k < r.len() implies #[trigger] r@[k] < i by {
                assert(numbers(r@)[k] == r@[k]);
            }
            while at < r.len() && !order::bytes_precede(&files[i].name, &files[r[at]].name)
                invariant
                    all == names_of(files@),
                    i < files.len(),
                    at <= r.len(),
                    forall|k: int| 0 <= k < r.len() ==> #[trigger] r@[k] < i,
                    forall|k: int|
                        0 <= k < at ==> !order::precedes(
                            order::byte_values(all[i as int]),
                            order::byte_values(all[#[trigger] numbers(r@)[k]]),
                        ),
                decreases r.len() - at,
            {
                at += 1;
            }
            let ghost before = numbers(r@);
            proof {
                inserting_keeps_sorted(all, before, at as int, i as int);
            }
            r.insert(at, i);
            proof {
                assert(numbers(r@) =~= before.insert(at as int, i as int));
                assert forall|j: int| 0 <= j < i + 1 && is_receipt_name(
                    #[trigger] all[j],
                ) implies numbers(r@).contains(j) by {
                    if j == i {
                        assert(numbers(r@)[at as int] == j);
                    } else {
                        let k = choose|k: int| 0 <= k < before.len() && before[k] == j;
                        assert(numbers(r@)[if k < at {
                            k
                        } else {
                            k + 1
                        }] == j);
                    }
                }
            }
        }
        i += 1;
    }
    r
}

impl ReceiptStore {
    /// A store in `dir`.
    #[must_use]
    pub fn new(dir: &str) -> (r: Self)
        ensures
            r@ == dir@,
    {
        ReceiptStore { dir: dir.to_owned() }
    }

    /// The default directory: `.local/share/quicken/receipts` below the home directory.
    ///
    /// Without a home directory it is `/tmp/quicken-receipts`.
    #[must_use]
    pub fn default_path(home: Option<&str>) -> (r: String)
        ensures
            r@ == default_dir(text::opt_view(home)),
    {
        match home {
            Some(h) => paths::join(h, ".local/share/quicken/receipts"),
            None => "/tmp/quicken-receipts".to_owned(),
        }
    }

    /// The directory of this store.
    #[must_use]
    pub fn dir(&self) -> (r: &str)
        ensures
            r@ == self@,
    {
        self.dir.as_str()
    }

    /// Where a receipt is written.
    #[must_use]
    pub fn path_for(&self, r: &Receipt) -> (path: String)
        ensures
            path@ == paths::below(self@, receipt::file_name(r@.taken_at)),
    {
        paths::join(self.dir.as_str(), r.filename().as_str())
    }

    /// The receipts in the files of the directory, oldest first.
    ///
    /// Files that are not named like receipts, and those that hold none, are passed over.
    #[must_use]
    pub fn load_all(files: &Vec<StoredFile>) -> (r: Vec<Receipt>)
        ensures
            exists|list: Seq<int>|
                #[trigger] is_load_order(names_of(files@), list) && text::views(r@) == receipts_in(
                    files@,
                    list,
                ),
            names_of(files@).no_duplicates() ==> forall|list: Seq<int>| #[trigger]
                is_load_order(names_of(files@), list) ==> text::views(r@) == receipts_in(
                    files@,
                    list,
                ),
    {
        let list: Vec<usize> = load_order(files);
        let ghost all = numbers(list@);
        let mut r: Vec<Receipt> = Vec::new();
        let mut k: usize = 0;
        assert(text::views(r@) =~= receipts_in(files@, all.take(0)));
        while k < list.len()
            invariant
                all == numbers(list@),
                is_load_order(names_of(files@), all),
                k <= list.len(),
                text::views(r@) == receipts_in(files@, all.take(k as int)),
            decreases list.len() - k,
        {
            assert(all[k as int] < names_of(files@).len());
            proof {
                assert(all.take(k + 1).drop_last() =~= all.take(k as int));
                assert(all.take(k + 1).last() == list@[k as int]);
            }
            if let Some(receipt) = &files[list[k]].receipt {
                let ghost before = text::views(r@);
                r.push(receipt.clone());
                assert(text::views(r@) =~= before.push(receipt@));
            }
            k += 1;
        }
        proof {
            assert(all.take(all.len() as int) =~= all);
            if names_of(files@).no_duplicates() {
                assert forall|other: Seq<int>| #[trigger]
                    is_load_order(names_of(files@), other) implies text::views(r@) == receipts_in(
                    files@,
                    other,
                ) by {
                    load_order_is_unique(names_of(files@), all, other);
                }
            }
        }
        r
    }

    /// The receipt of the last file that holds one.
    #[must_use]
    pub fn load_latest(files: &Vec<StoredFile>) -> (r: Option<Receipt>)
        ensures
            exists|list: Seq<int>|
                #[trigger] is_load_order(names_of(files@), list) && text::opt_view(r) == last_of(
                    receipts_in(files@, list),
                ),
            names_of(files@).no_duplicates() ==> forall|list: Seq<int>| #[trigger]
                is_load_order(names_of(files@), list) ==> text::opt_view(r) == last_of(
                    receipts_in(files@, list),
                ),
    {
        let mut all: Vec<Receipt> = ReceiptStore::load_all(files);
        let ghost list = choose|list: Seq<int>| #[trigger]
            is_load_order(names_of(files@), list) && text::views(all@) == receipts_in(files@, list);
        assert(text::views(all@) == receipts_in(files@, list));
        let ghost loaded = text::views(all@);
        let r: Option<Receipt> = all.pop();
        assert(text::opt_view(r) == last_of(loaded));
        r
    }
}

// ---------------------------------------------------------------------------
// Laws
// ---------------------------------------------------------------------------

/// What the store names a file after a receipt, it takes for a receipt.
pub proof fn receipts_are_found_again(taken_at: Civil)
    requires
        time::is_moment(taken_at),
    ensures
        is_receipt_name(vstd::utf8::encode_utf8(receipt::file_name(taken_at))),
{
    let s = receipt::file_name(taken_at);
    let name = vstd::utf8::encode_utf8(s);
    order::names_are_their_bytes(taken_at);
    reveal_strlit(".json");
    reveal_strlit("Z");
    assert(time::file_stamp_text(taken_at).len() > 0);
    assert(order::byte_values(name).len() == order::codes(s).len());
    assert forall|i: int| 0 <= i < name.len() implies name[i] == s[i] as int by {
        assert(order::byte_values(name)[i] == name[i] as int);
        assert(order::codes(s)[i] == s[i] as int);
    }
    assert(name.skip(name.len() - 5) =~= seq![46u8, 106, 115, 111, 110]);
}

/// Files named after their receipts are read oldest first.
///
/// `times` are the moments that the files are named after. Holds for the years that take four
/// digits; receipts of the same millisecond are not told apart.
pub proof fn load_order_is_chronological(
    names: Seq<Seq<u8>>,
    times: Seq<Civil>,
    list: Seq<int>,
    j: int,
    k: int,
)
    requires
        is_load_order(names, list),
        names.len() == times.len(),
        forall|i: int|
            0 <= i < names.len() ==> {
                &&& time::is_moment(#[trigger] times[i])
                &&& 0 <= times[i].year <= 9999
                &&& names[i] == vstd::utf8::encode_utf8(receipt::file_name(times[i]))
            },
        0 <= j < k < list.len(),
    ensures
        !order::earlier_millisecond(times[list[k]], times[list[j]]),
{
    let a = times[list[j]];
    let b = times[list[k]];
    order::file_names_sort_by_time(b, a);
}

proof fn receipts_are_in(files: Seq<StoredFile>, list: Seq<int>, k: int)
    requires
        0 <= k < list.len(),
        files[list[k]].receipt is Some,
    ensures
        receipts_in(files, list).contains(files[list[k]].receipt->0@),
    decreases list.len(),
{
    let rest = list.drop_last();
    let before = receipts_in(files, rest);
    let all = receipts_in(files, list);
    let r = files[list[k]].receipt->0@;
    if k < rest.len() {
        receipts_are_in(files, rest, k);
        let j = choose|j: int| 0 <= j < before.len() && before[j] == r;
        assert(all[j] == r);
    } else {
        assert(all[before.len() as int] == r);
    }
}

/// The receipt in a file that is named after it is among those that are loaded, wherever the
/// directory lists the file.
pub proof fn a_stored_receipt_is_loaded(files: Seq<StoredFile>, at: int, list: Seq<int>)
    requires
        0 <= at < files.len(),
        files[at].receipt is Some,
        time::is_moment(files[at].receipt->0@.taken_at),
        files[at].name@ == vstd::utf8::encode_utf8(
            receipt::file_name(files[at].receipt->0@.taken_at),
        ),
        is_load_order(names_of(files), list),
    ensures
        receipts_in(files, list).contains(files[at].receipt->0@),
{
    receipts_are_found_again(files[at].receipt->0@.taken_at);
    assert(names_of(files)[at] == files[at].name@);
    assert(list.contains(at));
    let k = choose|k: int| 0 <= k < list.len() && list[k] == at;
    receipts_are_in(files, list, k);
}

/// The receipt in a file that is named after it is the latest one, where every other file is named
/// after an earlier millisecond, wherever the directory lists the file.
///
/// `times` are the moments that the files are named after. Holds for the years that take four
/// digits.
pub proof fn the_newest_receipt_is_the_latest(
    files: Seq<StoredFile>,
    times: Seq<Civil>,
    at: int,
    list: Seq<int>,
)
    requires
        0 <= at < files.len(),
        files.len() == times.len(),
        files[at].receipt is Some,
        files[at].receipt->0@.taken_at == times[at],
        forall|i: int|
            0 <= i < files.len() ==> {
                &&& time::is_moment(#[trigger] times[i])
                &&& 0 <= times[i].year <= 9999
                &&& files[i].name@ == vstd::utf8::encode_utf8(receipt::file_name(times[i]))
                &&& i != at ==> order::earlier_millisecond(times[i], times[at])
            },
        is_load_order(names_of(files), list),
    ensures
        last_of(receipts_in(files, list)) == Some(files[at].receipt->0@),
{
    let names = names_of(files);
    receipts_are_found_again(times[at]);
    assert(names[at] == files[at].name@);
    assert(list.contains(at));
    let k = choose|k: int| 0 <= k < list.len() && list[k] == at;
    let last = list.len() - 1;
    if k < last {
        let i = list[last];
        assert(0 <= i < names.len());
        assert(i != at);
        assert(names[i] == files[i].name@);
        order::file_names_sort_by_time(times[i], times[at]);
        assert(!order::precedes(
            order::byte_values(names[list[last]]),
            order::byte_values(names[list[k]]),
        ));
    }
    assert(list.last() == at);
}

proof fn byte_values_tell_names_apart(a: Seq<u8>, b: Seq<u8>)
    requires
        order::byte_values(a) == order::byte_values(b),
    ensures
        a == b,
{
    assert(order::byte_values(a).len() == a.len());
    assert(order::byte_values(b).len() == b.len());
    assert forall|i: int| 0 <= i < a.len() implies a[i] == b[i] by {
        assert(order::byte_values(a)[i] == a[i] as int);
        assert(order::byte_values(b)[i] == b[i] as int);
    }
    assert(a =~= b);
}

proof fn sorted_lists_agree(names: Seq<Seq<u8>>, x: Seq<int>, y: Seq<int>)
    requires
        names.no_duplicates(),
        x.no_duplicates(),
        y.no_duplicates(),
        is_sorted(names, x),
        is_sorted(names, y),
        forall|k: int| 0 <= k < x.len() ==> 0 <= #[trigger] x[k] < names.len(),
        forall|i: int| x.contains(i) <==> y.contains(i),
    ensures
        x == y,
    decreases x.len(),
{
    if x.len() == 0 {
        if y.len() > 0 {
            assert(y.contains(y[0]));
            assert(x.contains(y[0]));
        }
        assert(x =~= y);
    } else {
        let m = x.last();
        assert(x[x.len() - 1] == m);
        assert(y.contains(m));
        let n = y.last();
        assert(y[y.len() - 1] == n);
        assert(x.contains(n));
        let j = choose|j: int| 0 <= j < y.len() && y[j] == m;
        let k = choose|k: int| 0 <= k < x.len() && x[k] == n;
        if m != n {
            let a = order::byte_values(names[m]);
            let b = order::byte_values(names[n]);
            assert(!order::precedes(
                order::byte_values(names[x[x.len() - 1]]),
                order::byte_values(names[x[k]]),
            ));
            assert(!order::precedes(
                order::byte_values(names[y[y.len() - 1]]),
                order::byte_values(names[y[j]]),
            ));
            order::precedes_is_total(a, b);
            byte_values_tell_names_apart(names[m], names[n]);
            assert(false);
        }
        let xs = x.drop_last();
        let ys = y.drop_last();
        assert forall|i: int| xs.contains(i) <==> ys.contains(i) by {
            if xs.contains(i) {
                let p = choose|p: int| 0 <= p < xs.len() && xs[p] == i;
                assert(x[p] == i && x[x.len() - 1] == m);
                assert(x.contains(i));
                assert(y.contains(i));
                let q = choose|q: int| 0 <= q < y.len() && y[q] == i;
                assert(q < ys.len());
                assert(ys[q] == i);
            }
            if ys.contains(i) {
                let p = choose|p: int| 0 <= p < ys.len() && ys[p] == i;
                assert(y[p] == i && y[y.len() - 1] == m);
                assert(y.contains(i));
                assert(x.contains(i));
                let q = choose|q: int| 0 <= q < x.len() && x[q] == i;
                assert(q < xs.len());
                assert(xs[q] == i);
            }
        }
        sorted_lists_agree(names, xs, ys);
        assert(x =~= xs.push(m));
        assert(y =~= ys.push(n));
    }
}

/// A directory has one load order only, since no two of its files have the same name.
pub proof fn load_order_is_unique(names: Seq<Seq<u8>>, x: Seq<int>, y: Seq<int>)
    requires
        names.no_duplicates(),
        is_load_order(names, x),
        is_load_order(names, y),
    ensures
        x == y,
{
    assert forall|i: int| x.contains(i) <==> y.contains(i) by {
        if x.contains(i) {
            let k = choose|k: int| 0 <= k < x.len() && x[k] == i;
            assert(is_receipt_name(names[x[k]]));
        }
        if y.contains(i) {
            let k = choose|k: int| 0 <= k < y.len() && y[k] == i;
            assert(is_receipt_name(names[y[k]]));
        }
    }
    sorted_lists_agree(names, x, y);
}

/// Whether two files have the same name and hold the same.
pub open spec fn same_file(a: StoredFile, b: StoredFile) -> bool {
    a.name@ == b.name@ && text::opt_view(a.receipt) == text::opt_view(b.receipt)
}

/// Whether a listing shows a file.
pub open spec fn lists(files: Seq<StoredFile>, file: StoredFile) -> bool {
    exists|j: int| 0 <= j < files.len() && same_file(#[trigger] files[j], file)
}

/// Whether two listings show the same files, in whatever order, none of them twice.
pub open spec fn same_files(x: Seq<StoredFile>, y: Seq<StoredFile>) -> bool {
    &&& names_of(x).no_duplicates()
    &&& names_of(y).no_duplicates()
    &&& forall|i: int| 0 <= i < x.len() ==> lists(y, #[trigger] x[i])
    &&& forall|i: int| 0 <= i < y.len() ==> lists(x, #[trigger] y[i])
}

/// Where a listing shows a file.
spec fn place(files: Seq<StoredFile>, file: StoredFile) -> int {
    choose|j: int| 0 <= j < files.len() && same_file(#[trigger] files[j], file)
}

proof fn receipts_of_relisted_files(
    x: Seq<StoredFile>,
    y: Seq<StoredFile>,
    p: Seq<int>,
    q: Seq<int>,
)
    requires
        p.len() == q.len(),
        forall|k: int|
            0 <= k < p.len() ==> text::opt_view(x[#[trigger] p[k]].receipt) == text::opt_view(
                y[q[k]].receipt,
            ),
    ensures
        receipts_in(x, p) == receipts_in(y, q),
    decreases p.len(),
{
    if p.len() > 0 {
        let ps = p.drop_last();
        let qs = q.drop_last();
        assert forall|k: int| 0 <= k < ps.len() implies text::opt_view(x[#[trigger] ps[k]].receipt)
            == text::opt_view(y[qs[k]].receipt) by {
            assert(ps[k] == p[k] && qs[k] == q[k]);
        }
        receipts_of_relisted_files(x, y, ps, qs);
        let a = x[p[p.len() - 1]].receipt;
        let b = y[q[p.len() - 1]].receipt;
        assert(text::opt_view(a) == text::opt_view(b));
    }
}

/// The load order of another listing of the same files.
proof fn relisted(x: Seq<StoredFile>, y: Seq<StoredFile>, list: Seq<int>) -> (r: Seq<int>)
    requires
        same_files(x, y),
        is_load_order(names_of(y), list),
    ensures
        is_load_order(names_of(x), r),
        receipts_in(x, r) == receipts_in(y, list),
{
    let xs = names_of(x);
    let ys = names_of(y);
    let r = list.map_values(|j: int| place(x, y[j]));
    assert forall|k: int| 0 <= k < r.len() implies 0 <= #[trigger] r[k] < x.len() && same_file(
        x[r[k]],
        y[list[k]],
    ) && xs[r[k]] == ys[list[k]] by {
        assert(0 <= list[k] < ys.len());
        assert(lists(x, y[list[k]]));
    }
    assert forall|i: int| 0 <= i < xs.len() && is_receipt_name(
        #[trigger] xs[i],
    ) implies r.contains(i) by {
        assert(lists(y, x[i]));
        let j = choose|j: int| 0 <= j < y.len() && same_file(#[trigger] y[j], x[i]);
        assert(ys[j] == xs[i]);
        assert(list.contains(j));
        let k = choose|k: int| 0 <= k < list.len() && list[k] == j;
        assert(xs[r[k]] == xs[i]);
        assert(r[k] == i);
    }
    assert(r.no_duplicates()) by {
        assert forall|j: int, k: int| 0 <= j < r.len() && 0 <= k < r.len() && j != k implies r[j]
            != r[k] by {
            assert(list[j] != list[k]);
            assert(ys[list[j]] != ys[list[k]]);
            assert(xs[r[j]] == ys[list[j]] && xs[r[k]] == ys[list[k]]);
        }
    }
    assert forall|j: int, k: int| 0 <= j < k < r.len() implies !order::precedes(
        order::byte_values(xs[#[trigger] r[k]]),
        order::byte_values(xs[#[trigger] r[j]]),
    ) by {
        assert(xs[r[j]] == ys[list[j]] && xs[r[k]] == ys[list[k]]);
    }
    assert forall|k: int| 0 <= k < r.len() implies text::opt_view(x[#[trigger] r[k]].receipt)
        == text::opt_view(y[list[k]].receipt) by {
        assert(same_file(x[r[k]], y[list[k]]));
    }
    receipts_of_relisted_files(x, y, r, list);
    r
}

/// In whatever order a directory lists its files, the same receipts are loaded in the same order.
pub proof fn the_listing_order_does_not_matter(
    x: Seq<StoredFile>,
    y: Seq<StoredFile>,
    p: Seq<int>,
    q: Seq<int>,
)
    requires
        same_files(x, y),
        is_load_order(names_of(x), p),
        is_load_order(names_of(y), q),
    ensures
        receipts_in(x, p) == receipts_in(y, q),
{
    let r = relisted(x, y, q);
    load_order_is_unique(names_of(x), p, r);
}

proof fn receipts_in_parts(files: Seq<StoredFile>, x: Seq<int>, y: Seq<int>)
    ensures
        receipts_in(files, x + y) == receipts_in(files, x) + receipts_in(files, y),
    decreases y.len(),
{
    if y.len() == 0 {
        assert(x + y =~= x);
        assert(receipts_in(files, x) + receipts_in(files, y) =~= receipts_in(files, x));
    } else {
        receipts_in_parts(files, x, y.drop_last());
        assert((x + y).drop_last() =~= x + y.drop_last());
        assert((x + y).last() == y.last());
        assert(receipts_in(files, x + y) =~= receipts_in(files, x) + receipts_in(files, y));
    }
}

proof fn receipts_of_earlier_files(files: Seq<StoredFile>, file: StoredFile, list: Seq<int>)
    requires
        forall|k: int| 0 <= k < list.len() ==> 0 <= #[trigger] list[k] < files.len(),
    ensures
        receipts_in(files.push(file), list) == receipts_in(files, list),
    decreases list.len(),
{
    if list.len() > 0 {
        let rest = list.drop_last();
        assert forall|k: int| 0 <= k < rest.len() implies 0 <= #[trigger] rest[k] < files.len() by {
            assert(rest[k] == list[k]);
        }
        assert(list[list.len() - 1] == list.last());
        receipts_of_earlier_files(files, file, rest);
    }
}

proof fn without_the_last_file(names: Seq<Seq<u8>>, name: Seq<u8>, list: Seq<int>, at: int)
    requires
        is_load_order(names.push(name), list),
        0 <= at < list.len(),
        list[at] == names.len(),
    ensures
        is_load_order(names, list.remove(at)),
{
    let all = names.push(name);
    let rest = list.remove(at);
    let n = names.len() as int;
    assert forall|k: int| 0 <= k < rest.len() implies 0 <= #[trigger] rest[k] < names.len()
        && is_receipt_name(names[rest[k]]) by {
        let m = if k < at { k } else { k + 1 };
        assert(rest[k] == list[m]);
        assert(list[m] != list[at]);
        assert(all[list[m]] == names[list[m]]);
    }
    assert forall|i: int| 0 <= i < names.len() && is_receipt_name(
        #[trigger] names[i],
    ) implies rest.contains(i) by {
        assert(all[i] == names[i]);
        assert(list.contains(i));
        let m = choose|m: int| 0 <= m < list.len() && list[m] == i;
        assert(rest[if m < at { m } else { m - 1 }] == i);
    }
    assert forall|j: int, k: int| 0 <= j < k < rest.len() implies !order::precedes(
        order::byte_values(names[#[trigger] rest[k]]),
        order::byte_values(names[#[trigger] rest[j]]),
    ) by {
        let p = if j < at { j } else { j + 1 };
        let q = if k < at { k } else { k + 1 };
        assert(rest[j] == list[p] && rest[k] == list[q]);
        assert(all[list[p]] == names[rest[j]] && all[list[q]] == names[rest[k]]);
    }
    assert(rest.no_duplicates()) by {
        assert forall|j: int, k: int| 0 <= j < rest.len() && 0 <= k < rest.len() && j
            != k implies rest[j] != rest[k] by {
            let p = if j < at { j } else { j + 1 };
            let q = if k < at { k } else { k + 1 };
            assert(rest[j] == list[p] && rest[k] == list[q]);
        }
    }
}

proof fn one_more_file_joins_the_others(
    files: Seq<StoredFile>,
    file: StoredFile,
    before: Seq<int>,
    after: Seq<int>,
)
    requires
        file.receipt is Some,
        is_receipt_name(file.name@),
        names_of(files).no_duplicates(),
        is_load_order(names_of(files), before),
        is_load_order(names_of(files.push(file)), after),
    ensures
        exists|at: int|
            0 <= at <= receipts_in(files, before).len() && receipts_in(files.push(file), after)
                == #[trigger] receipts_in(files, before).insert(at, file.receipt->0@),
{
    let all = files.push(file);
    let n = files.len() as int;
    let r = file.receipt->0@;
    assert(names_of(all) =~= names_of(files).push(file.name@));
    assert(names_of(all)[n] == file.name@);
    assert(after.contains(n));
    let at = choose|at: int| 0 <= at < after.len() && after[at] == n;
    without_the_last_file(names_of(files), file.name@, after, at);
    load_order_is_unique(names_of(files), before, after.remove(at));
    let head = after.take(at);
    let tail = after.skip(at + 1);
    assert(before =~= head + tail);
    assert(after =~= head + seq![n] + tail);
    assert forall|k: int| 0 <= k < before.len() implies 0 <= #[trigger] before[k] < n by {
        assert(before[k] < names_of(files).len());
    }
    assert forall|k: int| 0 <= k < head.len() implies 0 <= #[trigger] head[k] < n by {
        assert(head[k] == before[k]);
    }
    assert forall|k: int| 0 <= k < tail.len() implies 0 <= #[trigger] tail[k] < n by {
        assert(tail[k] == before[at + k]);
    }
    receipts_of_earlier_files(files, file, head);
    receipts_of_earlier_files(files, file, tail);
    receipts_in_parts(files, head, tail);
    receipts_in_parts(all, head + seq![n], tail);
    receipts_in_parts(all, head, seq![n]);
    let first = receipts_in(files, head);
    let rest = receipts_in(files, tail);
    assert(receipts_in(all, seq![n]) =~= seq![r]) by {
        assert(seq![n].drop_last() =~= Seq::<int>::empty());
        assert(receipts_in(all, Seq::<int>::empty()) =~= Seq::empty());
        assert(seq![n].last() == n && all[n] == file);
    }
    assert(first + seq![r] + rest =~= (first + rest).insert(first.len() as int, r));
}

/// Writing keeps what was there: after one more file, named after its receipt and unlike any
/// other, the receipts that were loaded before are loaded in their old order, and the new one
/// among them.
///
/// `now` is the directory with that file, in whatever order it is listed; `before` and `after` are
/// the load orders without and with the file.
pub proof fn one_more_receipt_joins_the_others(
    files: Seq<StoredFile>,
    file: StoredFile,
    now: Seq<StoredFile>,
    before: Seq<int>,
    after: Seq<int>,
)
    requires
        file.receipt is Some,
        time::is_moment(file.receipt->0@.taken_at),
        file.name@ == vstd::utf8::encode_utf8(receipt::file_name(file.receipt->0@.taken_at)),
        same_files(files.push(file), now),
        is_load_order(names_of(files), before),
        is_load_order(names_of(now), after),
    ensures
        exists|at: int|
            0 <= at <= receipts_in(files, before).len() && receipts_in(now, after)
                == #[trigger] receipts_in(files, before).insert(at, file.receipt->0@),
{
    let all = files.push(file);
    let names = names_of(all);
    assert(names =~= names_of(files).push(file.name@));
    assert(names_of(files).no_duplicates()) by {
        assert forall|i: int, j: int| 0 <= i < files.len() && 0 <= j < files.len() && i
            != j implies names_of(files)[i] != names_of(files)[j] by {
            assert(names[i] != names[j]);
        }
    }
    let r = relisted(all, now, after);
    receipts_are_found_again(file.receipt->0@.taken_at);
    one_more_file_joins_the_others(files, file, before, r);
}

proof fn a_file_without_a_receipt_is_passed_over(
    files: Seq<StoredFile>,
    file: StoredFile,
    before: Seq<int>,
    after: Seq<int>,
)
    requires
        file.receipt is None || !is_receipt_name(file.name@),
        names_of(files).no_duplicates(),
        is_load_order(names_of(files), before),
        is_load_order(names_of(files.push(file)), after),
    ensures
        receipts_in(files.push(file), after) == receipts_in(files, before),
{
    let all = files.push(file);
    let names = names_of(files);
    let n = files.len() as int;
    assert(names_of(all) =~= names.push(file.name@));
    assert(names_of(all)[n] == file.name@);
    if is_receipt_name(file.name@) {
        assert(after.contains(n));
        let at = choose|at: int| 0 <= at < after.len() && after[at] == n;
        without_the_last_file(names, file.name@, after, at);
        load_order_is_unique(names, before, after.remove(at));
        let head = after.take(at);
        let tail = after.skip(at + 1);
        assert(before =~= head + tail);
        assert(after =~= head + seq![n] + tail);
        assert forall|k: int| 0 <= k < before.len() implies 0 <= #[trigger] before[k] < n by {
            assert(before[k] < names.len());
        }
        assert forall|k: int| 0 <= k < head.len() implies 0 <= #[trigger] head[k] < n by {
            assert(head[k] == before[k]);
        }
        assert forall|k: int| 0 <= k < tail.len() implies 0 <= #[trigger] tail[k] < n by {
            assert(tail[k] == before[at + k]);
        }
        receipts_of_earlier_files(files, file, head);
        receipts_of_earlier_files(files, file, tail);
        receipts_in_parts(files, head, tail);
        receipts_in_parts(all, head + seq![n], tail);
        receipts_in_parts(all, head, seq![n]);
        assert(receipts_in(all, seq![n]) =~= Seq::empty()) by {
            assert(seq![n].drop_last() =~= Seq::<int>::empty());
            assert(receipts_in(all, Seq::<int>::empty()) =~= Seq::empty());
            assert(seq![n].last() == n && all[n] == file);
        }
        let first = receipts_in(files, head);
        let rest = receipts_in(files, tail);
        assert(first + Seq::empty() + rest =~= first + rest);
    } else {
        assert forall|k: int| 0 <= k < after.len() implies 0 <= #[trigger] after[k] < n
            && is_receipt_name(names[after[k]]) by {
            assert(is_receipt_name(names_of(all)[after[k]]));
            assert(names_of(all)[after[k]] == names[after[k]]);
        }
        assert forall|i: int| 0 <= i < names.len() && is_receipt_name(
            #[trigger] names[i],
        ) implies after.contains(i) by {
            assert(names_of(all)[i] == names[i]);
        }
        assert forall|j: int, k: int| 0 <= j < k < after.len() implies !order::precedes(
            order::byte_values(names[#[trigger] after[k]]),
            order::byte_values(names[#[trigger] after[j]]),
        ) by {
            assert(names_of(all)[after[j]] == names[after[j]]);
            assert(names_of(all)[after[k]] == names[after[k]]);
        }
        load_order_is_unique(names, before, after);
        receipts_of_earlier_files(files, file, after);
    }
}

/// Whether a file name is something followed by `.json`.
pub open spec fn ends_in_json(name: Seq<u8>) -> bool {
    let n = name.len();
    &&& n > 5
    &&& name[n - 5] == '.' as u8
    &&& name[n - 4] == 'j' as u8
    &&& name[n - 3] == 's' as u8
    &&& name[n - 2] == 'o' as u8
    &&& name[n - 1] == 'n' as u8
}

/// A file is taken for a receipt exactly where its name is something followed by `.json`.
pub proof fn receipts_are_json_files(name: &Vec<u8>, r: bool)
    requires
        call_ensures(names_receipt, (name,), r),
    ensures
        r == is_receipt_name(name@),
        r <==> ends_in_json(name@),
{
    json_names_are_receipt_names(name@);
}

proof fn json_names_are_receipt_names(name: Seq<u8>)
    ensures
        is_receipt_name(name) <==> ends_in_json(name),
{
    let n = name.len();
    let json = seq![46u8, 106, 115, 111, 110];
    if n > 5 {
        let tail = name.skip(n - 5);
        assert(tail[0] == name[n - 5] && tail[1] == name[n - 4] && tail[2] == name[n - 3]
            && tail[3] == name[n - 2] && tail[4] == name[n - 1]);
        assert(json[0] == 46 && json[1] == 106 && json[2] == 115 && json[3] == 111 && json[4]
            == 110);
        if ends_in_json(name) {
            assert(tail =~= json);
        }
    }
}

/// Without files nothing is loaded. One more file, unlike any other by name, changes nothing where
/// its name does not end in `.json` or it holds no receipt, and otherwise adds its receipt and
/// leaves the others in their order.
pub proof fn every_file_with_a_receipt_is_loaded_once(
    files: &Vec<StoredFile>,
    more: &Vec<StoredFile>,
    file: StoredFile,
    r: Vec<Receipt>,
    s: Vec<Receipt>,
)
    requires
        more@ == files@.push(file),
        names_of(more@).no_duplicates(),
        call_ensures(ReceiptStore::load_all, (files,), r),
        call_ensures(ReceiptStore::load_all, (more,), s),
    ensures
        files@.len() == 0 ==> r@.len() == 0,
        !ends_in_json(file.name@) || file.receipt is None ==> text::views(s@) == text::views(r@),
        ends_in_json(file.name@) && file.receipt is Some ==> exists|at: int|
            0 <= at <= r@.len() && text::views(s@) == #[trigger] text::views(r@).insert(
                at,
                file.receipt->0@,
            ),
{
    let before = choose|list: Seq<int>|
        #[trigger] is_load_order(names_of(files@), list) && text::views(r@) == receipts_in(
            files@,
            list,
        );
    let after = choose|list: Seq<int>|
        #[trigger] is_load_order(names_of(more@), list) && text::views(s@) == receipts_in(
            more@,
            list,
        );
    json_names_are_receipt_names(file.name@);
    assert(text::views(r@).len() == r@.len());
    let names = names_of(more@);
    assert(names =~= names_of(files@).push(file.name@));
    assert(names_of(files@).no_duplicates()) by {
        assert forall|i: int, j: int| 0 <= i < files@.len() && 0 <= j < files@.len() && i
            != j implies names_of(files@)[i] != names_of(files@)[j] by {
            assert(names[i] != names[j]);
        }
    }
    if files@.len() == 0 {
        if before.len() > 0 {
            assert(0 <= before[0] < names_of(files@).len());
        }
    }
    if is_receipt_name(file.name@) && file.receipt is Some {
        one_more_file_joins_the_others(files@, file, before, after);
    } else {
        a_file_without_a_receipt_is_passed_over(files@, file, before, after);
    }
}

proof fn receipts_keep_their_order(files: Seq<StoredFile>, list: Seq<int>, j: int, k: int) -> (at: (
    int,
    int,
))
    requires
        0 <= j < k < list.len(),
        files[list[j]].receipt is Some,
        files[list[k]].receipt is Some,
    ensures
        0 <= at.0 < at.1 < receipts_in(files, list).len(),
        receipts_in(files, list)[at.0] == files[list[j]].receipt->0@,
        receipts_in(files, list)[at.1] == files[list[k]].receipt->0@,
{
    let head = list.take(k);
    let tail = list.skip(k + 1);
    let one = seq![list[k]];
    assert(list =~= head + one + tail);
    receipts_in_parts(files, head + one, tail);
    receipts_in_parts(files, head, one);
    assert(one.drop_last() =~= Seq::<int>::empty());
    assert(receipts_in(files, Seq::<int>::empty()) =~= Seq::empty());
    assert(receipts_in(files, one) =~= seq![files[list[k]].receipt->0@]);
    assert(head[j] == list[j]);
    receipts_are_in(files, head, j);
    let first = receipts_in(files, head);
    let p = choose|p: int| 0 <= p < first.len() && first[p] == files[list[j]].receipt->0@;
    (p, first.len() as int)
}

/// Of two files with receipts, the one whose name comes first by its bytes is loaded first.
pub proof fn receipts_are_loaded_in_the_order_of_names(
    files: &Vec<StoredFile>,
    r: Vec<Receipt>,
    i: int,
    j: int,
    first: bool,
)
    requires
        call_ensures(ReceiptStore::load_all, (files,), r),
        0 <= i < files@.len(),
        0 <= j < files@.len(),
        ends_in_json(files@[i].name@),
        ends_in_json(files@[j].name@),
        files@[i].receipt is Some,
        files@[j].receipt is Some,
        call_ensures(order::bytes_precede, (&files@[i].name, &files@[j].name), first),
        first,
    ensures
        exists|p: int, q: int|
            0 <= p < q < r@.len() && (#[trigger] r@[p])@ == files@[i].receipt->0@ && (
            #[trigger] r@[q])@ == files@[j].receipt->0@,
{
    let names = names_of(files@);
    let list = choose|list: Seq<int>|
        #[trigger] is_load_order(names, list) && text::views(r@) == receipts_in(files@, list);
    json_names_are_receipt_names(files@[i].name@);
    json_names_are_receipt_names(files@[j].name@);
    assert(names[i] == files@[i].name@ && names[j] == files@[j].name@);
    assert(list.contains(i) && list.contains(j));
    let a = choose|a: int| 0 <= a < list.len() && list[a] == i;
    let b = choose|b: int| 0 <= b < list.len() && list[b] == j;
    order::precedes_is_total(order::byte_values(names[i]), order::byte_values(names[j]));
    assert(a != b);
    if b < a {
        assert(!order::precedes(
            order::byte_values(names[list[a]]),
            order::byte_values(names[list[b]]),
        ));
    }
    let (p, q) = receipts_keep_their_order(files@, list, a, b);
    assert(text::views(r@)[p] == r@[p]@ && text::views(r@)[q] == r@[q]@);
}

/// The load order numbers every file whose name ends in `.json` once, and no other, by the bytes of
/// their names.
pub proof fn json_files_are_ordered_by_name(
    files: &Vec<StoredFile>,
    r: Vec<usize>,
    i: int,
    j: int,
    k: int,
    behind: bool,
)
    requires
        call_ensures(load_order, (files,), r),
        0 <= i < files@.len(),
        0 <= j < k < r@.len(),
        call_ensures(
            order::bytes_precede,
            (&files@[r@[k] as int].name, &files@[r@[j] as int].name),
            behind,
        ),
    ensures
        ends_in_json(files@[i].name@) ==> r@.contains(i as usize),
        r@[j] < files@.len(),
        r@[k] < files@.len(),
        ends_in_json(files@[r@[j] as int].name@),
        r@[j] != r@[k],
        !behind,
{
    let names = names_of(files@);
    let list = numbers(r@);
    json_names_are_receipt_names(files@[i].name@);
    assert(names[i] == files@[i].name@);
    assert(list[j] == r@[j] && list[k] == r@[k]);
    assert(is_receipt_name(names[list[j]]) && is_receipt_name(names[list[k]]));
    json_names_are_receipt_names(names[list[j]]);
    assert(names[list[j]] == files@[r@[j] as int].name@);
    assert(names[list[k]] == files@[r@[k] as int].name@);
    if ends_in_json(files@[i].name@) {
        assert(list.contains(i));
        let p = choose|p: int| 0 <= p < list.len() && list[p] == i;
        assert(r@[p] == i as usize);
    }
}

/// The latest receipt is the last of all, and there is none exactly where there are none.
pub proof fn the_latest_is_the_last_of_all(
    files: &Vec<StoredFile>,
    all: Vec<Receipt>,
    latest: Option<Receipt>,
)
    requires
        names_of(files@).no_duplicates(),
        call_ensures(ReceiptStore::load_all, (files,), all),
        call_ensures(ReceiptStore::load_latest, (files,), latest),
    ensures
        latest is None <==> all@.len() == 0,
        latest is Some ==> latest->0@ == all@.last()@,
{
    let list = choose|list: Seq<int>|
        #[trigger] is_load_order(names_of(files@), list) && text::views(all@) == receipts_in(
            files@,
            list,
        );
    assert(text::views(all@).len() == all@.len());
    if all@.len() > 0 {
        assert(text::views(all@).last() == all@.last()@);
    }
}

/// A receipt is written below the directory of the store, in the file that is named after it, and
/// by default that directory is below the home directory, or in `/tmp` without one.
pub proof fn receipts_lie_in_the_directory(
    store: &ReceiptStore,
    dir: &str,
    r: &Receipt,
    name: String,
    path: String,
    home: Option<&str>,
    default: String,
)
    requires
        call_ensures(ReceiptStore::dir, (store,), dir),
        call_ensures(Receipt::filename, (r,), name),
        call_ensures(ReceiptStore::path_for, (store, r), path),
        call_ensures(ReceiptStore::default_path, (home,), default),
    ensures
        path@ == paths::below(dir@, name@),
        home is Some ==> default@ == paths::below(home->0@, ".local/share/quicken/receipts"@),
        home is None ==> default@ == "/tmp/quicken-receipts"@,
{
}

} // verus!
