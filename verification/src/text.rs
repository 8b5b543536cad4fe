//! Text at the level of characters: comparing, trimming, joining, numbers in and out.

use vstd::prelude::*;

verus! {

/// The views of the elements of a sequence.
pub open spec fn views<T: View>(s: Seq<T>) -> Seq<T::V> {
    s.map_values(|x: T| x@)
}

/// The view of what an option holds.
pub open spec fn opt_view<T: View>(o: Option<T>) -> Option<T::V> {
    match o {
        Some(x) => Some(x@),
        None => None,
    }
}

// ---------------------------------------------------------------------------
// Comparing
// ---------------------------------------------------------------------------

/// Whether two strings hold the same characters.
pub fn same(a: &str, b: &str) -> (r: bool)
    ensures
        r == (a@ == b@),
{
    let x: String = a.to_owned();
    let y: String = b.to_owned();
    x == y
}

/// The characters of a string.
pub fn chars_of(s: &str) -> (v: Vec<char>)
    ensures
        v@ == s@,
{
    let mut v: Vec<char> = Vec::new();
    for c in it: s.chars()
        invariant
            it.seq() == s@,
            v@ == s@.take(it.index() as int),
    {
        proof {
            assert(s@.take(it.index() + 1) =~= s@.take(it.index() as int).push(
                s@[it.index() as int],
            ));
        }
        v.push(c);
    }
    assert(s@.take(s@.len() as int) =~= s@);
    v
}

/// A copy of a list of texts.
pub fn clone_texts(list: &Vec<String>) -> (r: Vec<String>)
    ensures
        views(r@) == views(list@),
{
    let mut r: Vec<String> = Vec::new();
    let mut i: usize = 0;
    while i < list.len()
        invariant
            i <= list.len(),
            r.len() == i,
            forall|j: int| 0 <= j < i ==> (#[trigger] r@[j])@ == list@[j]@,
        decreases list.len() - i,
    {
        r.push(list[i].clone());
        i += 1;
    }
    assert(views(r@) =~= views(list@));
    r
}

/// Whether `s` starts with `p`.
pub open spec fn starts_with(s: Seq<char>, p: Seq<char>) -> bool {
    p.len() <= s.len() && s.take(p.len() as int) == p
}

/// Whether `s` ends with `p`.
pub open spec fn ends_with(s: Seq<char>, p: Seq<char>) -> bool {
    p.len() <= s.len() && s.skip(s.len() - p.len()) == p
}

/// Whether `p` occurs in `s`.
pub open spec fn holds(s: Seq<char>, p: Seq<char>) -> bool {
    exists|at: int| 0 <= at <= s.len() && #[trigger] starts_with(s.skip(at), p)
}

/// Whether the characters of `v` from `at` on begin with those of `p`.
pub fn matches_at(v: &Vec<char>, at: usize, p: &str) -> (r: bool)
    requires
        at <= v@.len(),
    ensures
        r == starts_with(v@.skip(at as int), p@),
{
    let q: Vec<char> = chars_of(p);
    if q.len() > v.len() - at {
        return false;
    }
    let mut i: usize = 0;
    while i < q.len()
        invariant
            i <= q@.len(),
            q@ == p@,
            at + q.len() <= v.len(),
            forall|j: int| 0 <= j < i ==> v@[at + j] == q@[j],
        decreases q@.len() - i,
    {
        if v[at + i] != q[i] {
            assert(v@.skip(at as int).take(p@.len() as int)[i as int] == v@[at + i]);
            return false;
        }
        i += 1;
    }
    assert(v@.skip(at as int).take(p@.len() as int) =~= p@);
    true
}

/// Whether `s` starts with `p`.
pub fn has_prefix(s: &str, p: &str) -> (r: bool)
    ensures
        r == starts_with(s@, p@),
{
    let v: Vec<char> = chars_of(s);
    assert(v@.skip(0) =~= v@);
    matches_at(&v, 0, p)
}

/// Whether `s` ends with `p`.
pub fn has_suffix(s: &str, p: &str) -> (r: bool)
    ensures
        r == ends_with(s@, p@),
{
    let v: Vec<char> = chars_of(s);
    let n: usize = chars_of(p).len();
    if n > v.len() {
        return false;
    }
    let r: bool = matches_at(&v, v.len() - n, p);
    proof {
        let tail = v@.skip(v@.len() - n);
        assert(tail.take(n as int) =~= tail);
    }
    r
}

// ---------------------------------------------------------------------------
// Trimming
// ---------------------------------------------------------------------------

/// Unicode white space (the `White_Space` property).
pub open spec fn is_white(c: char) -> bool {
    let n = c as u32;
    ||| 0x09 <= n <= 0x0d
    ||| n == 0x20
    ||| n == 0x85
    ||| n == 0xa0
    ||| n == 0x1680
    ||| 0x2000 <= n <= 0x200a
    ||| n == 0x2028
    ||| n == 0x2029
    ||| n == 0x202f
    ||| n == 0x205f
    ||| n == 0x3000
}

/// Whether `c` is Unicode white space.
pub fn whitespace(c: char) -> (r: bool)
    ensures
        r == is_white(c),
{
    let n: u32 = c as u32;
    (0x09 <= n && n <= 0x0d) || n == 0x20 || n == 0x85 || n == 0xa0 || n == 0x1680 || (0x2000 <= n
        && n <= 0x200a) || n == 0x2028 || n == 0x2029 || n == 0x202f || n == 0x205f || n == 0x3000
}

/// `s` without its leading white space.
pub open spec fn trim_start(s: Seq<char>) -> Seq<char>
    decreases s.len(),
{
    if s.len() > 0 && is_white(s[0]) {
        trim_start(s.drop_first())
    } else {
        s
    }
}

/// `s` without its trailing white space.
pub open spec fn trim_end(s: Seq<char>) -> Seq<char>
    decreases s.len(),
{
    if s.len() > 0 && is_white(s.last()) {
        trim_end(s.drop_last())
    } else {
        s
    }
}

/// `s` without leading and trailing white space.
pub open spec fn trim(s: Seq<char>) -> Seq<char> {
    trim_end(trim_start(s))
}

/// `s` without leading and trailing white space.
pub fn trimmed(s: &str) -> (r: String)
    ensures
        r@ == trim(s@),
{
    let v: Vec<char> = chars_of(s);
    let mut from: usize = 0;
    assert(v@.skip(0) =~= v@);
    while from < v.len() && whitespace(v[from])
        invariant
            v@ == s@,
            from <= v.len(),
            trim_start(s@) == trim_start(v@.skip(from as int)),
        decreases v.len() - from,
    {
        assert(v@.skip(from as int).drop_first() =~= v@.skip(from + 1));
        from += 1;
    }
    assert(trim_start(s@) == v@.skip(from as int)) by {
        if from < v.len() {
            assert(v@.skip(from as int)[0] == v@[from as int]);
        }
    }
    let mut to: usize = v.len();
    assert(v@.skip(from as int) =~= v@.subrange(from as int, to as int));
    while from < to && whitespace(v[to - 1])
        invariant
            v@ == s@,
            from <= to <= v.len(),
            trim(s@) == trim_end(v@.subrange(from as int, to as int)),
        decreases to - from,
    {
        assert(v@.subrange(from as int, to as int).drop_last() =~= v@.subrange(from as int, to - 1));
        to -= 1;
    }
    assert(trim(s@) == v@.subrange(from as int, to as int)) by {
        if from < to {
            assert(v@.subrange(from as int, to as int).last() == v@[to - 1]);
        }
    }
    s.substring_char(from, to).to_owned()
}

// ---------------------------------------------------------------------------
// Numbers
// ---------------------------------------------------------------------------

/// The character of a digit in a base up to sixteen, in lower case.
pub open spec fn digit_char(d: int) -> char {
    if d < 10 {
        ('0' as int + d) as char
    } else {
        ('a' as int + (d - 10)) as char
    }
}

/// The digits of `n` in `base`, most significant first, without leading zeros.
pub open spec fn digits(n: nat, base: nat) -> Seq<char>
    decreases n,
{
    if base < 2 || n < base {
        seq![digit_char(n as int)]
    } else {
        proof {
            vstd::arithmetic::div_mod::lemma_div_decreases(n as int, base as int);
        }
        digits(n / base, base).push(digit_char((n % base) as int))
    }
}

/// `n` in base ten.
pub open spec fn decimal(n: nat) -> Seq<char> {
    digits(n, 10)
}

/// A signed number in base ten.
pub open spec fn signed_decimal(n: int) -> Seq<char> {
    if n < 0 {
        "-"@ + decimal((-n) as nat)
    } else {
        decimal(n as nat)
    }
}

/// `count` copies of `c`.
pub open spec fn repeated(c: char, count: int) -> Seq<char> {
    Seq::new(if count > 0 { count as nat } else { 0 }, |i: int| c)
}

/// `s` filled up with zeros on the left to at least `width` characters.
pub open spec fn zero_padded(s: Seq<char>, width: int) -> Seq<char> {
    repeated('0', width - s.len()) + s
}

/// `s` filled up with spaces on the right to at least `width` characters.
pub open spec fn padded(s: Seq<char>, width: int) -> Seq<char> {
    s + repeated(' ', width - s.len())
}

fn digit_text(d: u64) -> (r: &'static str)
    requires
        d < 16,
    ensures
        r@ == seq![digit_char(d as int)],
{
    proof {
        reveal_strlit("0");
        reveal_strlit("1");
        reveal_strlit("2");
        reveal_strlit("3");
        reveal_strlit("4");
        reveal_strlit("5");
        reveal_strlit("6");
        reveal_strlit("7");
        reveal_strlit("8");
        reveal_strlit("9");
        reveal_strlit("a");
        reveal_strlit("b");
        reveal_strlit("c");
        reveal_strlit("d");
        reveal_strlit("e");
        reveal_strlit("f");
    }
    let r: &'static str = match d {
        0 => "0",
        1 => "1",
        2 => "2",
        3 => "3",
        4 => "4",
        5 => "5",
        6 => "6",
        7 => "7",
        8 => "8",
        9 => "9",
        10 => "a",
        11 => "b",
        12 => "c",
        13 => "d",
        14 => "e",
        _ => "f",
    };
    assert(r@ =~= seq![digit_char(d as int)]);
    r
}

/// The digits of `n` in `base`.
pub fn number_text(n: u64, base: u64) -> (r: String)
    requires
        2 <= base <= 16,
    ensures
        r@ == digits(n as nat, base as nat),
    decreases n,
{
    if n < base {
        digit_text(n).to_owned()
    } else {
        assert(n / base < n) by (nonlinear_arith)
            requires
                2 <= base,
                base <= n,
        ;
        let mut s: String = number_text(n / base, base);
        s.append(digit_text(n % base));
        assert(s@ =~= digits(n as nat, base as nat));
        s
    }
}

/// `n` in base ten.
pub fn decimal_text(n: u64) -> (r: String)
    ensures
        r@ == decimal(n as nat),
{
    number_text(n, 10)
}

/// A signed number in base ten.
pub fn signed_text(n: i32) -> (r: String)
    ensures
        r@ == signed_decimal(n as int),
{
    if n < 0 {
        let magnitude: i64 = -(n as i64);
        let mut s: String = "-".to_owned();
        s.append(decimal_text(magnitude as u64).as_str());
        s
    } else {
        decimal_text(n as u64)
    }
}

fn copies(piece: &str, count: usize) -> (r: String)
    requires
        piece@.len() == 1,
    ensures
        r@ == repeated(piece@[0], count as int),
{
    let mut s: String = String::new();
    let mut i: usize = 0;
    assert(s@ =~= repeated(piece@[0], 0));
    while i < count
        invariant
            piece@.len() == 1,
            i <= count,
            s@ == repeated(piece@[0], i as int),
        decreases count - i,
    {
        s.append(piece);
        i += 1;
        assert(s@ =~= repeated(piece@[0], i as int));
    }
    s
}

/// `s` filled up with zeros on the left to at least `width` characters.
pub fn zero_fill(s: &str, width: usize) -> (r: String)
    ensures
        r@ == zero_padded(s@, width as int),
{
    proof {
        reveal_strlit("0");
    }
    let n: usize = s.unicode_len();
    let mut r: String = if n < width {
        copies("0", width - n)
    } else {
        copies("0", 0)
    };
    r.append(s);
    assert(r@ =~= zero_padded(s@, width as int));
    r
}

/// `s` filled up with spaces on the right to at least `width` characters.
pub fn pad(s: &str, width: usize) -> (r: String)
    ensures
        r@ == padded(s@, width as int),
{
    proof {
        reveal_strlit(" ");
    }
    let n: usize = s.unicode_len();
    let fill: String = if n < width {
        copies(" ", width - n)
    } else {
        copies(" ", 0)
    };
    let mut r: String = s.to_owned();
    r.append(fill.as_str());
    assert(r@ =~= padded(s@, width as int));
    r
}

/// A row of `count` dashes.
pub fn dashes(count: usize) -> (r: String)
    ensures
        r@ == repeated('-', count as int),
{
    proof {
        reveal_strlit("-");
    }
    copies("-", count)
}

/// Whether `c` is a decimal digit.
pub open spec fn is_digit(c: char) -> bool {
    '0' <= c <= '9'
}

/// Whether every character is a decimal digit.
pub open spec fn all_digits(s: Seq<char>) -> bool {
    forall|i: int| 0 <= i < s.len() ==> is_digit(#[trigger] s[i])
}

/// The number that decimal digits stand for.
pub open spec fn number(s: Seq<char>) -> nat
    decreases s.len(),
{
    if s.len() == 0 {
        0
    } else {
        number(s.drop_last()) * 10 + (s.last() as nat - '0' as nat) as nat
    }
}

/// What is left of `s` after one leading plus sign.
pub open spec fn unsigned_part(s: Seq<char>) -> Seq<char> {
    if s.len() > 0 && s[0] == '+' {
        s.drop_first()
    } else {
        s
    }
}

/// The 32-bit number written in `s`: decimal digits, at least one, with an optional plus sign.
pub open spec fn parse_u32(s: Seq<char>) -> Option<u32> {
    let d = unsigned_part(s);
    if d.len() > 0 && all_digits(d) && number(d) <= u32::MAX {
        Some(number(d) as u32)
    } else {
        None
    }
}

proof fn number_grows(s: Seq<char>, k: int)
    requires
        0 <= k <= s.len(),
        all_digits(s),
    ensures
        number(s.take(k)) <= number(s),
    decreases s.len(),
{
    if k == s.len() {
        assert(s.take(k) =~= s);
    } else {
        number_grows(s.drop_last(), k);
        assert(s.drop_last().take(k) =~= s.take(k));
    }
}

/// The 32-bit number written in `v[from..to]`.
pub fn read_u32(v: &Vec<char>, from: usize, to: usize) -> (r: Option<u32>)
    requires
        from <= to <= v@.len(),
    ensures
        r == parse_u32(v@.subrange(from as int, to as int)),
{
    let ghost s = v@.subrange(from as int, to as int);
    let start: usize = if from < to && v[from] == '+' {
        from + 1
    } else {
        from
    };
    let ghost d = unsigned_part(s);
    assert(d =~= v@.subrange(start as int, to as int)) by {
        if from < to {
            assert(s[0] == v@[from as int]);
        }
    }
    if start == to {
        return None;
    }
    let mut n: u64 = 0;
    let mut i: usize = start;
    assert(d.take(0) =~= Seq::<char>::empty());
    while i < to
        invariant
            start <= i <= to <= v.len(),
            d == v@.subrange(start as int, to as int),
            s == v@.subrange(from as int, to as int),
            d == unsigned_part(s),
            forall|j: int| 0 <= j < i - start ==> is_digit(#[trigger] d[j]),
            n == number(d.take(i - start)),
            n <= u32::MAX,
        decreases to - i,
    {
        let c: char = v[i];
        assert(c == d[i - start]);
        if !('0' <= c && c <= '9') {
            return None;
        }
        assert(d.take(i - start + 1).drop_last() =~= d.take(i - start));
        n = n * 10 + (c as u32 - '0' as u32) as u64;
        if n > u32::MAX as u64 {
            proof {
                if all_digits(d) {
                    number_grows(d, i - start + 1);
                }
            }
            return None;
        }
        i += 1;
    }
    assert(d.take(d.len() as int) =~= d);
    Some(n as u32)
}

/// The 32-bit number written in `s`.
pub fn u32_of(s: &str) -> (r: Option<u32>)
    ensures
        r == parse_u32(s@),
{
    let v: Vec<char> = chars_of(s);
    assert(v@.subrange(0, v@.len() as int) =~= v@);
    read_u32(&v, 0, v.len())
}

/// A number in base ten is written in decimal digits, and they stand for it.
pub proof fn digits_are_digits(n: nat)
    ensures
        decimal(n).len() > 0,
        all_digits(decimal(n)),
        number(decimal(n)) == n,
    decreases n,
{
    let s = decimal(n);
    reveal_with_fuel(number, 2);
    if n >= 10 {
        digits_are_digits(n / 10);
        assert(s.drop_last() =~= decimal(n / 10));
    } else {
        assert(s.drop_last() =~= Seq::<char>::empty());
    }
}

/// Reading a number gives back what writing it in base ten wrote.
pub proof fn reading_undoes_writing(n: u32)
    ensures
        parse_u32(decimal(n as nat)) == Some(n),
{
    digits_are_digits(n as nat);
    let s = decimal(n as nat);
    assert(is_digit(s[0]));
}

/// Different numbers are written differently.
pub proof fn decimals_differ(a: nat, b: nat)
    requires
        decimal(a) == decimal(b),
    ensures
        a == b,
{
    digits_are_digits(a);
    digits_are_digits(b);
}

/// `true` or `false`.
pub open spec fn truth(b: bool) -> Seq<char> {
    if b {
        "true"@
    } else {
        "false"@
    }
}

/// `true` or `false`.
pub fn bool_text(b: bool) -> (r: &'static str)
    ensures
        r@ == truth(b),
{
    if b {
        "true"
    } else {
        "false"
    }
}

// ---------------------------------------------------------------------------
// Session identifiers
// ---------------------------------------------------------------------------

/// Whether `c` is a hexadecimal digit of either case.
pub open spec fn is_hex_digit(c: char) -> bool {
    is_digit(c) || 'a' <= c <= 'f' || 'A' <= c <= 'F'
}

/// `s` without its dashes.
pub open spec fn without_dashes(s: Seq<char>) -> Seq<char> {
    s.filter(|c: char| c != '-')
}

/// Whether `s` is a 128-bit number in hexadecimal, with dashes anywhere.
pub open spec fn is_session_id(s: Seq<char>) -> bool {
    let d = without_dashes(s);
    d.len() == 32 && forall|i: int| 0 <= i < d.len() ==> is_hex_digit(#[trigger] d[i])
}

/// Whether `s` is the 128-bit number zero in hexadecimal, with dashes anywhere.
pub open spec fn is_zero_session_id(s: Seq<char>) -> bool {
    let d = without_dashes(s);
    d.len() == 32 && forall|i: int| 0 <= i < d.len() ==> #[trigger] d[i] == '0'
}

fn undashed(s: &str) -> (r: Vec<char>)
    ensures
        r@ == without_dashes(s@),
{
    let v: Vec<char> = chars_of(s);
    let mut r: Vec<char> = Vec::new();
    let mut i: usize = 0;
    proof {
        reveal(Seq::filter);
    }
    assert(v@.take(0) =~= Seq::<char>::empty());
    assert(r@ =~= without_dashes(v@.take(0)));
    while i < v.len()
        invariant
            i <= v.len(),
            r@ == without_dashes(v@.take(i as int)),
        decreases v.len() - i,
    {
        let c: char = v[i];
        proof {
            reveal(Seq::filter);
            assert(v@.take(i + 1).drop_last() =~= v@.take(i as int));
            assert(v@.take(i + 1).last() == c);
        }
        if c != '-' {
            r.push(c);
        }
        i += 1;
    }
    assert(v@.take(v@.len() as int) =~= v@);
    r
}

/// Whether `s` is a 128-bit number in hexadecimal, with dashes anywhere.
pub fn session_id(s: &str) -> (r: bool)
    ensures
        r == is_session_id(s@),
{
    let d: Vec<char> = undashed(s);
    if d.len() != 32 {
        return false;
    }
    let mut i: usize = 0;
    while i < d.len()
        invariant
            i <= d.len(),
            d@ == without_dashes(s@),
            forall|j: int| 0 <= j < i ==> is_hex_digit(#[trigger] d@[j]),
        decreases d.len() - i,
    {
        let c: char = d[i];
        if !(('0' <= c && c <= '9') || ('a' <= c && c <= 'f') || ('A' <= c && c <= 'F')) {
            assert(!is_hex_digit(d@[i as int]));
            return false;
        }
        i += 1;
    }
    true
}

/// Whether `s` is the 128-bit number zero in hexadecimal, with dashes anywhere.
pub fn zero_session_id(s: &str) -> (r: bool)
    ensures
        r == is_zero_session_id(s@),
{
    let d: Vec<char> = undashed(s);
    if d.len() != 32 {
        return false;
    }
    let mut i: usize = 0;
    while i < d.len()
        invariant
            i <= d.len(),
            d@ == without_dashes(s@),
            forall|j: int| 0 <= j < i ==> #[trigger] d@[j] == '0',
        decreases d.len() - i,
    {
        if d[i] != '0' {
            return false;
        }
        i += 1;
    }
    true
}

// ---------------------------------------------------------------------------
// Joining
// ---------------------------------------------------------------------------

/// The parts one after another, with `sep` between neighbours.
pub open spec fn joined(parts: Seq<Seq<char>>, sep: Seq<char>) -> Seq<char>
    decreases parts.len(),
{
    if parts.len() == 0 {
        Seq::empty()
    } else if parts.len() == 1 {
        parts[0]
    } else {
        joined(parts.drop_last(), sep) + sep + parts.last()
    }
}

/// The parts one after another, with `sep` between neighbours.
pub fn join(parts: &Vec<String>, sep: &str) -> (r: String)
    ensures
        r@ == joined(views(parts@), sep@),
{
    let ghost all = views(parts@);
    let mut r: String = String::new();
    let mut i: usize = 0;
    assert(all.take(0) =~= Seq::<Seq<char>>::empty());
    while i < parts.len()
        invariant
            all == views(parts@),
            i <= parts.len(),
            r@ == joined(all.take(i as int), sep@),
        decreases parts.len() - i,
    {
        let ghost before = r@;
        if i > 0 {
            r.append(sep);
        }
        r.append(parts[i].as_str());
        proof {
            let next = all.take(i + 1);
            assert(next.drop_last() =~= all.take(i as int));
            assert(next.last() == parts@[i as int]@);
            assert(r@ =~= joined(next, sep@));
        }
        i += 1;
    }
    assert(all.take(all.len() as int) =~= all);
    r
}

// ---------------------------------------------------------------------------
// Laws
// ---------------------------------------------------------------------------

/// A text has a prefix exactly where it is that prefix with something behind it, and a suffix
/// exactly where it is that suffix with something in front of it.
pub proof fn prefixes_and_suffixes_are_parts(s: &str, p: &str, front: bool, back: bool)
    requires
        call_ensures(has_prefix, (s, p), front),
        call_ensures(has_suffix, (s, p), back),
    ensures
        front <==> exists|rest: Seq<char>| s@ == #[trigger] (p@ + rest),
        back <==> exists|rest: Seq<char>| s@ == #[trigger] (rest + p@),
{
    if front {
        assert(s@ =~= p@ + s@.skip(p@.len() as int));
    }
    if back {
        assert(s@ =~= s@.take(s@.len() - p@.len()) + p@);
    }
    if exists|rest: Seq<char>| s@ == #[trigger] (p@ + rest) {
        let rest = choose|rest: Seq<char>| s@ == #[trigger] (p@ + rest);
        assert(s@.take(p@.len() as int) =~= p@);
    }
    if exists|rest: Seq<char>| s@ == #[trigger] (rest + p@) {
        let rest = choose|rest: Seq<char>| s@ == #[trigger] (rest + p@);
        assert(s@.skip(s@.len() - p@.len()) =~= p@);
    }
}

/// What starts with `p` is `p` with something behind it.
pub proof fn a_prefix_comes_first(p: Seq<char>, rest: Seq<char>)
    ensures
        starts_with(p + rest, p),
        (p + rest).skip(p.len() as int) == rest,
{
    assert((p + rest).take(p.len() as int) =~= p);
    assert((p + rest).skip(p.len() as int) =~= rest);
}

/// White space is what Unicode calls so.
pub proof fn white_space_is_unicode_white_space(c: char, r: bool)
    requires
        call_ensures(whitespace, (c,), r),
    ensures
        r == is_white(c),
        r <==> {
            ||| '\t' <= c <= '\r'
            ||| c == ' '
            ||| c == '\u{85}'
            ||| c == '\u{a0}'
            ||| c == '\u{1680}'
            ||| '\u{2000}' <= c <= '\u{200a}'
            ||| c == '\u{2028}'
            ||| c == '\u{2029}'
            ||| c == '\u{202f}'
            ||| c == '\u{205f}'
            ||| c == '\u{3000}'
        },
{
}

/// Whether a text is white space only.
pub open spec fn all_white(s: Seq<char>) -> bool {
    forall|i: int| 0 <= i < s.len() ==> is_white(#[trigger] s[i])
}

/// Whether a text begins and ends with something other than white space, or is empty.
pub open spec fn is_tight(s: Seq<char>) -> bool {
    s.len() > 0 ==> !is_white(s[0]) && !is_white(s.last())
}

proof fn trimming_the_start(a: Seq<char>, b: Seq<char>)
    requires
        all_white(a),
        b.len() > 0 ==> !is_white(b[0]),
    ensures
        trim_start(a + b) == b,
    decreases a.len(),
{
    if a.len() == 0 {
        assert(a + b =~= b);
    } else {
        let rest = a.drop_first();
        assert forall|i: int| 0 <= i < rest.len() implies is_white(#[trigger] rest[i]) by {
            assert(rest[i] == a[i + 1]);
        }
        trimming_the_start(rest, b);
        assert((a + b).drop_first() =~= rest + b);
        assert((a + b)[0] == a[0]);
    }
}

proof fn trimming_the_end(a: Seq<char>, b: Seq<char>)
    requires
        all_white(b),
        a.len() > 0 ==> !is_white(a.last()),
    ensures
        trim_end(a + b) == a,
    decreases b.len(),
{
    if b.len() == 0 {
        assert(a + b =~= a);
    } else {
        let rest = b.drop_last();
        assert forall|i: int| 0 <= i < rest.len() implies is_white(#[trigger] rest[i]) by {
            assert(rest[i] == b[i]);
        }
        trimming_the_end(a, rest);
        assert((a + b).drop_last() =~= a + rest);
        assert((a + b).last() == b[b.len() - 1]);
    }
}

/// Text that is nothing but white space around a tight text is trimmed to that.
pub proof fn trimming_takes_white_space_off(before: Seq<char>, s: Seq<char>, after: Seq<char>)
    requires
        all_white(before),
        all_white(after),
        is_tight(s),
    ensures
        trim(before + s + after) == s,
{
    if s.len() == 0 {
        let all = before + s + after;
        assert forall|i: int| 0 <= i < all.len() implies is_white(#[trigger] all[i]) by {
            if i < before.len() {
                assert(all[i] == before[i]);
            } else {
                assert(all[i] == after[i - before.len()]);
            }
        }
        trimming_the_start(all, Seq::empty());
        assert(all + Seq::<char>::empty() =~= all);
        assert(s =~= Seq::empty());
    } else {
        assert((s + after)[0] == s[0]);
        trimming_the_start(before, s + after);
        assert(before + s + after =~= before + (s + after));
        trimming_the_end(s, after);
    }
}

/// Trimming takes white space off both ends and nothing else.
pub proof fn trimmed_text_is_tight(s: &str, r: String)
    requires
        call_ensures(trimmed, (s,), r),
    ensures
        is_tight(r@),
        exists|before: Seq<char>, after: Seq<char>|
            all_white(before) && all_white(after) && s@ == #[trigger] (before + r@ + after),
{
    let (before, after) = trimming_parts(s@);
}

/// What trimming takes off.
pub proof fn trimming_parts(s: Seq<char>) -> (parts: (Seq<char>, Seq<char>))
    ensures
        all_white(parts.0),
        all_white(parts.1),
        is_tight(trim(s)),
        s == parts.0 + trim(s) + parts.1,
{
    let a = leading_white(s);
    let t = trim_start(s);
    let b = trailing_white(t);
    assert(a + t =~= a + trim(s) + b);
    if trim(s).len() > 0 {
        assert(t[0] == trim(s)[0]);
    }
    (a, b)
}

proof fn leading_white(s: Seq<char>) -> (a: Seq<char>)
    ensures
        all_white(a),
        s == a + trim_start(s),
        trim_start(s).len() > 0 ==> !is_white(trim_start(s)[0]),
    decreases s.len(),
{
    if s.len() > 0 && is_white(s[0]) {
        let rest = leading_white(s.drop_first());
        let a = seq![s[0]] + rest;
        assert forall|i: int| 0 <= i < a.len() implies is_white(#[trigger] a[i]) by {
            if i > 0 {
                assert(a[i] == rest[i - 1]);
            }
        }
        assert(s =~= seq![s[0]] + s.drop_first());
        assert(s =~= a + trim_start(s));
        a
    } else {
        assert(s =~= Seq::empty() + trim_start(s));
        Seq::empty()
    }
}

proof fn trailing_white(s: Seq<char>) -> (b: Seq<char>)
    ensures
        all_white(b),
        s == trim_end(s) + b,
        trim_end(s).len() > 0 ==> !is_white(trim_end(s).last()),
    decreases s.len(),
{
    if s.len() > 0 && is_white(s.last()) {
        let rest = trailing_white(s.drop_last());
        let b = rest.push(s.last());
        assert forall|i: int| 0 <= i < b.len() implies is_white(#[trigger] b[i]) by {
            if i < rest.len() {
                assert(b[i] == rest[i]);
            }
        }
        assert(s =~= s.drop_last().push(s.last()));
        assert(s =~= trim_end(s) + b);
        b
    } else {
        assert(s =~= trim_end(s) + Seq::empty());
        Seq::empty()
    }
}

/// Numbers are written place by place: one more place to the right is one more digit, and a
/// number below the base is one digit out of `0` to `9` and `a` to `f`.
pub proof fn numbers_are_written_place_by_place(
    n: u64,
    base: u64,
    d: u64,
    m: u64,
    short: String,
    long: String,
)
    requires
        2 <= base <= 16,
        d < base,
        m == n * base + d,
        call_ensures(number_text, (n, base), short),
        call_ensures(number_text, (m, base), long),
    ensures
        n > 0 ==> long@ == short@.push("0123456789abcdef"@[d as int]),
        n == 0 ==> long@ == seq!["0123456789abcdef"@[d as int]],
{
    reveal_strlit("0123456789abcdef");
    vstd::arithmetic::div_mod::lemma_fundamental_div_mod_converse(
        m as int,
        base as int,
        n as int,
        d as int,
    );
    if n > 0 {
        assert(m >= base) by (nonlinear_arith)
            requires
                m == n * base + d,
                n > 0,
        ;
        assert(digits(m as nat, base as nat) == digits(n as nat, base as nat).push(
            digit_char(d as int),
        ));
    }
    assert(digit_char(d as int) == "0123456789abcdef"@[d as int]);
}

/// A number in base ten is nothing but decimal digits that stand for it, without a leading zero.
pub proof fn a_decimal_has_no_leading_zero(n: u64, r: String)
    requires
        call_ensures(decimal_text, (n,), r),
    ensures
        r@ == decimal(n as nat),
        r@.len() > 0,
        all_digits(r@),
        number(r@) == n,
        r@[0] == '0' ==> n == 0 && r@.len() == 1,
{
    digits_are_digits(n as nat);
    no_leading_zero(n as nat);
}

proof fn no_leading_zero(n: nat)
    ensures
        decimal(n)[0] == '0' ==> n == 0,
        n < 10 ==> decimal(n).len() == 1,
    decreases n,
{
    if n >= 10 {
        no_leading_zero(n / 10);
        digits_are_digits(n / 10);
        assert(decimal(n)[0] == decimal(n / 10)[0]);
    }
}

/// A negative number is written as a minus sign and the number without it.
pub proof fn signs_are_written_in_front(n: i32, r: String)
    requires
        call_ensures(signed_text, (n,), r),
    ensures
        n >= 0 ==> r@ == decimal(n as nat),
        n < 0 ==> r@ == seq!['-'] + decimal((-(n as int)) as nat),
{
    reveal_strlit("-");
    assert("-"@ =~= seq!['-']);
}

/// Filling up reaches the width, keeps the text at its end, or its start, and adds nothing but
/// zeros, or spaces.
pub proof fn filling_up_keeps_the_text(
    s: &str,
    width: usize,
    zeros: String,
    spaces: String,
    line: String,
)
    requires
        call_ensures(zero_fill, (s, width), zeros),
        call_ensures(pad, (s, width), spaces),
        call_ensures(dashes, (width,), line),
    ensures
        zeros@.len() == if s@.len() < width { width as nat } else { s@.len() },
        spaces@.len() == zeros@.len(),
        zeros@.skip(zeros@.len() - s@.len()) == s@,
        spaces@.take(s@.len() as int) == s@,
        forall|i: int| 0 <= i < zeros@.len() - s@.len() ==> #[trigger] zeros@[i] == '0',
        forall|i: int| s@.len() <= i < spaces@.len() ==> #[trigger] spaces@[i] == ' ',
        line@.len() == width,
        forall|i: int| 0 <= i < width ==> #[trigger] line@[i] == '-',
{
    assert(zeros@.skip(zeros@.len() - s@.len()) =~= s@);
    assert(spaces@.take(s@.len() as int) =~= s@);
}

proof fn numbers_fill_their_places(s: Seq<char>)
    requires
        s.len() > 0,
        all_digits(s),
    ensures
        decimal(number(s)).len() <= s.len(),
        zero_padded(decimal(number(s)), s.len() as int) == s,
    decreases s.len(),
{
    let n = number(s);
    let d = (s.last() as nat - '0' as nat) as nat;
    assert(s[s.len() - 1] == s.last());
    assert(is_digit(s.last()));
    assert(d < 10);
    assert(digit_char(d as int) == s.last());
    let front = s.drop_last();
    if front.len() == 0 {
        assert(front =~= Seq::empty());
        assert(number(front) == 0);
        assert(n == d);
        assert(decimal(n) =~= seq![s.last()]);
        assert(zero_padded(decimal(n), 1) =~= s);
    } else {
        assert forall|i: int| 0 <= i < front.len() implies is_digit(#[trigger] front[i]) by {
            assert(front[i] == s[i]);
        }
        numbers_fill_their_places(front);
        let m = number(front);
        assert(n == m * 10 + d);
        assert(n / 10 == m && n % 10 == d);
        if m > 0 {
            assert(decimal(n) == decimal(m).push(s.last()));
            assert(zero_padded(decimal(n), s.len() as int) =~= zero_padded(
                decimal(m),
                front.len() as int,
            ).push(s.last()));
        } else {
            assert(decimal(m) == seq!['0']);
            assert(decimal(n) == seq![s.last()]);
            assert(zero_padded(decimal(n), s.len() as int) =~= zero_padded(
                decimal(m),
                front.len() as int,
            ).push(s.last()));
        }
        assert(s =~= front.push(s.last()));
    }
}

proof fn leading_zeros_do_not_count(s: Seq<char>, n: nat)
    requires
        s.len() >= decimal(n).len(),
        s == zero_padded(decimal(n), s.len() as int),
    ensures
        all_digits(s),
        number(s) == n,
    decreases s.len(),
{
    digits_are_digits(n);
    let d = decimal(n);
    assert forall|i: int| 0 <= i < s.len() implies is_digit(#[trigger] s[i]) by {
        if i >= s.len() - d.len() {
            assert(s[i] == d[i - (s.len() - d.len())]);
        }
    }
    let front = s.drop_last();
    assert(s.last() == d.last());
    if n >= 10 {
        assert(d == decimal(n / 10).push(digit_char((n % 10) as int)));
        assert(front =~= zero_padded(decimal(n / 10), front.len() as int));
        leading_zeros_do_not_count(front, n / 10);
    } else {
        assert(d == seq![digit_char(n as int)]);
        zeros_are_zero(front);
    }
}

proof fn zeros_are_zero(s: Seq<char>)
    requires
        forall|i: int| 0 <= i < s.len() ==> #[trigger] s[i] == '0',
    ensures
        number(s) == 0,
    decreases s.len(),
{
    if s.len() > 0 {
        let front = s.drop_last();
        assert forall|i: int| 0 <= i < front.len() implies #[trigger] front[i] == '0' by {
            assert(front[i] == s[i]);
        }
        zeros_are_zero(front);
        assert(s[s.len() - 1] == '0');
    }
}

/// A text is read as `n` exactly where it is the decimal digits of `n`, with any number of zeros
/// in front of them and possibly a plus sign in front of those.
pub proof fn a_number_is_read_from_its_digits(s: Seq<char>, n: u32)
    ensures
        parse_u32(s) == Some(n) <==> {
            let d = if s.len() > 0 && s[0] == '+' { s.skip(1) } else { s };
            d.len() >= decimal(n as nat).len() && d == zero_padded(
                decimal(n as nat),
                d.len() as int,
            )
        },
{
    let d = if s.len() > 0 && s[0] == '+' { s.skip(1) } else { s };
    assert(d =~= unsigned_part(s));
    digits_are_digits(n as nat);
    if parse_u32(s) == Some(n) {
        numbers_fill_their_places(d);
    }
    if d.len() >= decimal(n as nat).len() && d == zero_padded(decimal(n as nat), d.len() as int) {
        leading_zeros_do_not_count(d, n as nat);
    }
}

/// Reading gives exactly the number whose digits the text holds, and nothing where there is none.
pub proof fn reading_is_exact(s: &str, r: Option<u32>, n: u32)
    requires
        call_ensures(u32_of, (s,), r),
    ensures
        r == Some(n) <==> {
            let d = if s@.len() > 0 && s@[0] == '+' { s@.skip(1) } else { s@ };
            d.len() >= decimal(n as nat).len() && d == zero_padded(
                decimal(n as nat),
                d.len() as int,
            )
        },
        r is None ==> parse_u32(s@) is None,
{
    a_number_is_read_from_its_digits(s@, n);
}

proof fn undashed_parts(a: Seq<char>, b: Seq<char>)
    ensures
        without_dashes(a + b) == without_dashes(a) + without_dashes(b),
{
    Seq::filter_distributes_over_add(a, b, |c: char| c != '-');
}

/// Dashes do not matter to a session identifier, wherever they stand.
pub proof fn dashes_do_not_matter(
    plain: &str,
    dashed: &str,
    a: Seq<char>,
    b: Seq<char>,
    one: bool,
    other: bool,
    one_zero: bool,
    other_zero: bool,
)
    requires
        plain@ == a + b,
        dashed@ == a + seq!['-'] + b,
        call_ensures(session_id, (plain,), one),
        call_ensures(session_id, (dashed,), other),
        call_ensures(zero_session_id, (plain,), one_zero),
        call_ensures(zero_session_id, (dashed,), other_zero),
    ensures
        one == other,
        one_zero == other_zero,
{
    undashed_parts(a, b);
    undashed_parts(a + seq!['-'], b);
    undashed_parts(a, seq!['-']);
    reveal(Seq::filter);
    let dash = seq!['-'];
    assert(dash.drop_last() =~= Seq::<char>::empty());
    assert(without_dashes(Seq::<char>::empty()) =~= Seq::empty());
    assert(without_dashes(dash) =~= Seq::empty());
    assert(without_dashes(a) + Seq::empty() =~= without_dashes(a));
}

/// A text without dashes is a session identifier exactly where it is 32 hexadecimal digits of
/// either case, and that of no session exactly where it is 32 zeros.
pub proof fn a_session_is_32_hexadecimal_digits(s: &str, id: bool, zero: bool)
    requires
        forall|i: int| 0 <= i < s@.len() ==> #[trigger] s@[i] != '-',
        call_ensures(session_id, (s,), id),
        call_ensures(zero_session_id, (s,), zero),
    ensures
        id <==> s@.len() == 32 && forall|i: int|
            0 <= i < 32 ==> ('0' <= #[trigger] s@[i] <= '9' || 'a' <= s@[i] <= 'f' || 'A' <= s@[i]
                <= 'F'),
        zero <==> s@.len() == 32 && forall|i: int| 0 <= i < 32 ==> #[trigger] s@[i] == '0',
{
    nothing_to_undash(s@);
}

/// A text without dashes is what is left of it.
pub proof fn nothing_to_undash(s: Seq<char>)
    requires
        forall|i: int| 0 <= i < s.len() ==> #[trigger] s[i] != '-',
    ensures
        without_dashes(s) == s,
    decreases s.len(),
{
    reveal(Seq::filter);
    if s.len() > 0 {
        let front = s.drop_last();
        assert forall|i: int| 0 <= i < front.len() implies #[trigger] front[i] != '-' by {
            assert(front[i] == s[i]);
        }
        nothing_to_undash(front);
        assert(s[s.len() - 1] != '-');
        assert(s =~= front.push(s.last()));
    } else {
        assert(without_dashes(s) =~= s);
    }
}

/// Parts joined one after another: nothing gives nothing, one gives itself, and two lists give
/// both with the separator between them.
pub proof fn joining_puts_separators_between(
    a: Seq<Seq<char>>,
    b: Seq<Seq<char>>,
    sep: Seq<char>,
)
    ensures
        joined(Seq::empty(), sep) == Seq::<char>::empty(),
        a.len() == 1 ==> joined(a, sep) == a[0],
        a.len() > 0 && b.len() > 0 ==> joined(a + b, sep) == joined(a, sep) + sep + joined(b, sep),
    decreases b.len(),
{
    if a.len() > 0 && b.len() > 0 {
        assert((a + b).last() == b.last());
        assert((a + b).drop_last() =~= a + b.drop_last());
        if b.len() == 1 {
            assert(a + b.drop_last() =~= a);
        } else {
            joining_puts_separators_between(a, b.drop_last(), sep);
            assert(joined(a + b, sep) =~= joined(a, sep) + sep + joined(b, sep));
        }
    }
}

/// Every part stands in what the parts are joined to.
pub proof fn joined_text_holds_its_parts(parts: Seq<Seq<char>>, sep: Seq<char>, k: int)
    requires
        0 <= k < parts.len(),
    ensures
        holds(joined(parts, sep), parts[k]),
    decreases parts.len(),
{
    let all = joined(parts, sep);
    if parts.len() == 1 {
        assert(all.skip(0) =~= all);
        assert(all.take(all.len() as int) =~= all);
        assert(starts_with(all.skip(0), parts[k]));
    } else if k == parts.len() - 1 {
        let at = all.len() - parts[k].len();
        assert(all.skip(at) =~= parts[k]);
        assert(parts[k].take(parts[k].len() as int) =~= parts[k]);
        assert(starts_with(all.skip(at), parts[k]));
    } else {
        let rest = parts.drop_last();
        joined_text_holds_its_parts(rest, sep, k);
        let before = joined(rest, sep);
        let at = choose|at: int|
            0 <= at <= before.len() && #[trigger] starts_with(before.skip(at), rest[k]);
        assert(all.skip(at).take(parts[k].len() as int) =~= before.skip(at).take(
            parts[k].len() as int,
        ));
        assert(starts_with(all.skip(at), parts[k]));
    }
}

} // verus!
