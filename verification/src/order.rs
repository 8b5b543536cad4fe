//! The order of file names, and what it says of the moments that receipts are named after.

use vstd::prelude::*;

use crate::receipt;
use crate::text;
use crate::time::{self, Civil};

verus! {

/// Whether `a` comes before `b` in a dictionary.
pub open spec fn precedes(a: Seq<int>, b: Seq<int>) -> bool
    decreases a.len(),
{
    if b.len() == 0 {
        false
    } else if a.len() == 0 {
        true
    } else if a[0] != b[0] {
        a[0] < b[0]
    } else {
        precedes(a.drop_first(), b.drop_first())
    }
}

/// The bytes of a name as numbers.
pub open spec fn byte_values(s: Seq<u8>) -> Seq<int> {
    s.map_values(|b: u8| b as int)
}

/// The characters of a text as numbers.
pub open spec fn codes(s: Seq<char>) -> Seq<int> {
    s.map_values(|c: char| c as int)
}

/// Whether `a` comes before `b` in a dictionary.
pub fn bytes_precede(a: &Vec<u8>, b: &Vec<u8>) -> (r: bool)
    ensures
        r == precedes(byte_values(a@), byte_values(b@)),
{
    let ghost x = byte_values(a@);
    let ghost y = byte_values(b@);
    let mut i: usize = 0;
    assert(x.skip(0) =~= x);
    assert(y.skip(0) =~= y);
    while i < a.len() && i < b.len()
        invariant
            x == byte_values(a@),
            y == byte_values(b@),
            i <= a.len(),
            i <= b.len(),
            precedes(x, y) == precedes(x.skip(i as int), y.skip(i as int)),
        decreases a.len() - i,
    {
        if a[i] != b[i] {
            assert(x.skip(i as int)[0] == a@[i as int]);
            assert(y.skip(i as int)[0] == b@[i as int]);
            return a[i] < b[i];
        }
        assert(x.skip(i as int).drop_first() =~= x.skip(i + 1));
        assert(y.skip(i as int).drop_first() =~= y.skip(i + 1));
        i += 1;
    }
    a.len() < b.len()
}

/// Of two names, one comes first unless they are the same.
pub proof fn precedes_is_total(a: Seq<int>, b: Seq<int>)
    ensures
        precedes(a, b) || precedes(b, a) || a == b,
        !(precedes(a, b) && precedes(b, a)),
        a == b ==> !precedes(a, b),
    decreases a.len(),
{
    if a.len() > 0 && b.len() > 0 {
        precedes_is_total(a.drop_first(), b.drop_first());
        if a[0] == b[0] && a.drop_first() == b.drop_first() {
            assert(a =~= seq![a[0]] + a.drop_first());
            assert(b =~= seq![b[0]] + b.drop_first());
        }
    } else if a.len() == 0 && b.len() == 0 {
        assert(a =~= b);
    }
}

/// What comes before a name comes before everything that follows it.
pub proof fn precedes_is_transitive(a: Seq<int>, b: Seq<int>, c: Seq<int>)
    requires
        precedes(a, b),
        precedes(b, c),
    ensures
        precedes(a, c),
    decreases a.len(),
{
    if a.len() > 0 && a[0] == b[0] && b[0] == c[0] {
        precedes_is_transitive(a.drop_first(), b.drop_first(), c.drop_first());
    }
}

/// Names of the same length, with more behind them.
proof fn precedes_by_parts(a: Seq<int>, b: Seq<int>, x: Seq<int>, y: Seq<int>)
    requires
        a.len() == b.len(),
    ensures
        precedes(a + x, b + y) <==> precedes(a, b) || (a == b && precedes(x, y)),
    decreases a.len(),
{
    if a.len() == 0 {
        assert(a + x =~= x);
        assert(b + y =~= y);
        assert(a =~= b);
    } else {
        assert((a + x).drop_first() =~= a.drop_first() + x);
        assert((b + y).drop_first() =~= b.drop_first() + y);
        precedes_by_parts(a.drop_first(), b.drop_first(), x, y);
        if a[0] == b[0] && a.drop_first() == b.drop_first() {
            assert(a =~= seq![a[0]] + a.drop_first());
            assert(b =~= seq![b[0]] + b.drop_first());
        }
    }
}

/// Two texts of the same length, and how they compare.
spec fn compares(a: Seq<char>, b: Seq<char>, first: bool, same: bool) -> bool {
    &&& a.len() == b.len()
    &&& precedes(codes(a), codes(b)) <==> first
    &&& a == b <==> same
}

proof fn compares_by_parts(
    a: Seq<char>,
    b: Seq<char>,
    first: bool,
    same: bool,
    x: Seq<char>,
    y: Seq<char>,
    then_first: bool,
    then_same: bool,
)
    requires
        compares(a, b, first, same),
        compares(x, y, then_first, then_same),
    ensures
        compares(a + x, b + y, first || (same && then_first), same && then_same),
{
    assert(codes(a + x) =~= codes(a) + codes(x));
    assert(codes(b + y) =~= codes(b) + codes(y));
    precedes_by_parts(codes(a), codes(b), codes(x), codes(y));
    if codes(a) == codes(b) {
        assert forall|i: int| 0 <= i < a.len() implies a[i] == b[i] by {
            assert(codes(a)[i] == codes(b)[i]);
        }
        assert(a =~= b);
    }
    if a + x == b + y {
        assert(a =~= (a + x).take(a.len() as int));
        assert(b =~= (b + y).take(a.len() as int));
        assert(x =~= (a + x).skip(a.len() as int));
        assert(y =~= (b + y).skip(a.len() as int));
    }
}

proof fn compares_to_itself(s: Seq<char>)
    ensures
        compares(s, s, false, true),
{
    precedes_is_total(codes(s), codes(s));
}

/// The number that `width` digits can count to.
spec fn power_of_ten(width: int) -> int
    decreases width,
{
    if width <= 0 {
        1
    } else {
        10 * power_of_ten(width - 1)
    }
}

spec fn fixed(n: int, width: int) -> Seq<char> {
    text::zero_padded(text::decimal(n as nat), width)
}

proof fn fixed_width_unfolds(n: int, width: int)
    requires
        width >= 2,
        n >= 0,
    ensures
        fixed(n, width) == fixed(n / 10, width - 1).push(text::digit_char(n % 10)),
{
    let d = text::digit_char(n % 10);
    if n >= 10 {
        assert(text::decimal(n as nat) == text::decimal((n / 10) as nat).push(d));
    } else {
        assert(text::decimal(n as nat) == seq![d]);
        assert(text::decimal(0) == seq!['0']);
    }
    assert(fixed(n, width) =~= fixed(n / 10, width - 1).push(d));
}

proof fn fixed_width_compares(m: int, n: int, width: int)
    requires
        width >= 1,
        0 <= m < power_of_ten(width),
        0 <= n < power_of_ten(width),
    ensures
        compares(fixed(m, width), fixed(n, width), m < n, m == n),
        fixed(m, width).len() == width,
        text::all_digits(fixed(m, width)),
    decreases width,
{
    reveal_with_fuel(power_of_ten, 2);
    let c = text::digit_char(m % 10);
    let d = text::digit_char(n % 10);
    assert(codes(seq![c]) =~= seq![c as int]);
    assert(codes(seq![d]) =~= seq![d as int]);
    assert(compares(seq![c], seq![d], m % 10 < n % 10, m % 10 == n % 10)) by {
        reveal_with_fuel(precedes, 2);
        if m % 10 != n % 10 {
            assert(seq![c][0] != seq![d][0]);
        }
    }
    if width == 1 {
        assert(fixed(m, 1) =~= seq![c]);
        assert(fixed(n, 1) =~= seq![d]);
    } else {
        fixed_width_unfolds(m, width);
        fixed_width_unfolds(n, width);
        fixed_width_compares(m / 10, n / 10, width - 1);
        compares_by_parts(
            fixed(m / 10, width - 1),
            fixed(n / 10, width - 1),
            m / 10 < n / 10,
            m / 10 == n / 10,
            seq![c],
            seq![d],
            m % 10 < n % 10,
            m % 10 == n % 10,
        );
        assert(fixed(m, width) =~= fixed(m / 10, width - 1) + seq![c]);
        assert(fixed(n, width) =~= fixed(n / 10, width - 1) + seq![d]);
    }
}

/// The millisecond within its second.
pub open spec fn millisecond(c: Civil) -> int {
    c.nanosecond / 1_000_000 % 1000
}

/// Whether two moments fall into the same millisecond.
pub open spec fn same_millisecond(a: Civil, b: Civil) -> bool {
    &&& a.year == b.year
    &&& a.month == b.month
    &&& a.day == b.day
    &&& a.hour == b.hour
    &&& a.minute == b.minute
    &&& time::shown_second(a) == time::shown_second(b)
    &&& millisecond(a) == millisecond(b)
}

/// Whether the millisecond that `a` falls into ends before that of `b` begins.
pub open spec fn earlier_millisecond(a: Civil, b: Civil) -> bool {
    if a.year != b.year {
        a.year < b.year
    } else if a.month != b.month {
        a.month < b.month
    } else if a.day != b.day {
        a.day < b.day
    } else if a.hour != b.hour {
        a.hour < b.hour
    } else if a.minute != b.minute {
        a.minute < b.minute
    } else if time::shown_second(a) != time::shown_second(b) {
        time::shown_second(a) < time::shown_second(b)
    } else {
        millisecond(a) < millisecond(b)
    }
}

proof fn dates_compare(a: Civil, b: Civil)
    requires
        time::is_moment(a),
        time::is_moment(b),
        0 <= a.year <= 9999,
        0 <= b.year <= 9999,
    ensures
        compares(
            time::date_text(a),
            time::date_text(b),
            a.year < b.year || (a.year == b.year && (a.month < b.month || (a.month == b.month
                && a.day < b.day))),
            a.year == b.year && a.month == b.month && a.day == b.day,
        ),
{
    reveal_with_fuel(power_of_ten, 5);
    let dash = "-"@;
    compares_to_itself(dash);
    fixed_width_compares(a.year, b.year, 4);
    fixed_width_compares(a.month, b.month, 2);
    fixed_width_compares(a.day, b.day, 2);
    let (ya, yb) = (fixed(a.year, 4), fixed(b.year, 4));
    let (ma, mb) = (fixed(a.month, 2), fixed(b.month, 2));
    let (da, db) = (fixed(a.day, 2), fixed(b.day, 2));
    let year_first = a.year < b.year;
    let year_same = a.year == b.year;
    compares_by_parts(ya, yb, year_first, year_same, dash, dash, false, true);
    let month_first = year_first || (year_same && a.month < b.month);
    let month_same = year_same && a.month == b.month;
    compares_by_parts(
        ya + dash,
        yb + dash,
        year_first,
        year_same,
        ma,
        mb,
        a.month < b.month,
        a.month == b.month,
    );
    compares_by_parts(
        ya + dash + ma,
        yb + dash + mb,
        month_first,
        month_same,
        dash,
        dash,
        false,
        true,
    );
    compares_by_parts(
        ya + dash + ma + dash,
        yb + dash + mb + dash,
        month_first,
        month_same,
        da,
        db,
        a.day < b.day,
        a.day == b.day,
    );
}

proof fn clocks_compare(a: Civil, b: Civil, sep: Seq<char>)
    requires
        time::is_moment(a),
        time::is_moment(b),
    ensures
        compares(
            time::clock_text(a, sep),
            time::clock_text(b, sep),
            a.hour < b.hour || (a.hour == b.hour && (a.minute < b.minute || (a.minute == b.minute
                && time::shown_second(a) < time::shown_second(b)))),
            a.hour == b.hour && a.minute == b.minute && time::shown_second(a)
                == time::shown_second(b),
        ),
{
    reveal_with_fuel(power_of_ten, 5);
    compares_to_itself(sep);
    let (sa, sb) = (time::shown_second(a), time::shown_second(b));
    fixed_width_compares(a.hour, b.hour, 2);
    fixed_width_compares(a.minute, b.minute, 2);
    fixed_width_compares(sa, sb, 2);
    let (ha, hb) = (fixed(a.hour, 2), fixed(b.hour, 2));
    let (ma, mb) = (fixed(a.minute, 2), fixed(b.minute, 2));
    let hour_first = a.hour < b.hour;
    let hour_same = a.hour == b.hour;
    compares_by_parts(ha, hb, hour_first, hour_same, sep, sep, false, true);
    let minute_first = hour_first || (hour_same && a.minute < b.minute);
    let minute_same = hour_same && a.minute == b.minute;
    compares_by_parts(
        ha + sep,
        hb + sep,
        hour_first,
        hour_same,
        ma,
        mb,
        a.minute < b.minute,
        a.minute == b.minute,
    );
    compares_by_parts(
        ha + sep + ma,
        hb + sep + mb,
        minute_first,
        minute_same,
        sep,
        sep,
        false,
        true,
    );
    compares_by_parts(
        ha + sep + ma + sep,
        hb + sep + mb + sep,
        minute_first,
        minute_same,
        fixed(sa, 2),
        fixed(sb, 2),
        sa < sb,
        sa == sb,
    );
}

proof fn file_names_compare(a: Civil, b: Civil)
    requires
        time::is_moment(a),
        time::is_moment(b),
        0 <= a.year <= 9999,
        0 <= b.year <= 9999,
    ensures
        compares(
            receipt::file_name(a),
            receipt::file_name(b),
            earlier_millisecond(a, b),
            same_millisecond(a, b),
        ),
{
    reveal_with_fuel(power_of_ten, 5);
    let day_first = a.year < b.year || (a.year == b.year && (a.month < b.month || (a.month
        == b.month && a.day < b.day)));
    let day_same = a.year == b.year && a.month == b.month && a.day == b.day;
    let clock_first = a.hour < b.hour || (a.hour == b.hour && (a.minute < b.minute || (a.minute
        == b.minute && time::shown_second(a) < time::shown_second(b))));
    let clock_same = a.hour == b.hour && a.minute == b.minute && time::shown_second(a)
        == time::shown_second(b);
    let second_first = day_first || (day_same && clock_first);
    let second_same = day_same && clock_same;
    dates_compare(a, b);
    clocks_compare(a, b, "_"@);
    fixed_width_compares(millisecond(a), millisecond(b), 3);
    compares_to_itself("T"@);
    compares_to_itself("."@);
    compares_to_itself("Z"@);
    compares_to_itself(".json"@);
    let (pa, pb) = (time::date_text(a), time::date_text(b));
    compares_by_parts(pa, pb, day_first, day_same, "T"@, "T"@, false, true);
    let (pa, pb) = (pa + "T"@, pb + "T"@);
    let (ca, cb) = (time::clock_text(a, "_"@), time::clock_text(b, "_"@));
    compares_by_parts(pa, pb, day_first, day_same, ca, cb, clock_first, clock_same);
    let (pa, pb) = (pa + ca, pb + cb);
    compares_by_parts(pa, pb, second_first, second_same, "."@, "."@, false, true);
    let (pa, pb) = (pa + "."@, pb + "."@);
    let (fa, fb) = (fixed(millisecond(a), 3), fixed(millisecond(b), 3));
    compares_by_parts(
        pa,
        pb,
        second_first,
        second_same,
        fa,
        fb,
        millisecond(a) < millisecond(b),
        millisecond(a) == millisecond(b),
    );
    let first = second_first || (second_same && millisecond(a) < millisecond(b));
    let same = second_same && millisecond(a) == millisecond(b);
    let (pa, pb) = (pa + fa, pb + fb);
    compares_by_parts(pa, pb, first, same, "Z"@, "Z"@, false, true);
    let (pa, pb) = (pa + "Z"@, pb + "Z"@);
    compares_by_parts(pa, pb, first, same, ".json"@, ".json"@, false, true);
}

spec fn plain(s: Seq<char>) -> bool {
    forall|i: int| 0 <= i < s.len() ==> 0 <= (#[trigger] s[i]) as int <= 127 && s[i] != ':'
}

proof fn digits_are_plain(n: int, width: int)
    requires
        n >= 0,
    ensures
        plain(fixed(n, width)),
{
    text::digits_are_digits(n as nat);
    let s = fixed(n, width);
    let d = text::decimal(n as nat);
    assert forall|i: int| 0 <= i < s.len() implies 0 <= (#[trigger] s[i]) as int <= 127
        && s[i] != ':' by {
        if i >= s.len() - d.len() {
            assert(s[i] == d[i - (s.len() - d.len())]);
            assert(text::is_digit(s[i]));
        }
    }
}

proof fn file_names_are_plain(c: Civil)
    requires
        time::is_moment(c),
    ensures
        plain(receipt::file_name(c)),
{
    reveal_strlit("-");
    reveal_strlit("+");
    reveal_strlit("T");
    reveal_strlit("_");
    reveal_strlit(".");
    reveal_strlit("Z");
    reveal_strlit(".json");
    let size = if c.year < 0 {
        -c.year
    } else {
        c.year
    };
    digits_are_plain(size, 4);
    digits_are_plain(size, 0);
    assert(fixed(size, 0) =~= text::decimal(size as nat));
    assert(plain(time::year_text(c.year)));
    digits_are_plain(c.month, 2);
    digits_are_plain(c.day, 2);
    assert(plain(time::date_text(c)));
    digits_are_plain(c.hour, 2);
    digits_are_plain(c.minute, 2);
    digits_are_plain(time::shown_second(c), 2);
    assert(plain(time::clock_text(c, "_"@)));
    digits_are_plain(millisecond(c), 3);
}

/// No file name of a receipt holds a colon, and each ends in `.json`.
pub proof fn file_names_are_portable(c: Civil)
    requires
        time::is_moment(c),
    ensures
        !receipt::file_name(c).contains(':'),
        text::ends_with(receipt::file_name(c), ".json"@),
{
    file_names_are_plain(c);
    let s = receipt::file_name(c);
    assert(s.skip(s.len() - ".json"@.len()) =~= ".json"@);
}

/// Sorting receipts by file name sorts them by time, to the millisecond.
///
/// Holds for the years that take four digits.
pub proof fn file_names_sort_by_time(a: Civil, b: Civil)
    requires
        time::is_moment(a),
        time::is_moment(b),
        0 <= a.year <= 9999,
        0 <= b.year <= 9999,
    ensures
        precedes(
            byte_values(vstd::utf8::encode_utf8(receipt::file_name(a))),
            byte_values(vstd::utf8::encode_utf8(receipt::file_name(b))),
        ) <==> earlier_millisecond(a, b),
        receipt::file_name(a) == receipt::file_name(b) <==> same_millisecond(a, b),
{
    file_names_compare(a, b);
    names_are_their_bytes(a);
    names_are_their_bytes(b);
}

/// The bytes of a receipt's file name are its characters.
pub proof fn names_are_their_bytes(c: Civil)
    requires
        time::is_moment(c),
    ensures
        byte_values(vstd::utf8::encode_utf8(receipt::file_name(c))) == codes(
            receipt::file_name(c),
        ),
{
    let s = receipt::file_name(c);
    file_names_are_plain(c);
    assert forall|i: int| 0 <= i < s.len() implies '\0' <= #[trigger] s[i] <= '\u{7f}' by {
        assert(0 <= s[i] as int <= 127);
    }
    vstd::utf8::is_ascii_chars_encode_utf8(s);
    assert(byte_values(vstd::utf8::encode_utf8(s)) =~= codes(s));
}

/// One name comes before another exactly where it is a shorter beginning of it, or has the smaller
/// byte where the two first differ.
pub proof fn the_first_difference_decides(a: &Vec<u8>, b: &Vec<u8>, r: bool, k: int)
    requires
        call_ensures(bytes_precede, (a, b), r),
        0 <= k <= a@.len(),
        k <= b@.len(),
        forall|i: int| 0 <= i < k ==> #[trigger] a@[i] == b@[i],
        k < a@.len() && k < b@.len() ==> a@[k] != b@[k],
    ensures
        k < a@.len() && k < b@.len() ==> r == (a@[k] < b@[k]),
        k == a@.len() ==> r == (a@.len() < b@.len()),
        k == b@.len() ==> !r,
{
    let x = byte_values(a@);
    let y = byte_values(b@);
    assert forall|i: int| 0 <= i < k implies #[trigger] x[i] == y[i] by {
        assert(a@[i] == b@[i]);
    }
    first_difference(x, y, k);
}

proof fn first_difference(x: Seq<int>, y: Seq<int>, k: int)
    requires
        0 <= k <= x.len(),
        k <= y.len(),
        forall|i: int| 0 <= i < k ==> #[trigger] x[i] == y[i],
        k < x.len() && k < y.len() ==> x[k] != y[k],
    ensures
        k < x.len() && k < y.len() ==> precedes(x, y) == (x[k] < y[k]),
        k == x.len() ==> precedes(x, y) == (x.len() < y.len()),
        k == y.len() ==> !precedes(x, y),
    decreases k,
{
    if k > 0 {
        let xs = x.drop_first();
        let ys = y.drop_first();
        assert(x[0] == y[0]);
        assert forall|i: int| 0 <= i < k - 1 implies #[trigger] xs[i] == ys[i] by {
            assert(xs[i] == x[i + 1] && ys[i] == y[i + 1]);
        }
        first_difference(xs, ys, k - 1);
    }
}

} // verus!
