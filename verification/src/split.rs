//! Taking text apart: lines, words, and what stands between separators.

use vstd::prelude::*;

use crate::text;

verus! {

/// Where `c` first stands in `s`, or the length of `s`.
pub open spec fn first_index(s: Seq<char>, c: char) -> nat
    decreases s.len(),
{
    if s.len() == 0 || s[0] == c {
        0
    } else {
        1 + first_index(s.drop_first(), c)
    }
}

/// Where `c` last stands in `s`, or -1.
pub open spec fn last_index(s: Seq<char>, c: char) -> int
    decreases s.len(),
{
    if s.len() == 0 {
        -1
    } else if s.last() == c {
        s.len() - 1
    } else {
        last_index(s.drop_last(), c)
    }
}

/// Where the first white space in `s` stands, or the length of `s`.
pub open spec fn first_white(s: Seq<char>) -> nat
    decreases s.len(),
{
    if s.len() == 0 || text::is_white(s[0]) {
        0
    } else {
        1 + first_white(s.drop_first())
    }
}

/// `s` without one carriage return at its end.
pub open spec fn without_return(s: Seq<char>) -> Seq<char> {
    if s.len() > 0 && s.last() == '\r' {
        s.drop_last()
    } else {
        s
    }
}

/// The lines of a text, without their ends: a newline, or a carriage return and a newline.
pub open spec fn lines(s: Seq<char>) -> Seq<Seq<char>>
    decreases s.len(),
{
    let n = first_index(s, '\n');
    if s.len() == 0 {
        Seq::empty()
    } else if n >= s.len() {
        seq![s]
    } else {
        seq![without_return(s.take(n as int))] + lines(s.skip(n as int + 1))
    }
}

/// The words of a text: what stands between white space.
pub open spec fn words(s: Seq<char>) -> Seq<Seq<char>>
    decreases s.len(),
{
    let t = text::trim_start(s);
    if t.len() == 0 {
        Seq::empty()
    } else {
        proof {
            trimming_shortens(s);
        }
        seq![t.take(first_white(t) as int)] + words(t.skip(first_white(t) as int))
    }
}

/// Trimming makes no text longer, and what is left starts with a word.
pub proof fn trimming_shortens(s: Seq<char>)
    ensures
        text::trim_start(s).len() <= s.len(),
        text::trim_start(s).len() > 0 ==> !text::is_white(text::trim_start(s)[0]),
        first_white(s) <= s.len(),
        text::trim_start(s).len() > 0 ==> 0 < first_white(text::trim_start(s))
            <= text::trim_start(s).len(),
    decreases s.len(),
{
    if s.len() > 0 {
        trimming_shortens(s.drop_first());
        if !text::is_white(s[0]) {
            assert(first_white(s) == 1 + first_white(s.drop_first()));
        }
    }
}

/// The characters of `v` from `from` to `to`.
pub fn slice(v: &Vec<char>, s: &str, from: usize, to: usize) -> (r: String)
    requires
        v@ == s@,
        from <= to <= v@.len(),
    ensures
        r@ == s@.subrange(from as int, to as int),
{
    s.substring_char(from, to).to_owned()
}

/// The lines of a text.
pub fn lines_of(s: &str) -> (r: Vec<String>)
    ensures
        text::views(r@) == lines(s@),
{
    let v: Vec<char> = text::chars_of(s);
    let ghost all = s@;
    let mut r: Vec<String> = Vec::new();
    let mut from: usize = 0;
    assert(all.skip(0) =~= all);
    assert(text::views(r@) + lines(all.skip(0)) =~= lines(all));
    while from < v.len()
        invariant
            v@ == s@,
            all == s@,
            from <= v.len(),
            text::views(r@) + lines(all.skip(from as int)) == lines(all),
        decreases v.len() - from,
    {
        let ghost rest = all.skip(from as int);
        let ghost before = text::views(r@);
        let mut to: usize = from;
        assert(rest.skip(0) =~= rest);
        while to < v.len() && v[to] != '\n'
            invariant
                v@ == all,
                from <= to <= v.len(),
                rest == all.skip(from as int),
                first_index(rest, '\n') == (to - from) + first_index(rest.skip(to - from), '\n'),
            decreases v.len() - to,
        {
            assert(rest.skip(to - from)[0] == v@[to as int]);
            assert(rest.skip(to - from).drop_first() =~= rest.skip(to - from + 1));
            to += 1;
        }
        assert(first_index(rest, '\n') == to - from) by {
            if to < v.len() {
                assert(rest.skip(to - from)[0] == v@[to as int]);
            }
        }
        if to == v.len() {
            let line: String = slice(&v, s, from, to);
            assert(line@ =~= rest);
            r.push(line);
            assert(text::views(r@) =~= before.push(line@));
            assert(lines(rest) =~= seq![rest]);
            assert(lines(all.skip(to as int)) =~= Seq::empty());
            assert(text::views(r@) + lines(all.skip(to as int)) =~= before + lines(rest));
            from = to;
        } else {
            let end: usize = if from < to && v[to - 1] == '\r' {
                to - 1
            } else {
                to
            };
            let line: String = slice(&v, s, from, end);
            proof {
                let whole = rest.take(to - from);
                if from < to {
                    assert(whole.last() == v@[to - 1]);
                }
                assert(line@ =~= without_return(whole));
                assert(rest.skip(to - from + 1) =~= all.skip(to + 1));
            }
            r.push(line);
            assert(text::views(r@) =~= before.push(line@));
            assert(text::views(r@) + lines(all.skip(to + 1)) =~= before + lines(rest));
            from = to + 1;
        }
    }
    assert(lines(all.skip(from as int)) =~= Seq::empty());
    assert(text::views(r@) =~= lines(all));
    r
}

/// The words of a text.
pub fn words_of(s: &str) -> (r: Vec<String>)
    ensures
        text::views(r@) == words(s@),
{
    let v: Vec<char> = text::chars_of(s);
    let ghost all = s@;
    let mut r: Vec<String> = Vec::new();
    let mut from: usize = 0;
    assert(all.skip(0) =~= all);
    assert(text::views(r@) + words(all.skip(0)) =~= words(all));
    while from < v.len()
        invariant
            v@ == s@,
            all == s@,
            from <= v.len(),
            text::views(r@) + words(all.skip(from as int)) == words(all),
        decreases v.len() - from,
    {
        let ghost rest = all.skip(from as int);
        let ghost before = text::views(r@);
        if text::whitespace(v[from]) {
            assert(rest[0] == v@[from as int]);
            assert(rest.drop_first() =~= all.skip(from + 1));
            from += 1;
        } else {
            let mut to: usize = from;
            assert(rest[0] == v@[from as int]);
            assert(rest.skip(0) =~= rest);
            while to < v.len() && !text::whitespace(v[to])
                invariant
                    v@ == all,
                    from <= to <= v.len(),
                    rest == all.skip(from as int),
                    first_white(rest) == (to - from) + first_white(rest.skip(to - from)),
                decreases v.len() - to,
            {
                assert(rest.skip(to - from)[0] == v@[to as int]);
                assert(rest.skip(to - from).drop_first() =~= rest.skip(to - from + 1));
                to += 1;
            }
            assert(first_white(rest) == to - from) by {
                if to < v.len() {
                    assert(rest.skip(to - from)[0] == v@[to as int]);
                }
            }
            proof {
                trimming_shortens(rest);
                assert(text::trim_start(rest) == rest);
                assert(rest.skip(to - from) =~= all.skip(to as int));
            }
            let word: String = slice(&v, s, from, to);
            assert(word@ =~= rest.take(to - from));
            r.push(word);
            assert(text::views(r@) =~= before.push(word@));
            assert(text::views(r@) + words(all.skip(to as int)) =~= before + words(rest));
            from = to;
        }
    }
    assert(words(all.skip(from as int)) =~= Seq::empty());
    assert(text::views(r@) =~= words(all));
    r
}

// ---------------------------------------------------------------------------
// Laws
// ---------------------------------------------------------------------------

/// The first place of a character holds it, and no place before that does.
pub proof fn the_first_index_is_first(s: Seq<char>, c: char)
    ensures
        0 <= first_index(s, c) <= s.len(),
        first_index(s, c) < s.len() ==> s[first_index(s, c) as int] == c,
        forall|j: int| 0 <= j < first_index(s, c) ==> #[trigger] s[j] != c,
    decreases s.len(),
{
    if s.len() > 0 && s[0] != c {
        let rest = s.drop_first();
        the_first_index_is_first(rest, c);
        assert forall|j: int| 0 <= j < first_index(s, c) implies #[trigger] s[j] != c by {
            if j > 0 {
                assert(rest[j - 1] == s[j]);
            }
        }
    }
}

/// The last place of a character holds it, and no place behind that does.
pub proof fn the_last_index_is_last(s: Seq<char>, c: char)
    ensures
        -1 <= last_index(s, c) < s.len(),
        last_index(s, c) >= 0 ==> s[last_index(s, c)] == c,
        forall|j: int| last_index(s, c) < j < s.len() ==> #[trigger] s[j] != c,
    decreases s.len(),
{
    if s.len() > 0 && s.last() != c {
        let rest = s.drop_last();
        the_last_index_is_last(rest, c);
        assert forall|j: int| last_index(s, c) < j < s.len() implies #[trigger] s[j] != c by {
            if j < rest.len() {
                assert(rest[j] == s[j]);
            }
        }
    }
}

proof fn first_index_at(s: Seq<char>, c: char, at: int)
    requires
        0 <= at <= s.len(),
        at < s.len() ==> s[at] == c,
        forall|j: int| 0 <= j < at ==> #[trigger] s[j] != c,
    ensures
        first_index(s, c) == at,
{
    the_first_index_is_first(s, c);
    if first_index(s, c) < at {
        assert(s[first_index(s, c) as int] != c);
    }
}

/// The place of the last `c` is the one behind which there is none.
pub proof fn last_index_at(s: Seq<char>, c: char, at: int)
    requires
        -1 <= at < s.len(),
        at >= 0 ==> s[at] == c,
        forall|j: int| at < j < s.len() ==> #[trigger] s[j] != c,
    ensures
        last_index(s, c) == at,
{
    the_last_index_is_last(s, c);
    if last_index(s, c) > at {
        assert(s[last_index(s, c)] != c);
    }
}

/// A line ends at its newline, or at a carriage return right before that, and the last line may
/// do without.
pub proof fn a_line_ends_at_its_newline(line: Seq<char>, rest: Seq<char>)
    requires
        forall|i: int| 0 <= i < line.len() ==> #[trigger] line[i] != '\n',
    ensures
        lines(Seq::empty()) == Seq::<Seq<char>>::empty(),
        line.len() > 0 ==> lines(line) == seq![line],
        (line.len() == 0 || line.last() != '\r') ==> lines(line + seq!['\n'] + rest) == seq![line]
            + lines(rest),
        lines(line + seq!['\r', '\n'] + rest) == seq![line] + lines(rest),
{
    first_index_at(line, '\n', line.len() as int);
    let plain = line + seq!['\n'] + rest;
    assert(plain[line.len() as int] == '\n');
    assert forall|j: int| 0 <= j < line.len() implies #[trigger] plain[j] != '\n' by {
        assert(plain[j] == line[j]);
    }
    first_index_at(plain, '\n', line.len() as int);
    assert(plain.take(line.len() as int) =~= line);
    assert(plain.skip(line.len() as int + 1) =~= rest);
    let returned = line + seq!['\r', '\n'] + rest;
    let n = line.len() as int + 1;
    assert(returned[n] == '\n');
    assert forall|j: int| 0 <= j < n implies #[trigger] returned[j] != '\n' by {
        if j < line.len() {
            assert(returned[j] == line[j]);
        }
    }
    first_index_at(returned, '\n', n);
    let whole = returned.take(n);
    assert(whole.last() == '\r');
    assert(whole.drop_last() =~= line);
    assert(returned.skip(n + 1) =~= rest);
}

proof fn first_white_at(s: Seq<char>, at: int)
    requires
        0 <= at <= s.len(),
        at < s.len() ==> text::is_white(s[at]),
        forall|j: int| 0 <= j < at ==> !text::is_white(#[trigger] s[j]),
    ensures
        first_white(s) == at,
    decreases s.len(),
{
    if s.len() > 0 && at > 0 {
        let rest = s.drop_first();
        assert forall|j: int| 0 <= j < at - 1 implies !text::is_white(#[trigger] rest[j]) by {
            assert(rest[j] == s[j + 1]);
        }
        assert(!text::is_white(s[0]));
        first_white_at(rest, at - 1);
    }
}

/// White space in front makes no difference to the words of a text, a word ends at the first white
/// space behind it, and the last word may do without.
pub proof fn words_stand_between_white_space(word: Seq<char>, white: char, rest: Seq<char>)
    requires
        word.len() > 0,
        forall|i: int| 0 <= i < word.len() ==> !text::is_white(#[trigger] word[i]),
        text::is_white(white),
    ensures
        words(Seq::empty()) == Seq::<Seq<char>>::empty(),
        words(seq![white] + rest) == words(rest),
        words(word) == seq![word],
        words(word + seq![white] + rest) == seq![word] + words(rest),
{
    let led = seq![white] + rest;
    assert(led.drop_first() =~= rest);
    assert(words(Seq::<char>::empty()) =~= Seq::empty());
    first_white_at(word, word.len() as int);
    assert(!text::is_white(word[0]));
    assert(word.take(word.len() as int) =~= word);
    assert(word.skip(word.len() as int) =~= Seq::empty());
    assert(words(word) =~= seq![word]);
    let all = word + seq![white] + rest;
    assert(all[word.len() as int] == white);
    assert forall|j: int| 0 <= j < word.len() implies !text::is_white(#[trigger] all[j]) by {
        assert(all[j] == word[j]);
    }
    assert(all[0] == word[0]);
    first_white_at(all, word.len() as int);
    assert(all.take(word.len() as int) =~= word);
    assert(all.skip(word.len() as int) =~= led);
}

} // verus!
