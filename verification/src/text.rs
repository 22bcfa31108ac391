//! Character-level text operations with exact specifications:
//! substring search, splitting on a separator, whitespace trimming,
//! joining and decimal rendering.

use vstd::prelude::*;

verus! {

/// The characters of `s`, in order.
pub fn chars_of(s: &str) -> (v: Vec<char>)
    ensures
        v@ == s@,
{
    let mut v: Vec<char> = Vec::new();
    for c in it: s.chars()
        invariant
            it.seq() == s@,
            v@ == it.seq().take(it.index() as int),
    {
        v.push(c);
    }
    v
}


/// `pat` occurs in `s` starting at index `i`.
pub open spec fn occurs_at(s: Seq<char>, pat: Seq<char>, i: int) -> bool {
    &&& 0 <= i
    &&& i + pat.len() <= s.len()
    &&& s.subrange(i, i + pat.len()) == pat
}

/// `pat` occurs somewhere in `s` (as `str::contains` with a string pattern).
pub open spec fn contains(s: Seq<char>, pat: Seq<char>) -> bool {
    exists|i: int| occurs_at(s, pat, i)
}

/// The first index at or after `from` where `pat` occurs in `s`, or -1.
pub open spec fn first_occurrence_from(s: Seq<char>, pat: Seq<char>, from: int) -> int
    decreases s.len() + 1 - from,
{
    if from < 0 || from + pat.len() > s.len() {
        -1
    } else if occurs_at(s, pat, from) {
        from
    } else {
        first_occurrence_from(s, pat, from + 1)
    }
}

/// What `first_occurrence_from` returns is an occurrence, none lies between
/// `from` and it, and -1 means there is none at or after `from`.
pub proof fn lemma_first_occurrence(s: Seq<char>, pat: Seq<char>, from: int)
    requires
        0 <= from,
    ensures
        ({
            let k = first_occurrence_from(s, pat, from);
            &&& k == -1 || (from <= k && occurs_at(s, pat, k))
            &&& forall|j: int| from <= j && (k == -1 || j < k) ==> !occurs_at(s, pat, j)
        }),
    decreases s.len() + 1 - from,
{
    if from + pat.len() > s.len() {
    } else if occurs_at(s, pat, from) {
    } else {
        lemma_first_occurrence(s, pat, from + 1);
    }
}

/// `pat` occurs at index `i` of `s` (exec form of `occurs_at`).
pub fn matches_at(s: &Vec<char>, pat: &Vec<char>, i: usize) -> (b: bool)
    ensures
        b == occurs_at(s@, pat@, i as int),
{
    if i > s.len() || pat.len() > s.len() - i {
        return false;
    }
    let mut j: usize = 0;
    while j < pat.len()
        invariant
            i + pat.len() <= s.len(),
            j <= pat.len(),
            forall|k: int| 0 <= k < j ==> s@[i + k] == pat@[k],
        decreases pat.len() - j,
    {
        if s[i + j] != pat[j] {
            assert(s@.subrange(i as int, i + pat.len())[j as int] != pat@[j as int]);
            return false;
        }
        j = j + 1;
    }
    assert(s@.subrange(i as int, i + pat.len()) =~= pat@);
    true
}

/// The first occurrence of `pat` in `s` at or after `from`.
pub fn find_from(s: &Vec<char>, pat: &Vec<char>, from: usize) -> (r: Option<usize>)
    ensures
        match r {
            Some(k) => k as int == first_occurrence_from(s@, pat@, from as int),
            None => first_occurrence_from(s@, pat@, from as int) == -1,
        },
{
    let mut i = from;
    while i <= s.len() && pat.len() <= s.len() - i
        invariant
            from <= i,
            first_occurrence_from(s@, pat@, from as int) == first_occurrence_from(s@, pat@, i as int),
        decreases s.len() + 1 - i,
    {
        if matches_at(s, pat, i) {
            return Some(i);
        }
        if i == s.len() {
            assert(first_occurrence_from(s@, pat@, i + 1) == -1);
            return None;
        }
        i = i + 1;
    }
    None
}

/// `pat` occurs somewhere in `s`.
pub fn contains_chars(s: &Vec<char>, pat: &Vec<char>) -> (b: bool)
    ensures
        b == contains(s@, pat@),
{
    let r = find_from(s, pat, 0);
    proof {
        lemma_first_occurrence(s@, pat@, 0);
    }
    r.is_some()
}

/// `pat` occurs somewhere in `s`.
pub fn str_contains(s: &str, pat: &str) -> (b: bool)
    ensures
        b == contains(s@, pat@),
{
    let sc = chars_of(s);
    let pc = chars_of(pat);
    contains_chars(&sc, &pc)
}


/// The pieces of `s` between the occurrences of `sep` found left to right
/// without overlap, starting at index `start` (as `str::split` with a
/// non-empty string pattern).
pub open spec fn split_from(s: Seq<char>, sep: Seq<char>, start: int) -> Seq<Seq<char>>
    decreases s.len() + 1 - start,
{
    let k = first_occurrence_from(s, sep, start);
    if sep.len() == 0 || start < 0 || start > s.len() || k < 0 {
        seq![s.subrange(start, s.len() as int)]
    } else {
        proof {
            lemma_first_occurrence(s, sep, start);
        }
        seq![s.subrange(start, k)] + split_from(s, sep, k + sep.len())
    }
}

/// `s` split on every occurrence of the non-empty separator `sep`.
pub open spec fn split(s: Seq<char>, sep: Seq<char>) -> Seq<Seq<char>> {
    split_from(s, sep, 0)
}

/// Splits `s` on `sep`, as `s.split(sep)` does for a non-empty separator.
pub fn split_str(s: &str, sep: &str) -> (pieces: Vec<String>)
    requires
        sep@.len() > 0,
    ensures
        pieces.deep_view() == split(s@, sep@),
{
    let sc = chars_of(s);
    let pc = chars_of(sep);
    let mut pieces: Vec<String> = Vec::new();
    let mut start: usize = 0;
    loop
        invariant
            sc@ == s@,
            pc@ == sep@,
            pc@.len() > 0,
            start <= sc.len(),
            pieces.deep_view() + split_from(sc@, pc@, start as int) == split_from(sc@, pc@, 0),
        decreases sc.len() - start,
    {
        let ghost old_pieces = pieces.deep_view();
        proof {
            lemma_first_occurrence(sc@, pc@, start as int);
        }
        match find_from(&sc, &pc, start) {
            Some(k) => {
                let piece = s.substring_char(start, k).to_owned();
                pieces.push(piece);
                assert(pieces.deep_view() =~= old_pieces.push(sc@.subrange(start as int, k as int)));
                assert(split_from(sc@, pc@, start as int) == seq![sc@.subrange(start as int, k as int)]
                    + split_from(sc@, pc@, k + pc@.len()));
                assert(pieces.deep_view() + split_from(sc@, pc@, k + pc@.len()) =~= old_pieces
                    + split_from(sc@, pc@, start as int));
                start = k + pc.len();
            },
            None => {
                let piece = s.substring_char(start, sc.len()).to_owned();
                pieces.push(piece);
                assert(pieces.deep_view() =~= old_pieces + split_from(sc@, pc@, start as int));
                return pieces;
            },
        }
    }
}

/// The characters that `char::is_whitespace` accepts: those with the
/// Unicode White_Space property.
pub open spec fn is_white_space(c: char) -> bool {
    ||| ('\u{9}' <= c && c <= '\u{d}')
    ||| c == ' '
    ||| c == '\u{85}'
    ||| c == '\u{a0}'
    ||| c == '\u{1680}'
    ||| ('\u{2000}' <= c && c <= '\u{200a}')
    ||| c == '\u{2028}'
    ||| c == '\u{2029}'
    ||| c == '\u{202f}'
    ||| c == '\u{205f}'
    ||| c == '\u{3000}'
}

/// Exec form of `is_white_space`.
pub fn white_space(c: char) -> (b: bool)
    ensures
        b == is_white_space(c),
{
    ('\u{9}' <= c && c <= '\u{d}') || c == ' ' || c == '\u{85}' || c == '\u{a0}' || c == '\u{1680}'
        || ('\u{2000}' <= c && c <= '\u{200a}') || c == '\u{2028}' || c == '\u{2029}' || c
        == '\u{202f}' || c == '\u{205f}' || c == '\u{3000}'
}

/// The index of the first character at or after `i` that is not white space
/// (or the length of `s`).
pub open spec fn skip_white_space(s: Seq<char>, i: int) -> int
    decreases s.len() - i,
{
    if 0 <= i < s.len() && is_white_space(s[i]) {
        skip_white_space(s, i + 1)
    } else {
        i
    }
}

/// The end of `s` once trailing white space down to index `lo` is dropped.
pub open spec fn trailing_end(s: Seq<char>, lo: int, j: int) -> int
    decreases j - lo,
{
    if lo < j <= s.len() && is_white_space(s[j - 1]) {
        trailing_end(s, lo, j - 1)
    } else {
        j
    }
}

/// `s` without leading and trailing white space (as `str::trim`).
pub open spec fn trim(s: Seq<char>) -> Seq<char> {
    let lo = skip_white_space(s, 0);
    s.subrange(lo, trailing_end(s, lo, s.len() as int))
}

/// `s` with leading and trailing white space removed, as `s.trim()`.
pub fn trim_str(s: &str) -> (t: String)
    ensures
        t@ == trim(s@),
{
    let sc = chars_of(s);
    let n = sc.len();
    let mut lo: usize = 0;
    while lo < n && white_space(sc[lo])
        invariant
            sc@ == s@,
            n == sc.len(),
            lo <= n,
            skip_white_space(sc@, lo as int) == skip_white_space(sc@, 0),
        decreases n - lo,
    {
        lo = lo + 1;
    }
    let mut hi: usize = n;
    while hi > lo && white_space(sc[hi - 1])
        invariant
            sc@ == s@,
            n == sc.len(),
            lo <= hi <= n,
            lo == skip_white_space(sc@, 0),
            trailing_end(sc@, lo as int, hi as int) == trailing_end(sc@, lo as int, n as int),
        decreases hi - lo,
    {
        hi = hi - 1;
    }
    s.substring_char(lo, hi).to_owned()
}

/// `list` joined with `sep` between consecutive items (as `[String]::join`).
pub open spec fn join(list: Seq<Seq<char>>, sep: Seq<char>) -> Seq<char>
    decreases list.len(),
{
    if list.len() == 0 {
        seq![]
    } else if list.len() == 1 {
        list[0]
    } else {
        join(list.drop_last(), sep) + sep + list.last()
    }
}

/// Joins `list` with `sep`, as `list.join(sep)`.
pub fn join_strings(list: &Vec<String>, sep: &str) -> (r: String)
    ensures
        r@ == join(list.deep_view(), sep@),
{
    let mut r = String::new();
    let ghost items = list.deep_view();
    let mut i: usize = 0;
    while i < list.len()
        invariant
            items == list.deep_view(),
            i <= list.len(),
            r@ == join(items.take(i as int), sep@),
        decreases list.len() - i,
    {
        if i != 0 {
            r.append(sep);
        }
        r.append(list[i].as_str());
        assert(items.take(i + 1).drop_last() =~= items.take(i as int));
        i = i + 1;
    }
    assert(items.take(list.len() as int) =~= items);
    r
}

/// Joining a non-empty list after a leading item puts the separator
/// between them.
proof fn lemma_join_cons(a: Seq<char>, rest: Seq<Seq<char>>, sep: Seq<char>)
    requires
        rest.len() > 0,
    ensures
        join(seq![a] + rest, sep) == a + sep + join(rest, sep),
    decreases rest.len(),
{
    let l = seq![a] + rest;
    assert(l.last() == rest.last());
    if rest.len() == 1 {
        assert(l.drop_last() =~= seq![a]);
        assert(join(seq![a], sep) == a);
        assert(join(rest, sep) == rest[0]);
        assert(join(l, sep) == join(l.drop_last(), sep) + sep + l.last());
    } else {
        assert(join(l, sep) == join(l.drop_last(), sep) + sep + l.last());
        assert(join(rest, sep) == join(rest.drop_last(), sep) + sep + rest.last());
        lemma_join_cons(a, rest.drop_last(), sep);
        assert((seq![a] + rest).drop_last() =~= seq![a] + rest.drop_last());
        assert(a + sep + join(rest.drop_last(), sep) + sep + rest.last() =~= a + sep + (join(
            rest.drop_last(),
            sep,
        ) + sep + rest.last()));
    }
}

proof fn lemma_join_split_from(s: Seq<char>, sep: Seq<char>, start: int)
    requires
        sep.len() > 0,
        0 <= start <= s.len(),
    ensures
        split_from(s, sep, start).len() > 0,
        join(split_from(s, sep, start), sep) == s.subrange(start, s.len() as int),
    decreases s.len() + 1 - start,
{
    let k = first_occurrence_from(s, sep, start);
    lemma_first_occurrence(s, sep, start);
    if k >= 0 {
        let rest = split_from(s, sep, k + sep.len());
        lemma_join_split_from(s, sep, k + sep.len());
        lemma_join_cons(s.subrange(start, k), rest, sep);
        assert(s.subrange(k, k + sep.len()) == sep);
        assert(s.subrange(start, k) + sep + s.subrange(k + sep.len(), s.len() as int) =~= s.subrange(
            start,
            s.len() as int,
        ));
    }
}

/// Splitting loses nothing: the pieces joined with the separator give back
/// the text.
pub proof fn law_split_join(s: Seq<char>, sep: Seq<char>)
    requires
        sep.len() > 0,
    ensures
        join(split(s, sep), sep) == s,
{
    lemma_join_split_from(s, sep, 0);
    assert(s.subrange(0, s.len() as int) =~= s);
}

/// `s` holds no `c`.
pub open spec fn free_of(s: Seq<char>, c: char) -> bool {
    forall|i: int| 0 <= i < s.len() ==> s[i] != c
}

/// Text free of `c` stays so when joined.
pub proof fn lemma_free_of_concat(a: Seq<char>, b: Seq<char>, c: char)
    requires
        free_of(a, c),
        free_of(b, c),
    ensures
        free_of(a + b, c),
{
    assert forall|i: int| 0 <= i < (a + b).len() implies (a + b)[i] != c by {
        if i < a.len() {
            assert((a + b)[i] == a[i]);
        } else {
            assert((a + b)[i] == b[i - a.len()]);
        }
    }
}

proof fn lemma_occurs_shift(s: Seq<char>, sep: Seq<char>, k: int, i: int)
    requires
        0 <= k <= s.len(),
        0 <= i,
    ensures
        occurs_at(s, sep, k + i) == occurs_at(s.skip(k), sep, i),
{
    if k + i + sep.len() <= s.len() {
        assert(s.subrange(k + i, k + i + sep.len()) =~= s.skip(k).subrange(i, i + sep.len()));
    }
}

proof fn lemma_first_occurrence_shift(s: Seq<char>, sep: Seq<char>, k: int, from: int)
    requires
        0 <= k <= s.len(),
        0 <= from,
    ensures
        first_occurrence_from(s, sep, k + from) == (if first_occurrence_from(s.skip(k), sep, from) < 0 {
            -1
        } else {
            first_occurrence_from(s.skip(k), sep, from) + k
        }),
    decreases s.len() - k + 1 - from,
{
    lemma_occurs_shift(s, sep, k, from);
    if from + sep.len() > s.len() - k {
    } else if occurs_at(s, sep, k + from) {
    } else {
        lemma_first_occurrence_shift(s, sep, k, from + 1);
        assert(k + from + 1 == k + (from + 1));
    }
}

proof fn lemma_split_shift(s: Seq<char>, sep: Seq<char>, k: int, from: int)
    requires
        sep.len() > 0,
        0 <= k <= s.len(),
        0 <= from <= s.len() - k,
    ensures
        split_from(s, sep, k + from) == split_from(s.skip(k), sep, from),
    decreases s.len() - k + 1 - from,
{
    let t = s.skip(k);
    lemma_first_occurrence_shift(s, sep, k, from);
    lemma_first_occurrence(t, sep, from);
    let r = first_occurrence_from(t, sep, from);
    if r < 0 {
        assert(s.subrange(k + from, s.len() as int) =~= t.subrange(from, t.len() as int));
    } else {
        lemma_first_occurrence(s, sep, k + from);
        lemma_split_shift(s, sep, k, r + sep.len());
        assert(k + (r + sep.len()) == (r + k) + sep.len());
        assert(s.subrange(k + from, r + k) =~= t.subrange(from, r));
    }
}

/// With a one-character separator that no item holds, splitting the joined
/// items gives them back.
pub proof fn law_join_split(list: Seq<Seq<char>>, c: char)
    requires
        list.len() > 0,
        forall|i: int| 0 <= i < list.len() ==> free_of(#[trigger] list[i], c),
    ensures
        split(join(list, seq![c]), seq![c]) == list,
    decreases list.len(),
{
    let sep = seq![c];
    let a = list[0];
    let rest = list.drop_first();
    if rest.len() == 0 {
        assert(join(list, sep) == a);
        lemma_first_occurrence(a, sep, 0);
        let k = first_occurrence_from(a, sep, 0);
        if k >= 0 {
            assert(a.subrange(k, k + 1)[0] == a[k]);
        }
        assert(a.subrange(0, a.len() as int) =~= a);
        assert(seq![a] =~= list);
    } else {
        assert(list =~= seq![a] + rest);
        lemma_join_cons(a, rest, sep);
        let j = a + sep + join(rest, sep);
        assert(j.subrange(a.len() as int, a.len() as int + 1) =~= sep);
        assert(occurs_at(j, sep, a.len() as int));
        lemma_first_occurrence(j, sep, 0);
        let k = first_occurrence_from(j, sep, 0);
        if k < a.len() {
            assert(j.subrange(k, k + 1)[0] == j[k]);
            assert(j[k] == a[k]);
        }
        assert(k == a.len());
        assert(j.subrange(0, a.len() as int) =~= a);
        lemma_split_shift(j, sep, a.len() as int + 1, 0);
        assert(j.skip(a.len() as int + 1) =~= join(rest, sep));
        assert forall|i: int| 0 <= i < rest.len() implies free_of(#[trigger] rest[i], c) by {
            assert(rest[i] == list[i + 1]);
        }
        law_join_split(rest, c);
        assert(split(j, sep) == seq![a] + split_from(j, sep, a.len() as int + 1));
    }
}

/// The decimal digit for `d` (which is below ten).
pub open spec fn digit_char(d: nat) -> char {
    if d == 0 { '0' }
    else if d == 1 { '1' }
    else if d == 2 { '2' }
    else if d == 3 { '3' }
    else if d == 4 { '4' }
    else if d == 5 { '5' }
    else if d == 6 { '6' }
    else if d == 7 { '7' }
    else if d == 8 { '8' }
    else { '9' }
}

/// The decimal notation of `n`, without leading zeros (as `n.to_string()`).
pub open spec fn decimal(n: nat) -> Seq<char>
    decreases n,
{
    if n < 10 {
        seq![digit_char(n)]
    } else {
        decimal(n / 10).push(digit_char(n % 10))
    }
}

fn digit_string(d: usize) -> (s: String)
    requires
        d < 10,
    ensures
        s@ == seq![digit_char(d as nat)],
{
    proof {
        reveal_strlit("0");
        reveal_strlit("1");
        reveal_strlit("2");
        reveal_strlit("3");
        reveal_strlit("4");
        reveal_strlit("5");
        reveal_strlit("6");
        reveal_strlit("7");
        reveal_strlit("8");
        reveal_strlit("9");
    }
    let s = if d == 0 { "0" }
        else if d == 1 { "1" }
        else if d == 2 { "2" }
        else if d == 3 { "3" }
        else if d == 4 { "4" }
        else if d == 5 { "5" }
        else if d == 6 { "6" }
        else if d == 7 { "7" }
        else if d == 8 { "8" }
        else { "9" };
    let r = s.to_owned();
    assert(r@ =~= seq![digit_char(d as nat)]);
    r
}

/// The decimal notation of `n`, as `n.to_string()`.
pub fn decimal_string(n: usize) -> (s: String)
    ensures
        s@ == decimal(n as nat),
    decreases n,
{
    if n < 10 {
        digit_string(n)
    } else {
        let mut s = decimal_string(n / 10);
        let d = digit_string(n % 10);
        s.append(d.as_str());
        s
    }
}

} // verus!
