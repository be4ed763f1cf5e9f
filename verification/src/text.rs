//! Character-level helpers shared by the descriptor format and the template
//! engine. Every function is stated over the sequence of characters of its
//! arguments.

use vstd::prelude::*;
use vstd::string::*;

verus! {

/// `String::push` appends one character to the end of the string.
pub assume_specification[ String::push ](s: &mut String, c: char)
    ensures
        final(s)@ == old(s)@.push(c),
;

/// Whether `s` begins with `pat`.
pub open spec fn starts_with(s: Seq<char>, pat: Seq<char>) -> bool {
    pat.len() <= s.len() && s.subrange(0, pat.len() as int) == pat
}

/// `s` with every occurrence of a non-empty `pat` replaced by `to`, scanning
/// from the left and never looking again at what was already replaced. An
/// empty `pat` replaces nothing.
pub open spec fn replaced(s: Seq<char>, pat: Seq<char>, to: Seq<char>) -> Seq<char>
    decreases s.len(),
{
    if s.len() == 0 {
        s
    } else if pat.len() > 0 && starts_with(s, pat) {
        to + replaced(s.subrange(pat.len() as int, s.len() as int), pat, to)
    } else {
        seq![s[0]] + replaced(s.subrange(1, s.len() as int), pat, to)
    }
}

/// The decimal digit for `d`.
pub open spec fn digit(d: nat) -> char {
    if d == 0 {
        '0'
    } else if d == 1 {
        '1'
    } else if d == 2 {
        '2'
    } else if d == 3 {
        '3'
    } else if d == 4 {
        '4'
    } else if d == 5 {
        '5'
    } else if d == 6 {
        '6'
    } else if d == 7 {
        '7'
    } else if d == 8 {
        '8'
    } else {
        '9'
    }
}

/// `n` written in base ten without leading zeros.
pub open spec fn decimal(n: nat) -> Seq<char>
    decreases n,
{
    if n < 10 {
        seq![digit(n)]
    } else {
        decimal(n / 10).push(digit(n % 10))
    }
}

/// White space as Unicode defines it (the property `White_Space`).
pub open spec fn is_space(c: char) -> bool {
    ||| ('\u{9}' <= c && c <= '\u{d}')
    ||| c == ' '
    ||| c == '\u{85}'
    ||| c == '\u{a0}'
    ||| c == '\u{1680}'
    ||| ('\u{2000}' <= c && c <= '\u{200a}')
    ||| c == '\u{2028}'
    ||| c == '\u{2029}'
    ||| c == '\u{202f}'
    ||| c == '\u{205f}'
    ||| c == '\u{3000}'
}

/// The number of white space characters at the start of `s`.
pub open spec fn leading_spaces(s: Seq<char>) -> nat
    decreases s.len(),
{
    if s.len() > 0 && is_space(s[0]) {
        1 + leading_spaces(s.subrange(1, s.len() as int))
    } else {
        0
    }
}

/// The number of white space characters at the end of `s`.
pub open spec fn trailing_spaces(s: Seq<char>) -> nat
    decreases s.len(),
{
    if s.len() > 0 && is_space(s.last()) {
        1 + trailing_spaces(s.drop_last())
    } else {
        0
    }
}

/// `s` without the white space at its start and at its end.
pub open spec fn trimmed(s: Seq<char>) -> Seq<char> {
    if leading_spaces(s) >= s.len() {
        Seq::empty()
    } else {
        s.subrange(leading_spaces(s) as int, s.len() - trailing_spaces(s))
    }
}

/// The position of the first `c` in `s`, or the length of `s` where there is none.
pub open spec fn first_index(s: Seq<char>, c: char) -> int
    decreases s.len(),
{
    if s.len() == 0 {
        0
    } else if s[0] == c {
        0
    } else {
        1 + first_index(s.subrange(1, s.len() as int), c)
    }
}

/// The characters of an optional text.
pub open spec fn option_text(text: Option<String>) -> Option<Seq<char>> {
    match text {
        Some(s) => Some(s@),
        None => None,
    }
}

/// The texts of a list of strings.
pub open spec fn texts(list: Seq<String>) -> Seq<Seq<char>> {
    Seq::new(list.len(), |i: int| list[i]@)
}

/// `list` with `x` added at the end, unless it is in the list already.
pub open spec fn with_new(list: Seq<Seq<char>>, x: Seq<char>) -> Seq<Seq<char>> {
    if list.contains(x) {
        list
    } else {
        list.push(x)
    }
}

/// The characters of `s`, in order.
pub fn to_chars(s: &str) -> (r: Vec<char>)
    ensures
        r@ == s@,
{
    let mut out: Vec<char> = Vec::new();
    let n: usize = s.unicode_len();
    let mut i: usize = 0;
    while i < n
        invariant
            n == s@.len(),
            i <= n,
            out@ == s@.subrange(0, i as int),
        decreases n - i,
    {
        out.push(s.get_char(i));
        assert(out@ == s@.subrange(0, i + 1));
        i += 1;
    }
    assert(out@ == s@);
    out
}

/// The string whose characters are `v`.
pub fn to_text(v: &Vec<char>) -> (r: String)
    ensures
        r@ == v@,
{
    let mut out = String::new();
    let mut i: usize = 0;
    while i < v.len()
        invariant
            i <= v.len(),
            out@ == v@.subrange(0, i as int),
        decreases v.len() - i,
    {
        out.push(v[i]);
        assert(out@ == v@.subrange(0, i + 1));
        i += 1;
    }
    assert(out@ == v@);
    out
}

/// Appends the characters of `tail` to `out`.
pub fn append_chars(out: &mut Vec<char>, tail: &Vec<char>)
    ensures
        final(out)@ == old(out)@ + tail@,
{
    let mut i: usize = 0;
    while i < tail.len()
        invariant
            i <= tail.len(),
            out@ == old(out)@ + tail@.subrange(0, i as int),
        decreases tail.len() - i,
    {
        out.push(tail[i]);
        assert(out@ == old(out)@ + tail@.subrange(0, i + 1));
        i += 1;
    }
    assert(tail@.subrange(0, tail@.len() as int) == tail@);
}

/// The part of `v` from `from` up to, not including, `to`.
pub fn slice_chars(v: &Vec<char>, from: usize, to: usize) -> (r: Vec<char>)
    requires
        from <= to <= v.len(),
    ensures
        r@ == v@.subrange(from as int, to as int),
{
    let mut out: Vec<char> = Vec::new();
    let mut i: usize = from;
    while i < to
        invariant
            from <= i <= to <= v.len(),
            out@ == v@.subrange(from as int, i as int),
        decreases to - i,
    {
        out.push(v[i]);
        assert(out@ == v@.subrange(from as int, i + 1));
        i += 1;
    }
    out
}

/// Whether the two sequences hold the same characters.
pub fn chars_eq(a: &Vec<char>, b: &Vec<char>) -> (r: bool)
    ensures
        r == (a@ == b@),
{
    if a.len() != b.len() {
        return false;
    }
    let mut i: usize = 0;
    while i < a.len()
        invariant
            i <= a.len(),
            a.len() == b.len(),
            a@.subrange(0, i as int) == b@.subrange(0, i as int),
        decreases a.len() - i,
    {
        if a[i] != b[i] {
            return false;
        }
        assert(a@.subrange(0, i + 1) == a@.subrange(0, i as int).push(a@[i as int]));
        assert(b@.subrange(0, i + 1) == b@.subrange(0, i as int).push(b@[i as int]));
        i += 1;
    }
    assert(a@ == a@.subrange(0, a@.len() as int));
    assert(b@ == b@.subrange(0, b@.len() as int));
    true
}

/// Whether the two strings hold the same characters.
pub fn str_eq(a: &str, b: &str) -> (r: bool)
    ensures
        r == (a@ == b@),
{
    let x = to_chars(a);
    let y = to_chars(b);
    chars_eq(&x, &y)
}

/// Whether `pat` stands in `s` at position `at`.
pub fn matches_at(s: &Vec<char>, at: usize, pat: &Vec<char>) -> (r: bool)
    requires
        at <= s.len(),
    ensures
        r == starts_with(s@.subrange(at as int, s@.len() as int), pat@),
{
    let ghost rest = s@.subrange(at as int, s@.len() as int);
    if pat.len() > s.len() - at {
        return false;
    }
    let mut i: usize = 0;
    while i < pat.len()
        invariant
            i <= pat.len(),
            at <= s.len(),
            pat.len() <= s.len() - at,
            rest == s@.subrange(at as int, s@.len() as int),
            rest.subrange(0, i as int) == pat@.subrange(0, i as int),
        decreases pat.len() - i,
    {
        if s[at + i] != pat[i] {
            assert(rest.subrange(0, pat@.len() as int)[i as int] != pat@[i as int]);
            return false;
        }
        assert(rest.subrange(0, i + 1) == rest.subrange(0, i as int).push(rest[i as int]));
        assert(pat@.subrange(0, i + 1) == pat@.subrange(0, i as int).push(pat@[i as int]));
        i += 1;
    }
    assert(pat@ == pat@.subrange(0, pat@.len() as int));
    true
}

/// Every occurrence of `pat` in `s` replaced by `to`.
pub fn replace_all(s: &Vec<char>, pat: &Vec<char>, to: &Vec<char>) -> (r: Vec<char>)
    ensures
        r@ == replaced(s@, pat@, to@),
{
    let mut out: Vec<char> = Vec::new();
    let mut i: usize = 0;
    let n: usize = s.len();
    assert(s@.subrange(0, n as int) == s@);
    assert(out@ + replaced(s@, pat@, to@) == replaced(s@, pat@, to@));
    while i < n
        invariant
            n == s.len(),
            i <= n,
            out@ + replaced(s@.subrange(i as int, n as int), pat@, to@) == replaced(
                s@,
                pat@,
                to@,
            ),
        decreases n - i,
    {
        let ghost rest = s@.subrange(i as int, n as int);
        let ghost before = out@;
        if pat.len() > 0 && matches_at(s, i, pat) {
            append_chars(&mut out, to);
            proof {
                assert(rest.subrange(pat@.len() as int, rest.len() as int) == s@.subrange(
                    i + pat@.len(),
                    n as int,
                ));
                assert(before + (to@ + replaced(
                    s@.subrange(i + pat@.len(), n as int),
                    pat@,
                    to@,
                )) == (before + to@) + replaced(s@.subrange(i + pat@.len(), n as int), pat@, to@));
            }
            i += pat.len();
        } else {
            out.push(s[i]);
            proof {
                assert(rest.subrange(1, rest.len() as int) == s@.subrange(i + 1, n as int));
                assert(before + (seq![rest[0]] + replaced(
                    s@.subrange(i + 1, n as int),
                    pat@,
                    to@,
                )) == before.push(s@[i as int]) + replaced(
                    s@.subrange(i + 1, n as int),
                    pat@,
                    to@,
                ));
            }
            i += 1;
        }
    }
    assert(s@.subrange(n as int, n as int).len() == 0);
    assert(out@ + Seq::<char>::empty() == out@);
    out
}

/// Appends `n` in base ten to `out`.
pub fn push_decimal(out: &mut Vec<char>, n: u64)
    ensures
        final(out)@ == old(out)@ + decimal(n as nat),
    decreases n,
{
    if n >= 10 {
        push_decimal(out, n / 10);
    }
    let d: u64 = n % 10;
    let c: char = if d == 0 {
        '0'
    } else if d == 1 {
        '1'
    } else if d == 2 {
        '2'
    } else if d == 3 {
        '3'
    } else if d == 4 {
        '4'
    } else if d == 5 {
        '5'
    } else if d == 6 {
        '6'
    } else if d == 7 {
        '7'
    } else if d == 8 {
        '8'
    } else {
        '9'
    };
    out.push(c);
    proof {
        if n >= 10 {
            assert(old(out)@ + decimal((n / 10) as nat).push(c) == (old(out)@ + decimal(
                (n / 10) as nat,
            )).push(c));
        } else {
            assert(old(out)@ + seq![c] == old(out)@.push(c));
        }
    }
}

/// Whether `c` is white space.
pub fn is_space_char(c: char) -> (r: bool)
    ensures
        r == is_space(c),
{
    ('\u{9}' <= c && c <= '\u{d}') || c == ' ' || c == '\u{85}' || c == '\u{a0}' || c
        == '\u{1680}' || ('\u{2000}' <= c && c <= '\u{200a}') || c == '\u{2028}' || c
        == '\u{2029}' || c == '\u{202f}' || c == '\u{205f}' || c == '\u{3000}'
}

/// `s` without the white space at its start and at its end.
pub fn trim(s: &str) -> (r: String)
    ensures
        r@ == trimmed(s@),
{
    let chars = to_chars(s);
    let n: usize = chars.len();
    let mut from: usize = 0;
    assert(chars@.subrange(0, n as int) =~= chars@);
    while from < n && is_space_char(chars[from])
        invariant
            from <= n,
            n == chars@.len(),
            leading_spaces(chars@) == from + leading_spaces(chars@.subrange(from as int, n as int)),
        decreases n - from,
    {
        assert(chars@.subrange(from as int, n as int).subrange(1, n - from) =~= chars@.subrange(
            from + 1,
            n as int,
        ));
        from += 1;
    }
    if from == n {
        return String::new();
    }
    let mut to: usize = n;
    while to > 0 && is_space_char(chars[to - 1])
        invariant
            to <= n,
            n == chars@.len(),
            trailing_spaces(chars@) == (n - to) + trailing_spaces(chars@.subrange(0, to as int)),
        decreases to,
    {
        assert(chars@.subrange(0, to as int).drop_last() =~= chars@.subrange(0, to - 1));
        to -= 1;
    }
    proof {
        if to > 0 {
            assert(chars@.subrange(0, to as int).last() == chars@[to - 1]);
        }
        assert(leading_spaces(chars@) == from);
        assert(trailing_spaces(chars@) == n - to);
        assert(from < to) by {
            if to <= from {
                lemma_spaces_cover(chars@, from as int);
            }
        }
    }
    to_text(&slice_chars(&chars, from, to))
}

/// Where the character at `at` is no white space, fewer than `s.len() - at`
/// characters at the end of `s` are white space.
pub proof fn lemma_spaces_cover(s: Seq<char>, at: int)
    requires
        0 <= at < s.len(),
        !is_space(s[at]),
    ensures
        trailing_spaces(s) < s.len() - at,
    decreases s.len(),
{
    if is_space(s.last()) {
        lemma_spaces_cover(s.drop_last(), at);
    }
}

/// Adds `x` at the end of `list`, unless it is in the list already.
pub fn push_new(list: &mut Vec<String>, x: String)
    ensures
        texts(final(list)@) == with_new(texts(old(list)@), x@),
{
    let mut i: usize = 0;
    while i < list.len()
        invariant
            i <= list@.len(),
            list@ == old(list)@,
            forall|j: int| 0 <= j < i ==> #[trigger] texts(list@)[j] != x@,
        decreases list@.len() - i,
    {
        if str_eq(list[i].as_str(), x.as_str()) {
            assert(texts(list@)[i as int] == x@);
            return ;
        }
        i += 1;
    }
    list.push(x);
    assert(texts(list@) =~= texts(old(list)@).push(x@));
}

/// `first_index` is within bounds, points at `c` where it is inside, and
/// nothing before it is `c`.
pub proof fn lemma_first_index(s: Seq<char>, c: char)
    ensures
        0 <= first_index(s, c) <= s.len(),
        first_index(s, c) < s.len() ==> s[first_index(s, c)] == c,
        forall|i: int| 0 <= i < first_index(s, c) ==> #[trigger] s[i] != c,
    decreases s.len(),
{
    if s.len() > 0 && s[0] != c {
        let tail = s.subrange(1, s.len() as int);
        lemma_first_index(tail, c);
        assert forall|i: int| 0 <= i < first_index(s, c) implies #[trigger] s[i] != c by {
            if i > 0 {
                assert(s[i] == tail[i - 1]);
            }
        }
    }
}

/// Where `c` stands at `n` and nowhere before, `first_index` is `n`.
pub proof fn lemma_first_index_is(s: Seq<char>, c: char, n: int)
    requires
        0 <= n <= s.len(),
        n < s.len() ==> s[n] == c,
        forall|i: int| 0 <= i < n ==> #[trigger] s[i] != c,
    ensures
        first_index(s, c) == n,
{
    lemma_first_index(s, c);
    let f = first_index(s, c);
    if f < n {
        assert(s[f] == c);
    }
}

/// The position of the first `c` in `s` at or after `from`, or the length of
/// `s` where there is none.
pub fn find_char(s: &Vec<char>, from: usize, c: char) -> (r: usize)
    requires
        from <= s.len(),
    ensures
        from <= r <= s.len(),
        r - from == first_index(s@.subrange(from as int, s@.len() as int), c),
{
    let ghost rest = s@.subrange(from as int, s@.len() as int);
    let mut i: usize = from;
    while i < s.len() && s[i] != c
        invariant
            from <= i <= s.len(),
            rest == s@.subrange(from as int, s@.len() as int),
            forall|j: int| 0 <= j < i - from ==> #[trigger] rest[j] != c,
        decreases s.len() - i,
    {
        i += 1;
    }
    proof {
        lemma_first_index_is(rest, c, i - from);
    }
    i
}

/// The position of the first character at or after `from` that is no white
/// space, or the length of `s` where there is none.
pub fn skip_spaces(s: &Vec<char>, from: usize) -> (r: usize)
    requires
        from <= s.len(),
    ensures
        from <= r <= s.len(),
        r - from == leading_spaces(s@.subrange(from as int, s@.len() as int)),
{
    let n: usize = s.len();
    let mut i: usize = from;
    while i < n && is_space_char(s[i])
        invariant
            from <= i <= n,
            n == s@.len(),
            leading_spaces(s@.subrange(from as int, n as int)) == (i - from) + leading_spaces(
                s@.subrange(i as int, n as int),
            ),
        decreases n - i,
    {
        assert(s@.subrange(i as int, n as int).subrange(1, n - i) =~= s@.subrange(i + 1, n as int));
        i += 1;
    }
    i
}

/// The text `a` followed by the text `b`.
pub fn join_text(a: &str, b: &str) -> (r: String)
    ensures
        r@ == a@ + b@,
{
    let mut out = String::from_str(a);
    out.append(b);
    out
}

} // verus!
