//! Paths as text, with `/` as the separator.

use vstd::prelude::*;
use vstd::string::*;
use crate::text::{append_chars, slice_chars, to_chars, to_text};

verus! {

/// `part` adjoined to `base`. An absolute `part` replaces `base`; otherwise
/// the two are joined by one `/`, which is left out where `base` is empty
/// or already ends in one.
pub open spec fn joined(base: Seq<char>, part: Seq<char>) -> Seq<char> {
    if part.len() > 0 && part[0] == '/' {
        part
    } else if base.len() == 0 || base.last() == '/' {
        base + part
    } else {
        base + seq!['/'] + part
    }
}

/// The position of the last `c` in `s`, or `-1` where there is none.
pub open spec fn last_index(s: Seq<char>, c: char) -> int
    decreases s.len(),
{
    if s.len() == 0 {
        -1
    } else if s.last() == c {
        s.len() - 1
    } else {
        last_index(s.drop_last(), c)
    }
}

/// A file name without its extension: what stands before the last dot,
/// unless that dot is the first character or there is none.
pub open spec fn file_stem(name: Seq<char>) -> Seq<char> {
    let dot = last_index(name, '.');
    if 0 < dot < name.len() {
        name.subrange(0, dot)
    } else {
        name
    }
}

/// The extension of a file name: what follows the last dot, unless that dot
/// is the first character or there is none.
pub open spec fn extension(name: Seq<char>) -> Option<Seq<char>> {
    let dot = last_index(name, '.');
    if 0 < dot < name.len() {
        Some(name.subrange(dot + 1, name.len() as int))
    } else {
        None
    }
}

/// `part` adjoined to `base`.
pub fn join(base: &str, part: &str) -> (r: String)
    ensures
        r@ == joined(base@, part@),
{
    let b = to_chars(base);
    let p = to_chars(part);
    if p.len() > 0 && p[0] == '/' {
        return to_text(&p);
    }
    let mut out: Vec<char> = Vec::new();
    append_chars(&mut out, &b);
    if b.len() > 0 && b[b.len() - 1] != '/' {
        out.push('/');
    }
    append_chars(&mut out, &p);
    assert(out@ =~= joined(base@, part@));
    to_text(&out)
}

/// The position of the last `c` in `s`, if there is one.
pub fn find_last(s: &Vec<char>, c: char) -> (r: Option<usize>)
    ensures
        match r {
            Some(i) => i == last_index(s@, c) && i < s@.len(),
            None => last_index(s@, c) == -1,
        },
{
    let mut i: usize = s.len();
    assert(s@.subrange(0, i as int) =~= s@);
    while i > 0
        invariant
            i <= s.len(),
            last_index(s@, c) == last_index(s@.subrange(0, i as int), c),
        decreases i,
    {
        let ghost head = s@.subrange(0, i as int);
        assert(head.drop_last() =~= s@.subrange(0, i - 1));
        assert(head.last() == s@[i - 1]);
        if s[i - 1] == c {
            return Some(i - 1);
        }
        i -= 1;
    }
    None
}

/// The file name `name` without its extension.
pub fn stem_of(name: &str) -> (r: String)
    ensures
        r@ == file_stem(name@),
{
    let chars = to_chars(name);
    match find_last(&chars, '.') {
        Some(dot) => {
            if dot > 0 {
                to_text(&slice_chars(&chars, 0, dot))
            } else {
                to_text(&chars)
            }
        },
        None => to_text(&chars),
    }
}

/// The extension of the file name `name`, if it has one.
pub fn extension_of(name: &str) -> (r: Option<String>)
    ensures
        match r {
            Some(e) => extension(name@) == Some(e@),
            None => extension(name@).is_none(),
        },
{
    let chars = to_chars(name);
    match find_last(&chars, '.') {
        Some(dot) => {
            if dot > 0 {
                Some(to_text(&slice_chars(&chars, dot + 1, chars.len())))
            } else {
                None
            }
        },
        None => None,
    }
}

} // verus!
