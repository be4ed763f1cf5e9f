//! The descriptor document: one `[Desktop Entry]` group of `key=value` lines,
//! kept in the order in which the keys were first set.
//!
//! The text form is a header line followed by one line per key. Reading is
//! tolerant of blank lines and of lines that start with `#`, which carry no
//! data, and keeps every key it does not know. Keys and values are taken
//! verbatim: nothing is trimmed and nothing is escaped.

use vstd::prelude::*;
use vstd::string::*;
use crate::text::{
    append_chars, chars_eq, find_char, first_index, is_space, is_space_char, lemma_first_index,
    lemma_first_index_is, slice_chars, str_eq, to_chars, to_text,
};

verus! {

/// Why a text is not a descriptor.
#[derive(Clone, Copy, Debug, PartialEq, Eq, Structural)]
pub enum DecodeError {
    /// A line that starts with `[` is not the header `[Desktop Entry]`.
    InvalidGroup,
    /// The header occurs a second time.
    MultipleGroupWithSameName,
    /// A `key=value` line stands before the header.
    KeyValueWithoutAGroup,
    /// A line starts with `=`.
    InvalidKey,
    /// A line is neither blank, nor a comment, nor a header, and holds no `=`.
    InvalidEntry,
}

/// The name of an error.
pub open spec fn decode_message(e: DecodeError) -> Seq<char> {
    match e {
        DecodeError::InvalidGroup => "InvalidGroup"@,
        DecodeError::MultipleGroupWithSameName => "MultipleGroupWithSameName"@,
        DecodeError::KeyValueWithoutAGroup => "KeyValueWithoutAGroup"@,
        DecodeError::InvalidKey => "InvalidKey"@,
        DecodeError::InvalidEntry => "InvalidEntry"@,
    }
}

impl DecodeError {
    /// The name of the error.
    pub fn to_string(&self) -> (r: String)
        ensures
            r@ == decode_message(*self),
    {
        match self {
            DecodeError::InvalidGroup => String::from_str("InvalidGroup"),
            DecodeError::MultipleGroupWithSameName => String::from_str(
                "MultipleGroupWithSameName",
            ),
            DecodeError::KeyValueWithoutAGroup => String::from_str("KeyValueWithoutAGroup"),
            DecodeError::InvalidKey => String::from_str("InvalidKey"),
            DecodeError::InvalidEntry => String::from_str("InvalidEntry"),
        }
    }
}

/// The keys and values of a document, in order.
pub type Pairs = Seq<(Seq<char>, Seq<char>)>;

/// What the reader has seen so far: whether the header was met, and the pairs.
pub struct Progress {
    pub in_group: bool,
    pub pairs: Pairs,
}

/// The header line, without its line feed.
pub open spec fn header() -> Seq<char> {
    "[Desktop Entry]"@
}

/// A line made of white space only; the empty line is one.
pub open spec fn is_blank(line: Seq<char>) -> bool {
    forall|i: int| 0 <= i < line.len() ==> is_space(#[trigger] line[i])
}

/// The position of the first pair with key `key`, or the number of pairs
/// where there is none.
pub open spec fn key_index(pairs: Pairs, key: Seq<char>) -> int
    decreases pairs.len(),
{
    if pairs.len() == 0 {
        0
    } else if pairs[0].0 == key {
        0
    } else {
        1 + key_index(pairs.subrange(1, pairs.len() as int), key)
    }
}

/// Whether some pair has the key `key`.
pub open spec fn has_key(pairs: Pairs, key: Seq<char>) -> bool {
    key_index(pairs, key) < pairs.len()
}

/// The value stored under `key`, if any.
pub open spec fn lookup(pairs: Pairs, key: Seq<char>) -> Option<Seq<char>> {
    if has_key(pairs, key) {
        Some(pairs[key_index(pairs, key)].1)
    } else {
        None
    }
}

/// `pairs` with `key` set to `value`: in place where the key exists, at the
/// end where it does not.
pub open spec fn put(pairs: Pairs, key: Seq<char>, value: Seq<char>) -> Pairs {
    if has_key(pairs, key) {
        pairs.update(key_index(pairs, key), (key, value))
    } else {
        pairs.push((key, value))
    }
}

/// No key occurs twice.
pub open spec fn distinct_keys(pairs: Pairs) -> bool {
    forall|i: int, j: int|
        0 <= i < pairs.len() && 0 <= j < pairs.len() && i != j ==> (#[trigger] pairs[i]).0 != (
        #[trigger] pairs[j]).0
}

/// One line of the text form, with its line feed.
pub open spec fn line_of(pair: (Seq<char>, Seq<char>)) -> Seq<char> {
    pair.0 + seq!['='] + pair.1 + seq!['\n']
}

/// The lines of `pairs`, one after the other.
pub open spec fn lines_of(pairs: Pairs) -> Seq<char>
    decreases pairs.len(),
{
    if pairs.len() == 0 {
        Seq::empty()
    } else {
        lines_of(pairs.drop_last()) + line_of(pairs.last())
    }
}

/// The text form of a document: the header, then one line per pair.
pub open spec fn rendered(pairs: Pairs) -> Seq<char> {
    header() + seq!['\n'] + lines_of(pairs)
}

/// What one line does to the reader's progress.
pub open spec fn read_line(line: Seq<char>, at: Progress) -> Result<Progress, DecodeError> {
    if is_blank(line) || line.first() == '#' {
        Ok(at)
    } else if line.first() == '[' {
        if line != header() {
            Err(DecodeError::InvalidGroup)
        } else if at.in_group {
            Err(DecodeError::MultipleGroupWithSameName)
        } else {
            Ok(Progress { in_group: true, pairs: at.pairs })
        }
    } else {
        let eq = first_index(line, '=');
        if eq < 0 || eq >= line.len() {
            Err(DecodeError::InvalidEntry)
        } else if eq == 0 {
            Err(DecodeError::InvalidKey)
        } else if !at.in_group {
            Err(DecodeError::KeyValueWithoutAGroup)
        } else {
            Ok(
                Progress {
                    in_group: true,
                    pairs: put(
                        at.pairs,
                        line.subrange(0, eq),
                        line.subrange(eq + 1, line.len() as int),
                    ),
                },
            )
        }
    }
}

/// The first line of `text`, without its line feed.
pub open spec fn first_line(text: Seq<char>) -> Seq<char> {
    let n = first_index(text, '\n');
    if 0 <= n <= text.len() {
        text.subrange(0, n)
    } else {
        text
    }
}

/// What is left of `text` after its first line and that line's line feed.
pub open spec fn after_first_line(text: Seq<char>) -> Seq<char> {
    let n = first_index(text, '\n');
    if 0 <= n < text.len() {
        text.subrange(n + 1, text.len() as int)
    } else {
        Seq::empty()
    }
}

/// Reads `text` line by line, starting from the progress `at`.
pub open spec fn read_lines(text: Seq<char>, at: Progress) -> Result<Pairs, DecodeError>
    decreases text.len(),
{
    if text.len() == 0 {
        Ok(at.pairs)
    } else {
        match read_line(first_line(text), at) {
            Err(e) => Err(e),
            Ok(next) => read_lines(after_first_line(text), next),
        }
    }
}

/// The pairs that `text` holds, or why it is not a descriptor.
pub open spec fn parsed(text: Seq<char>) -> Result<Pairs, DecodeError> {
    read_lines(text, Progress { in_group: false, pairs: Seq::empty() })
}

/// A key that the text form gives back as it is: not empty, free of `=` and
/// of line feeds, and not starting like a header or a comment.
pub open spec fn plain_key(key: Seq<char>) -> bool {
    &&& key.len() > 0
    &&& key[0] != '['
    &&& key[0] != '#'
    &&& forall|i: int| 0 <= i < key.len() ==> #[trigger] key[i] != '=' && key[i] != '\n'
}

/// A value that the text form gives back as it is: free of line feeds.
pub open spec fn plain_value(value: Seq<char>) -> bool {
    forall|i: int| 0 <= i < value.len() ==> #[trigger] value[i] != '\n'
}

/// Pairs that survive being written and read again.
pub open spec fn plain_pairs(pairs: Pairs) -> bool {
    &&& distinct_keys(pairs)
    &&& forall|i: int|
        0 <= i < pairs.len() ==> plain_key((#[trigger] pairs[i]).0) && plain_value(pairs[i].1)
}

/// `key_index` is within bounds, points at `key` where it is inside, and no
/// pair before it has that key.
pub proof fn lemma_key_index(pairs: Pairs, key: Seq<char>)
    ensures
        0 <= key_index(pairs, key) <= pairs.len(),
        key_index(pairs, key) < pairs.len() ==> pairs[key_index(pairs, key)].0 == key,
        forall|i: int| 0 <= i < key_index(pairs, key) ==> (#[trigger] pairs[i]).0 != key,
    decreases pairs.len(),
{
    if pairs.len() > 0 && pairs[0].0 != key {
        let tail = pairs.subrange(1, pairs.len() as int);
        lemma_key_index(tail, key);
        assert forall|i: int| 0 <= i < key_index(pairs, key) implies (#[trigger] pairs[i]).0
            != key by {
            if i > 0 {
                assert(pairs[i] == tail[i - 1]);
            }
        }
    }
}

/// Where the pair at `n` has the key and none before it has, `key_index` is `n`.
pub proof fn lemma_key_index_is(pairs: Pairs, key: Seq<char>, n: int)
    requires
        0 <= n <= pairs.len(),
        n < pairs.len() ==> pairs[n].0 == key,
        forall|i: int| 0 <= i < n ==> (#[trigger] pairs[i]).0 != key,
    ensures
        key_index(pairs, key) == n,
{
    lemma_key_index(pairs, key);
    let f = key_index(pairs, key);
    if f < n {
        assert(pairs[f].0 == key);
    }
}

/// Setting a key stores the value under it and leaves every other key as
/// it was.
pub proof fn lemma_put(pairs: Pairs, key: Seq<char>, value: Seq<char>)
    ensures
        lookup(put(pairs, key, value), key) == Some(value),
        forall|other: Seq<char>|
            other != key ==> lookup(#[trigger] put(pairs, key, value), other) == lookup(
                pairs,
                other,
            ),
        has_key(pairs, key) ==> put(pairs, key, value).len() == pairs.len(),
        !has_key(pairs, key) ==> put(pairs, key, value).len() == pairs.len() + 1,
{
    let after = put(pairs, key, value);
    lemma_key_index(pairs, key);
    let at = key_index(pairs, key);
    assert(key_index(after, key) == at) by {
        assert forall|i: int| 0 <= i < at implies (#[trigger] after[i]).0 != key by {
            assert(after[i] == pairs[i]);
        }
        lemma_key_index_is(after, key, at);
    }
    assert forall|other: Seq<char>| other != key implies lookup(
        #[trigger] put(pairs, key, value),
        other,
    ) == lookup(pairs, other) by {
        lemma_key_index(pairs, other);
        let o = key_index(pairs, other);
        if o < pairs.len() {
            assert(o != at || !has_key(pairs, key));
            assert(after[o] == pairs[o]);
            assert forall|i: int| 0 <= i < o implies (#[trigger] after[i]).0 != other by {
                if has_key(pairs, key) && i == at {
                } else {
                    assert(after[i] == pairs[i]);
                }
            }
            lemma_key_index_is(after, other, o);
        } else {
            assert forall|i: int| 0 <= i < after.len() implies (#[trigger] after[i]).0
                != other by {
                if i < pairs.len() {
                    if has_key(pairs, key) && i == at {
                    } else {
                        assert(after[i] == pairs[i]);
                    }
                }
            }
            lemma_key_index_is(after, other, after.len() as int);
        }
    }
}

/// Setting a key keeps the keys distinct.
pub proof fn lemma_put_distinct(pairs: Pairs, key: Seq<char>, value: Seq<char>)
    requires
        distinct_keys(pairs),
    ensures
        distinct_keys(put(pairs, key, value)),
{
    let after = put(pairs, key, value);
    lemma_key_index(pairs, key);
    let at = key_index(pairs, key);
    assert forall|i: int, j: int|
        0 <= i < after.len() && 0 <= j < after.len() && i != j implies (#[trigger] after[i]).0 != (
    #[trigger] after[j]).0 by {
        if has_key(pairs, key) {
            if i != at && j != at {
                assert(after[i] == pairs[i] && after[j] == pairs[j]);
            } else if i == at {
                assert(after[j] == pairs[j]);
                assert(pairs[j].0 != pairs[at].0);
            } else {
                assert(after[i] == pairs[i]);
                assert(pairs[i].0 != pairs[at].0);
            }
        } else {
            if i < pairs.len() && j < pairs.len() {
                assert(after[i] == pairs[i] && after[j] == pairs[j]);
            } else if i == pairs.len() {
                assert(after[j] == pairs[j]);
            } else {
                assert(after[i] == pairs[i]);
            }
        }
    }
}

/// Setting a plain key to a plain value keeps the pairs plain.
pub proof fn lemma_put_plain(pairs: Pairs, key: Seq<char>, value: Seq<char>)
    requires
        plain_pairs(pairs),
        plain_key(key),
        plain_value(value),
    ensures
        plain_pairs(put(pairs, key, value)),
{
    let after = put(pairs, key, value);
    lemma_put_distinct(pairs, key, value);
    lemma_key_index(pairs, key);
    assert forall|i: int| 0 <= i < after.len() implies plain_key((#[trigger] after[i]).0)
        && plain_value(after[i].1) by {
        if has_key(pairs, key) && i != key_index(pairs, key) {
            assert(after[i] == pairs[i]);
        } else if !has_key(pairs, key) && i < pairs.len() {
            assert(after[i] == pairs[i]);
        }
    }
}

/// Reading adds nothing but plain pairs to plain pairs.
pub proof fn lemma_read_lines_plain(text: Seq<char>, at: Progress)
    requires
        plain_pairs(at.pairs),
    ensures
        read_lines(text, at) is Ok ==> plain_pairs(read_lines(text, at)->Ok_0),
    decreases text.len(),
{
    if text.len() > 0 {
        let line = first_line(text);
        lemma_first_index(text, '\n');
        match read_line(line, at) {
            Err(_) => {},
            Ok(next) => {
                if !(is_blank(line) || line.first() == '#') && line.first() != '[' {
                    let eq = first_index(line, '=');
                    lemma_first_index(line, '=');
                    let key = line.subrange(0, eq);
                    let value = line.subrange(eq + 1, line.len() as int);
                    assert(line.len() > 0) by {
                        if line.len() == 0 {
                            assert(is_blank(line));
                        }
                    }
                    assert(key[0] == line[0]);
                    assert forall|i: int| 0 <= i < key.len() implies #[trigger] key[i] != '='
                        && key[i] != '\n' by {
                        assert(key[i] == line[i]);
                        assert(line[i] == text[i]);
                    }
                    assert forall|i: int| 0 <= i < value.len() implies #[trigger] value[i]
                        != '\n' by {
                        assert(value[i] == line[i + eq + 1]);
                        assert(line[i + eq + 1] == text[i + eq + 1]);
                    }
                    lemma_put_plain(at.pairs, key, value);
                }
                lemma_read_lines_plain(after_first_line(text), next);
            },
        }
    }
}

/// What is read from a text is plain: it can be written and read again.
pub proof fn lemma_parsed_is_plain(text: Seq<char>)
    ensures
        parsed(text) is Ok ==> plain_pairs(parsed(text)->Ok_0),
{
    lemma_read_lines_plain(text, Progress { in_group: false, pairs: Seq::empty() });
}

/// Reads `text` line by line, starting from the progress `at`, and says
/// where the reader stands in the end.
pub open spec fn read_progress(text: Seq<char>, at: Progress) -> Result<Progress, DecodeError>
    decreases text.len(),
{
    if text.len() == 0 {
        Ok(at)
    } else {
        match read_line(first_line(text), at) {
            Err(e) => Err(e),
            Ok(next) => read_progress(after_first_line(text), next),
        }
    }
}

/// The key that a line sets, if it sets one.
pub open spec fn line_key(line: Seq<char>) -> Option<Seq<char>> {
    if is_blank(line) || line.first() == '#' || line.first() == '[' {
        None
    } else {
        let eq = first_index(line, '=');
        if 0 < eq < line.len() {
            Some(line.subrange(0, eq))
        } else {
            None
        }
    }
}

/// Whether a line of `text` sets `key`.
pub open spec fn sets_key(text: Seq<char>, key: Seq<char>) -> bool
    decreases text.len(),
{
    if text.len() == 0 {
        false
    } else {
        line_key(first_line(text)) == Some(key) || sets_key(after_first_line(text), key)
    }
}

/// Whether a line of a text sets a key is decided line by line.
pub proof fn lemma_sets_key_line(line: Seq<char>, rest: Seq<char>, key: Seq<char>)
    requires
        plain_value(line),
    ensures
        sets_key(line + seq!['\n'] + rest, key) == (line_key(line) == Some(key) || sets_key(
            rest,
            key,
        )),
        sets_key(line, key) == (line.len() > 0 && line_key(line) == Some(key)),
{
    let text = line + seq!['\n'] + rest;
    let end = line.len() as int;
    assert forall|i: int| 0 <= i < end implies #[trigger] text[i] != '\n' by {
        assert(text[i] == line[i]);
    }
    assert(text[end] == '\n');
    lemma_first_index_is(text, '\n', end);
    assert(first_line(text) =~= line);
    assert(after_first_line(text) =~= rest);
    lemma_first_index_is(line, '\n', end);
    if line.len() > 0 {
        assert(first_line(line) =~= line);
        assert(after_first_line(line).len() == 0);
        assert(!sets_key(after_first_line(line), key));
        assert(sets_key(line, key) == (line_key(first_line(line)) == Some(key) || sets_key(
            after_first_line(line),
            key,
        )));
    }
}

/// The pairs that are read are those of the reader's last progress.
pub proof fn lemma_read_progress(text: Seq<char>, at: Progress)
    ensures
        read_lines(text, at) == match read_progress(text, at) {
            Ok(end) => Ok::<Pairs, DecodeError>(end.pairs),
            Err(e) => Err::<Pairs, DecodeError>(e),
        },
    decreases text.len(),
{
    if text.len() > 0 {
        match read_line(first_line(text), at) {
            Err(_) => {},
            Ok(next) => {
                lemma_first_index(text, '\n');
                lemma_read_progress(after_first_line(text), next);
            },
        }
    }
}

/// A text that ends with a line is read before what follows it: reading
/// the two in one go is reading the first, then the second.
pub proof fn lemma_read_split(head: Seq<char>, tail: Seq<char>, at: Progress)
    requires
        head.len() == 0 || head.last() == '\n',
    ensures
        read_progress(head + tail, at) == match read_progress(head, at) {
            Err(e) => Err::<Progress, DecodeError>(e),
            Ok(next) => read_progress(tail, next),
        },
    decreases head.len(),
{
    if head.len() == 0 {
        assert(head + tail =~= tail);
    } else {
        let whole = head + tail;
        lemma_first_index(head, '\n');
        let n = first_index(head, '\n');
        assert(n < head.len()) by {
            if n >= head.len() {
                assert(head[head.len() - 1] != '\n');
            }
        }
        assert forall|i: int| 0 <= i < n implies #[trigger] whole[i] != '\n' by {
            assert(whole[i] == head[i]);
        }
        assert(whole[n] == head[n]);
        lemma_first_index_is(whole, '\n', n);
        assert(first_line(whole) =~= first_line(head));
        let rest = after_first_line(head);
        assert(after_first_line(whole) =~= rest + tail);
        assert(rest.len() == 0 || rest.last() == '\n') by {
            if rest.len() > 0 {
                assert(rest.last() == head.last());
            }
        }
        match read_line(first_line(head), at) {
            Err(_) => {},
            Ok(next) => {
                lemma_read_split(rest, tail, next);
            },
        }
    }
}

/// A line `key=value`, followed by nothing or by a line feed and more text,
/// sets the key to the value, and the reading goes on behind the line feed.
pub proof fn lemma_read_entry_line(
    key: Seq<char>,
    value: Seq<char>,
    rest: Seq<char>,
    at: Progress,
)
    requires
        plain_key(key),
        plain_value(value),
        rest.len() == 0 || rest[0] == '\n',
    ensures
        read_progress(key + seq!['='] + value + rest, at) == if at.in_group {
            read_progress(
                if rest.len() > 0 {
                    rest.subrange(1, rest.len() as int)
                } else {
                    rest
                },
                Progress { in_group: true, pairs: put(at.pairs, key, value) },
            )
        } else {
            Err::<Progress, DecodeError>(DecodeError::KeyValueWithoutAGroup)
        },
{
    let line = key + seq!['='] + value;
    let text = line + rest;
    let end = line.len() as int;
    assert(text =~= key + seq!['='] + value + rest);
    assert forall|i: int| 0 <= i < end implies #[trigger] text[i] != '\n' by {
        if i < key.len() {
            assert(text[i] == key[i]);
        } else if i > key.len() {
            assert(text[i] == value[i - key.len() - 1]);
        }
    }
    if rest.len() > 0 {
        assert(text[end] == rest[0]);
    }
    lemma_first_index_is(text, '\n', end);
    assert(first_line(text) =~= line);
    if rest.len() > 0 {
        assert(after_first_line(text) =~= rest.subrange(1, rest.len() as int));
    } else {
        assert(after_first_line(text) =~= rest);
    }
    assert(line[key.len() as int] == '=');
    assert(!is_space(line[key.len() as int]));
    assert(!is_blank(line));
    assert(line.first() == key[0]);
    assert forall|i: int| 0 <= i < key.len() implies #[trigger] line[i] != '=' by {
        assert(line[i] == key[i]);
    }
    lemma_first_index_is(line, '=', key.len() as int);
    assert(line.subrange(0, key.len() as int) =~= key);
    assert(line.subrange(key.len() as int + 1, line.len() as int) =~= value);
    assert(text.len() > 0);
}

/// Reading a text of which no line sets `key` leaves the value of `key` as
/// it was.
pub proof fn lemma_read_keeps(text: Seq<char>, at: Progress, key: Seq<char>)
    requires
        !sets_key(text, key),
        read_progress(text, at) is Ok,
    ensures
        lookup(read_progress(text, at)->Ok_0.pairs, key) == lookup(at.pairs, key),
    decreases text.len(),
{
    if text.len() > 0 {
        let line = first_line(text);
        lemma_first_index(text, '\n');
        let next = read_line(line, at)->Ok_0;
        if !(is_blank(line) || line.first() == '#') && line.first() != '[' {
            let eq = first_index(line, '=');
            lemma_first_index(line, '=');
            lemma_put(at.pairs, line.subrange(0, eq), line.subrange(eq + 1, line.len() as int));
        }
        lemma_read_keeps(after_first_line(text), next, key);
    }
}

/// The lines of a non-empty list are the first pair's line followed by the
/// lines of the rest.
pub proof fn lemma_lines_front(pairs: Pairs)
    requires
        pairs.len() > 0,
    ensures
        lines_of(pairs) == line_of(pairs[0]) + lines_of(pairs.subrange(1, pairs.len() as int)),
    decreases pairs.len(),
{
    let tail = pairs.subrange(1, pairs.len() as int);
    if pairs.len() == 1 {
        assert(pairs.drop_last() =~= Pairs::empty());
        assert(tail =~= Pairs::empty());
        assert(lines_of(pairs) =~= line_of(pairs[0]) + lines_of(tail));
    } else {
        lemma_lines_front(pairs.drop_last());
        assert(pairs.drop_last().subrange(1, pairs.len() - 1) =~= tail.drop_last());
        assert(pairs.drop_last()[0] == pairs[0]);
        assert(tail.last() == pairs.last());
        assert(lines_of(pairs) =~= line_of(pairs[0]) + lines_of(tail));
    }
}

/// Reading the lines of plain pairs, after the header, adds exactly those
/// pairs to what was read before.
pub proof fn lemma_read_own_lines(before: Pairs, pairs: Pairs)
    requires
        plain_pairs(before + pairs),
    ensures
        read_lines(lines_of(pairs), Progress { in_group: true, pairs: before }) == Ok::<
            Pairs,
            DecodeError,
        >(before + pairs),
    decreases pairs.len(),
{
    let all = before + pairs;
    let at = Progress { in_group: true, pairs: before };
    if pairs.len() == 0 {
        assert(all =~= before);
    } else {
        let key = pairs[0].0;
        let value = pairs[0].1;
        let tail = pairs.subrange(1, pairs.len() as int);
        let text = lines_of(pairs);
        let line = key + seq!['='] + value;
        let end = line.len() as int;
        lemma_lines_front(pairs);
        assert(all[before.len() as int] == pairs[0]);
        assert(plain_key(key) && plain_value(value));
        assert(text =~= line + seq!['\n'] + lines_of(tail));
        assert(text[end] == '\n');
        assert forall|i: int| 0 <= i < end implies #[trigger] text[i] != '\n' by {
            if i < key.len() {
                assert(text[i] == key[i]);
            } else if i > key.len() {
                assert(text[i] == value[i - key.len() - 1]);
            }
        }
        lemma_first_index_is(text, '\n', end);
        assert(first_line(text) =~= line);
        assert(after_first_line(text) =~= lines_of(tail));
        assert(line[key.len() as int] == '=');
        assert(!is_space(line[key.len() as int]));
        assert(!is_blank(line));
        assert(line.first() == key[0]);
        assert forall|i: int| 0 <= i < key.len() implies #[trigger] line[i] != '=' by {
            assert(line[i] == key[i]);
        }
        lemma_first_index_is(line, '=', key.len() as int);
        assert(line.subrange(0, key.len() as int) =~= key);
        assert(line.subrange(key.len() as int + 1, line.len() as int) =~= value);
        assert forall|i: int| 0 <= i < before.len() implies (#[trigger] before[i]).0 != key by {
            assert(all[i] == before[i]);
        }
        lemma_key_index_is(before, key, before.len() as int);
        let next = Progress { in_group: true, pairs: before.push(pairs[0]) };
        assert(read_line(line, at) == Ok::<Progress, DecodeError>(next));
        assert(before.push(pairs[0]) + tail =~= all);
        lemma_read_own_lines(before.push(pairs[0]), tail);
    }
}

/// Writing plain pairs and reading the text again gives the same pairs, in
/// the same order.
pub proof fn lemma_round_trip(pairs: Pairs)
    requires
        plain_pairs(pairs),
    ensures
        parsed(rendered(pairs)) == Ok::<Pairs, DecodeError>(pairs),
{
    reveal_strlit("[Desktop Entry]");
    let text = rendered(pairs);
    let head = header();
    let start = Progress { in_group: false, pairs: Pairs::empty() };
    assert(head.len() == 15);
    assert(text =~= head + seq!['\n'] + lines_of(pairs));
    assert(text[15] == '\n');
    assert forall|i: int| 0 <= i < 15 implies #[trigger] text[i] != '\n' by {
        assert(text[i] == head[i]);
    }
    lemma_first_index_is(text, '\n', 15);
    assert(first_line(text) =~= head);
    assert(after_first_line(text) =~= lines_of(pairs));
    assert(head[0] == '[');
    assert(!is_space(head[0]));
    assert(!is_blank(head));
    assert(read_line(head, start) == Ok::<Progress, DecodeError>(
        Progress { in_group: true, pairs: Pairs::empty() },
    ));
    assert(Pairs::empty() + pairs =~= pairs);
    lemma_read_own_lines(Pairs::empty(), pairs);
}

/// Whether `line` is made of white space only.
pub fn is_blank_line(line: &Vec<char>) -> (r: bool)
    ensures
        r == is_blank(line@),
{
    let mut i: usize = 0;
    while i < line.len()
        invariant
            i <= line.len(),
            forall|j: int| 0 <= j < i ==> is_space(#[trigger] line@[j]),
        decreases line.len() - i,
    {
        if !is_space_char(line[i]) {
            return false;
        }
        i += 1;
    }
    true
}

/// A descriptor document and the path of the file it belongs to.
#[derive(Debug)]
pub struct DesktopEntry {
    pairs: Vec<(String, String)>,
    path: String,
}

impl View for DesktopEntry {
    type V = Pairs;

    closed spec fn view(&self) -> Pairs {
        Seq::new(self.pairs@.len(), |i: int| (self.pairs@[i].0@, self.pairs@[i].1@))
    }
}

impl DesktopEntry {
    /// No key occurs twice. Every document that this module hands out is
    /// well formed, and setting a key keeps it so.
    pub open spec fn wf(&self) -> bool {
        distinct_keys(self@)
    }

    /// The path of the file that the document belongs to.
    pub closed spec fn path_view(&self) -> Seq<char> {
        self.path@
    }

    /// A document without keys.
    pub fn new(path: &str) -> (r: Self)
        ensures
            r@ == Pairs::empty(),
            r.path_view() == path@,
            r.wf(),
    {
        let r = DesktopEntry { pairs: Vec::new(), path: String::from_str(path) };
        assert(r@ =~= Pairs::empty());
        r
    }

    /// A copy of the document.
    pub fn duplicate(&self) -> (r: Self)
        ensures
            r@ == self@,
            r.path_view() == self.path_view(),
    {
        let mut pairs: Vec<(String, String)> = Vec::new();
        let mut i: usize = 0;
        while i < self.pairs.len()
            invariant
                i <= self.pairs@.len(),
                pairs@.len() == i,
                forall|j: int|
                    0 <= j < i ==> (#[trigger] pairs@[j]).0@ == self.pairs@[j].0@ && pairs@[j].1@
                        == self.pairs@[j].1@,
            decreases self.pairs@.len() - i,
        {
            pairs.push((self.pairs[i].0.clone(), self.pairs[i].1.clone()));
            i += 1;
        }
        let r = DesktopEntry { pairs, path: self.path.clone() };
        assert(r@ =~= self@);
        r
    }

    /// The path of the file that the document belongs to.
    pub fn path(&self) -> (r: &str)
        ensures
            r@ == self.path_view(),
    {
        self.path.as_str()
    }

    /// Gives the document another path; the keys stay.
    pub fn set_path(&mut self, path: &str)
        ensures
            final(self)@ == old(self)@,
            final(self).path_view() == path@,
            final(self).wf() == old(self).wf(),
    {
        self.path = String::from_str(path);
    }

    /// The number of keys.
    pub fn len(&self) -> (r: usize)
        ensures
            r == self@.len(),
    {
        self.pairs.len()
    }

    /// The position of `key` among the pairs, or their number where it is absent.
    fn position(&self, key: &str) -> (r: usize)
        ensures
            r == key_index(self@, key@),
            r <= self.pairs@.len(),
    {
        let mut i: usize = 0;
        while i < self.pairs.len()
            invariant
                i <= self.pairs@.len(),
                forall|j: int| 0 <= j < i ==> (#[trigger] self@[j]).0 != key@,
            decreases self.pairs@.len() - i,
        {
            if str_eq(self.pairs[i].0.as_str(), key) {
                proof {
                    lemma_key_index_is(self@, key@, i as int);
                }
                return i;
            }
            i += 1;
        }
        proof {
            lemma_key_index_is(self@, key@, i as int);
        }
        i
    }

    /// The value stored under `key`, if any.
    pub fn desktop_entry(&self, key: &str) -> (r: Option<&str>)
        ensures
            match r {
                Some(value) => lookup(self@, key@) == Some(value@),
                None => lookup(self@, key@).is_none(),
            },
    {
        let i = self.position(key);
        if i < self.pairs.len() {
            Some(self.pairs[i].1.as_str())
        } else {
            None
        }
    }

    /// Sets `key` to `value`: in place where the key exists, at the end
    /// where it does not.
    pub fn add_desktop_entry(&mut self, key: String, value: String)
        ensures
            final(self)@ == put(old(self)@, key@, value@),
            final(self).path_view() == old(self).path_view(),
            old(self).wf() ==> final(self).wf(),
    {
        proof {
            if self.wf() {
                lemma_put_distinct(self@, key@, value@);
            }
        }
        let i = self.position(key.as_str());
        if i < self.pairs.len() {
            self.pairs.set(i, (key, value));
        } else {
            self.pairs.push((key, value));
        }
        assert(self@ =~= put(old(self)@, key@, value@));
    }

    /// The text form: the header, then one `key=value` line per pair.
    pub fn to_string(&self) -> (r: String)
        ensures
            r@ == rendered(self@),
    {
        let mut out: Vec<char> = to_chars("[Desktop Entry]");
        out.push('\n');
        let mut i: usize = 0;
        assert(self@.subrange(0, 0) =~= Pairs::empty());
        assert(out@ =~= header() + seq!['\n'] + lines_of(self@.subrange(0, 0)));
        while i < self.pairs.len()
            invariant
                i <= self.pairs@.len(),
                out@ == header() + seq!['\n'] + lines_of(self@.subrange(0, i as int)),
            decreases self.pairs@.len() - i,
        {
            let ghost before = out@;
            let key = to_chars(self.pairs[i].0.as_str());
            let value = to_chars(self.pairs[i].1.as_str());
            append_chars(&mut out, &key);
            out.push('=');
            append_chars(&mut out, &value);
            out.push('\n');
            proof {
                let upto = self@.subrange(0, i + 1);
                assert(upto.drop_last() =~= self@.subrange(0, i as int));
                assert(upto.last() == self@[i as int]);
                assert(out@ =~= before + line_of(self@[i as int]));
                assert(out@ =~= header() + seq!['\n'] + lines_of(upto));
            }
            i += 1;
        }
        assert(self@.subrange(0, self@.len() as int) =~= self@);
        to_text(&out)
    }

    /// Reads a document from its text form.
    pub fn from_str(path: &str, input: &str) -> (r: Result<Self, DecodeError>)
        ensures
            match r {
                Ok(entry) => parsed(input@) == Ok::<Pairs, DecodeError>(entry@)
                    && entry.path_view() == path@ && entry.wf(),
                Err(e) => parsed(input@) == Err::<Pairs, DecodeError>(e),
            },
    {
        let text = to_chars(input);
        let head = to_chars("[Desktop Entry]");
        let mut entry = DesktopEntry::new(path);
        let mut in_group = false;
        let mut pos: usize = 0;
        let n: usize = text.len();
        assert(text@.subrange(0, n as int) =~= text@);
        while pos < n
            invariant
                n == text@.len(),
                pos <= n,
                text@ == input@,
                head@ == header(),
                entry.path_view() == path@,
                entry.wf(),
                read_lines(
                    text@.subrange(pos as int, n as int),
                    Progress { in_group, pairs: entry@ },
                ) == parsed(text@),
            decreases n - pos,
        {
            let ghost rest = text@.subrange(pos as int, n as int);
            let ghost at = Progress { in_group, pairs: entry@ };
            let end = find_char(&text, pos, '\n');
            let line = slice_chars(&text, pos, end);
            proof {
                assert(first_line(rest) =~= line@);
                if end < n {
                    assert(after_first_line(rest) =~= text@.subrange(end + 1, n as int));
                } else {
                    assert(after_first_line(rest) =~= text@.subrange(n as int, n as int));
                }
                assert(read_lines(rest, at) == match read_line(line@, at) {
                    Err(e) => Err::<Pairs, DecodeError>(e),
                    Ok(next) => read_lines(after_first_line(rest), next),
                });
            }
            if is_blank_line(&line) || line[0] == '#' {
            } else if line[0] == '[' {
                if !chars_eq(&line, &head) {
                    return Err(DecodeError::InvalidGroup);
                } else if in_group {
                    return Err(DecodeError::MultipleGroupWithSameName);
                } else {
                    in_group = true;
                }
            } else {
                let eq = find_char(&line, 0, '=');
                assert(line@.subrange(0, line@.len() as int) =~= line@);
                if eq >= line.len() {
                    return Err(DecodeError::InvalidEntry);
                } else if eq == 0 {
                    return Err(DecodeError::InvalidKey);
                } else if !in_group {
                    return Err(DecodeError::KeyValueWithoutAGroup);
                } else {
                    let key = slice_chars(&line, 0, eq);
                    let value = slice_chars(&line, eq + 1, line.len());
                    entry.add_desktop_entry(to_text(&key), to_text(&value));
                }
            }
            if end < n {
                pos = end + 1;
            } else {
                pos = n;
            }
        }
        Ok(entry)
    }
}

} // verus!
