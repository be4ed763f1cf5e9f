//! The template engine. A template is read once from left to right.
//! Where a placeholder of the form `%{name}` stands, its value is put in;
//! where a conditional of the form `%{key ? literal}` stands, its literal,
//! `literal=value`, or nothing is put in. The reading goes on behind the
//! placeholder: what was put in is never read as template.

use vstd::prelude::*;
use vstd::string::*;
use crate::browsers::Base;
use crate::text::{
    append_chars, find_char, first_index, leading_spaces, lemma_first_index, matches_at,
    replace_all, replaced, skip_spaces, slice_chars, starts_with, to_chars, to_text,
};

verus! {

/// The conditional that opens `s`, if `s` opens with one for `key`: its
/// literal and the number of characters that the conditional takes.
///
/// A conditional is `%{`, the key, white space, `?`, white space, the
/// literal and `}`; either run of white space may be empty. The literal runs
/// up to the first `}` and is not empty. Where nothing but white space
/// stands between `?` and `}`, the literal is the last of those characters.
pub open spec fn conditional_at(s: Seq<char>, key: Seq<char>) -> Option<(Seq<char>, int)> {
    let open = "%{"@ + key;
    if !starts_with(s, open) {
        None
    } else {
        let mark: int = open.len() as int + leading_spaces(
            s.subrange(open.len() as int, s.len() as int),
        ) as int;
        if mark >= s.len() || s[mark] != '?' {
            None
        } else {
            let from: int = mark + 1 + leading_spaces(s.subrange(mark + 1, s.len() as int)) as int;
            let to: int = from + first_index(s.subrange(from, s.len() as int), '}');
            if to >= s.len() || to < from {
                None
            } else if to > from {
                Some((s.subrange(from, to), to + 1))
            } else if from > mark + 1 {
                Some((s.subrange(from - 1, from), to + 1))
            } else {
                None
            }
        }
    }
}

/// What a conditional with the literal `literal` is replaced by: nothing
/// where the condition is false; otherwise the literal, followed by `=` and
/// the value where a value is given.
pub open spec fn conditional_text(
    literal: Seq<char>,
    set_value: bool,
    with_value: Option<Seq<char>>,
) -> Seq<char> {
    if !set_value {
        Seq::empty()
    } else {
        match with_value {
            Some(value) => literal + seq!['='] + value,
            None => literal,
        }
    }
}

/// Whether a line of `t` starts at `at`.
pub open spec fn line_starts(t: Seq<char>, at: int) -> bool {
    at == 0 || (0 < at <= t.len() && t[at - 1] == '\n')
}

/// Whether a line of `t` ends at `at`: the text ends there or a line feed
/// stands there.
pub open spec fn line_ends(t: Seq<char>, at: int) -> bool {
    at == t.len() || (0 <= at < t.len() && t[at] == '\n')
}

/// What is put in for the conditional for `key` that stands in `t` at `at`,
/// and where the reading goes on; `None` where no such conditional stands
/// there. A conditional whose condition is false and which has a line to
/// itself goes with the line feed that ends the line.
pub open spec fn conditional_step(
    t: Seq<char>,
    at: int,
    key: Seq<char>,
    set_value: bool,
    with_value: Option<Seq<char>>,
) -> Option<(Seq<char>, int)> {
    match conditional_at(t.subrange(at, t.len() as int), key) {
        Some((literal, taken)) => {
            let end = at + taken;
            if !set_value && line_starts(t, at) && line_ends(t, end) && end < t.len() {
                Some((Seq::empty(), end + 1))
            } else {
                Some((conditional_text(literal, set_value, with_value), end))
            }
        },
        None => None,
    }
}

/// `t` from `at` on, with every conditional for `key` replaced.
pub open spec fn conditionals_from(
    t: Seq<char>,
    at: int,
    key: Seq<char>,
    set_value: bool,
    with_value: Option<Seq<char>>,
) -> Seq<char>
    decreases t.len() - at,
{
    if at < 0 || at >= t.len() {
        Seq::empty()
    } else {
        match conditional_step(t, at, key, set_value, with_value) {
            Some((text, next)) => if at < next <= t.len() {
                text + conditionals_from(t, next, key, set_value, with_value)
            } else {
                t.subrange(at, t.len() as int)
            },
            None => seq![t[at]] + conditionals_from(t, at + 1, key, set_value, with_value),
        }
    }
}

/// `s` with every conditional for `key` replaced, reading from the left.
/// Where the condition holds, the conditional stands for its literal,
/// followed by `=` and the value where a value is given. Where it does not
/// hold, the conditional goes, and with it the line that it has to itself.
/// Conditionals for other keys stay as they are.
pub open spec fn conditionals_replaced(
    s: Seq<char>,
    key: Seq<char>,
    set_value: bool,
    with_value: Option<Seq<char>>,
) -> Seq<char> {
    conditionals_from(s, 0, key, set_value, with_value)
}

/// The values that a template is filled with.
pub struct Values {
    pub command: Seq<char>,
    pub name: Seq<char>,
    pub url: Seq<char>,
    pub domain: Seq<char>,
    pub domain_path: Seq<char>,
    pub icon: Seq<char>,
    pub app_id: Seq<char>,
    pub isolate: bool,
    pub profile_path: Seq<char>,
    pub maximize: bool,
}

/// The domain and the path of an address as one word. For a browser of the
/// Chromium family the two are joined by `/` and every `/` becomes `_`; for
/// any other browser the path follows the domain as it is.
pub open spec fn domain_path(base: Base, domain: Seq<char>, url_path: Seq<char>) -> Seq<char> {
    match base {
        Base::Chromium => replaced(domain + seq!['/'] + url_path, seq!['/'], seq!['_']),
        _ => domain + url_path,
    }
}

/// What is put in for the placeholder that stands in `t` at `at`, and
/// where the reading goes on; `None` where no placeholder that the engine
/// knows stands there. The engine knows `%{command}`, `%{name}`, `%{url}`,
/// `%{domain}`, `%{domain_path}`, `%{icon}` and `%{app_id}`, the
/// conditional `is_isolated`, whose value is the profile path, and the
/// conditional `is_maximized`, which has no value.
pub open spec fn placeholder_step(t: Seq<char>, at: int, values: Values) -> Option<
    (Seq<char>, int),
> {
    let rest = t.subrange(at, t.len() as int);
    if starts_with(rest, "%{command}"@) {
        Some((values.command, at + "%{command}"@.len()))
    } else if starts_with(rest, "%{name}"@) {
        Some((values.name, at + "%{name}"@.len()))
    } else if starts_with(rest, "%{url}"@) {
        Some((values.url, at + "%{url}"@.len()))
    } else if starts_with(rest, "%{domain}"@) {
        Some((values.domain, at + "%{domain}"@.len()))
    } else if starts_with(rest, "%{domain_path}"@) {
        Some((values.domain_path, at + "%{domain_path}"@.len()))
    } else if starts_with(rest, "%{icon}"@) {
        Some((values.icon, at + "%{icon}"@.len()))
    } else if starts_with(rest, "%{app_id}"@) {
        Some((values.app_id, at + "%{app_id}"@.len()))
    } else if conditional_step(t, at, "is_isolated"@, values.isolate, Some(values.profile_path))
        is Some {
        conditional_step(t, at, "is_isolated"@, values.isolate, Some(values.profile_path))
    } else {
        conditional_step(t, at, "is_maximized"@, values.maximize, None)
    }
}

/// `t` from `at` on, with its placeholders filled in.
pub open spec fn filled_from(t: Seq<char>, at: int, values: Values) -> Seq<char>
    decreases t.len() - at,
{
    if at < 0 || at >= t.len() {
        Seq::empty()
    } else {
        match placeholder_step(t, at, values) {
            Some((text, next)) => if at < next <= t.len() {
                text + filled_from(t, next, values)
            } else {
                t.subrange(at, t.len() as int)
            },
            None => seq![t[at]] + filled_from(t, at + 1, values),
        }
    }
}

/// The template with its placeholders filled in. The template is read
/// once from the left; each value is put in as it is, and nothing in a
/// value is taken for a placeholder.
pub open spec fn filled(template: Seq<char>, values: Values) -> Seq<char> {
    filled_from(template, 0, values)
}

/// Whether the reading of `t` that starts at `from` comes by `at`: no
/// placeholder that is met on the way reaches across `at`.
pub open spec fn arrives(t: Seq<char>, values: Values, from: int, at: int) -> bool
    decreases t.len() - from,
{
    if from == at {
        true
    } else if from < 0 || from > at || from >= t.len() {
        false
    } else {
        match placeholder_step(t, from, values) {
            Some((_, next)) => from < next <= t.len() && arrives(t, values, next, at),
            None => arrives(t, values, from + 1, at),
        }
    }
}

/// What the reading of `t` from `from` on has put out when it comes by
/// `at`.
pub open spec fn filled_between(t: Seq<char>, values: Values, from: int, at: int) -> Seq<char>
    decreases t.len() - from,
{
    if from == at || from < 0 || from > at || from >= t.len() {
        Seq::empty()
    } else {
        match placeholder_step(t, from, values) {
            Some((text, next)) => if from < next <= t.len() {
                text + filled_between(t, values, next, at)
            } else {
                Seq::empty()
            },
            None => seq![t[from]] + filled_between(t, values, from + 1, at),
        }
    }
}

/// A conditional starts with `%` and ends with `}`.
pub proof fn lemma_conditional_at(s: Seq<char>, key: Seq<char>)
    requires
        conditional_at(s, key) is Some,
    ensures
        ({
            let found = conditional_at(s, key)->0;
            &&& s.len() > 0
            &&& s[0] == '%'
            &&& 0 < found.1 <= s.len()
            &&& s[found.1 - 1] == '}'
        }),
{
    reveal_strlit("%{");
    let open = "%{"@ + key;
    assert(s.subrange(0, open.len() as int)[0] == open[0]);
    let mark: int = open.len() as int + leading_spaces(
        s.subrange(open.len() as int, s.len() as int),
    ) as int;
    let from: int = mark + 1 + leading_spaces(s.subrange(mark + 1, s.len() as int)) as int;
    lemma_first_index(s.subrange(from, s.len() as int), '}');
}

/// Where a placeholder that the engine knows stands, a `%` stands; the
/// reading goes on behind its `}`, or, where a conditional went with its
/// line, behind the line feed of that line.
pub proof fn lemma_placeholder_step(t: Seq<char>, at: int, values: Values)
    requires
        0 <= at < t.len(),
        placeholder_step(t, at, values) is Some,
    ensures
        ({
            let step = placeholder_step(t, at, values)->0;
            &&& t[at] == '%'
            &&& at < step.1 <= t.len()
            &&& t[step.1 - 1] == '}' || (t[step.1 - 1] == '\n' && step.0.len() == 0
                && line_starts(t, at))
        }),
{
    reveal_strlit("%{command}");
    reveal_strlit("%{name}");
    reveal_strlit("%{url}");
    reveal_strlit("%{domain}");
    reveal_strlit("%{domain_path}");
    reveal_strlit("%{icon}");
    reveal_strlit("%{app_id}");
    let rest = t.subrange(at, t.len() as int);
    if starts_with(rest, "%{command}"@) {
        assert(rest.subrange(0, 10)[0] == '%' && rest.subrange(0, 10)[9] == '}');
    } else if starts_with(rest, "%{name}"@) {
        assert(rest.subrange(0, 7)[0] == '%' && rest.subrange(0, 7)[6] == '}');
    } else if starts_with(rest, "%{url}"@) {
        assert(rest.subrange(0, 6)[0] == '%' && rest.subrange(0, 6)[5] == '}');
    } else if starts_with(rest, "%{domain}"@) {
        assert(rest.subrange(0, 9)[0] == '%' && rest.subrange(0, 9)[8] == '}');
    } else if starts_with(rest, "%{domain_path}"@) {
        assert(rest.subrange(0, 14)[0] == '%' && rest.subrange(0, 14)[13] == '}');
    } else if starts_with(rest, "%{icon}"@) {
        assert(rest.subrange(0, 7)[0] == '%' && rest.subrange(0, 7)[6] == '}');
    } else if starts_with(rest, "%{app_id}"@) {
        assert(rest.subrange(0, 9)[0] == '%' && rest.subrange(0, 9)[8] == '}');
    } else if conditional_at(rest, "is_isolated"@) is Some {
        lemma_conditional_at(rest, "is_isolated"@);
        let found = conditional_at(rest, "is_isolated"@)->0;
        assert(rest[found.1 - 1] == t[at + found.1 - 1]);
    } else {
        lemma_conditional_at(rest, "is_maximized"@);
        let found = conditional_at(rest, "is_maximized"@)->0;
        assert(rest[found.1 - 1] == t[at + found.1 - 1]);
    }
}

/// Whether no line feed stands in `t` from `from` up to, not including,
/// `to`.
pub open spec fn within_line(t: Seq<char>, from: int, to: int) -> bool {
    forall|i: int| from <= i < to && 0 <= i < t.len() ==> #[trigger] t[i] != '\n'
}

/// Whether the conditional for `key` that stands in `t` at `at`, if one
/// stands there, lies within one line.
pub open spec fn conditional_in_line(t: Seq<char>, at: int, key: Seq<char>) -> bool {
    match conditional_at(t.subrange(at, t.len() as int), key) {
        Some((_, taken)) => within_line(t, at, at + taken),
        None => true,
    }
}

/// Whether every conditional of the template lies within one line.
pub open spec fn conditionals_in_lines(t: Seq<char>) -> bool {
    forall|at: int|
        0 <= at < t.len() ==> #[trigger] conditional_in_line(t, at, "is_isolated"@)
            && conditional_in_line(t, at, "is_maximized"@)
}

/// In a template whose conditionals lie within one line each, no
/// placeholder holds a line feed.
pub proof fn lemma_step_within_line(t: Seq<char>, at: int, values: Values)
    requires
        0 <= at < t.len(),
        conditionals_in_lines(t),
        placeholder_step(t, at, values) is Some,
    ensures
        ({
            let step = placeholder_step(t, at, values)->0;
            within_line(t, at, step.1 - 1)
        }),
{
    reveal_strlit("%{command}");
    reveal_strlit("%{name}");
    reveal_strlit("%{url}");
    reveal_strlit("%{domain}");
    reveal_strlit("%{domain_path}");
    reveal_strlit("%{icon}");
    reveal_strlit("%{app_id}");
    let rest = t.subrange(at, t.len() as int);
    let step = placeholder_step(t, at, values)->0;
    assert(conditional_in_line(t, at, "is_isolated"@));
    if starts_with(rest, "%{command}"@) {
        assert forall|i: int| at <= i < step.1 - 1 implies #[trigger] t[i] != '\n' by {
            assert(t[i] == rest.subrange(0, 10)[i - at]);
        }
    } else if starts_with(rest, "%{name}"@) {
        assert forall|i: int| at <= i < step.1 - 1 implies #[trigger] t[i] != '\n' by {
            assert(t[i] == rest.subrange(0, 7)[i - at]);
        }
    } else if starts_with(rest, "%{url}"@) {
        assert forall|i: int| at <= i < step.1 - 1 implies #[trigger] t[i] != '\n' by {
            assert(t[i] == rest.subrange(0, 6)[i - at]);
        }
    } else if starts_with(rest, "%{domain}"@) {
        assert forall|i: int| at <= i < step.1 - 1 implies #[trigger] t[i] != '\n' by {
            assert(t[i] == rest.subrange(0, 9)[i - at]);
        }
    } else if starts_with(rest, "%{domain_path}"@) {
        assert forall|i: int| at <= i < step.1 - 1 implies #[trigger] t[i] != '\n' by {
            assert(t[i] == rest.subrange(0, 14)[i - at]);
        }
    } else if starts_with(rest, "%{icon}"@) {
        assert forall|i: int| at <= i < step.1 - 1 implies #[trigger] t[i] != '\n' by {
            assert(t[i] == rest.subrange(0, 7)[i - at]);
        }
    } else if starts_with(rest, "%{app_id}"@) {
        assert forall|i: int| at <= i < step.1 - 1 implies #[trigger] t[i] != '\n' by {
            assert(t[i] == rest.subrange(0, 9)[i - at]);
        }
    }
}

/// In a template whose conditionals lie within one line each, the reading
/// comes by the start of every line.
pub proof fn lemma_arrives(t: Seq<char>, values: Values, from: int, at: int)
    requires
        conditionals_in_lines(t),
        0 <= from <= at <= t.len(),
        line_starts(t, at),
    ensures
        arrives(t, values, from, at),
    decreases at - from,
{
    if from < at {
        match placeholder_step(t, from, values) {
            Some((_, next)) => {
                lemma_placeholder_step(t, from, values);
                lemma_step_within_line(t, from, values);
                if next > at {
                    assert(t[at - 1] != '\n');
                }
                lemma_arrives(t, values, next, at);
            },
            None => {
                lemma_arrives(t, values, from + 1, at);
            },
        }
    }
}

/// The literal of a conditional that lies within one line holds no line
/// feed.
pub proof fn lemma_literal_in_line(t: Seq<char>, at: int, key: Seq<char>)
    requires
        0 <= at < t.len(),
        conditional_at(t.subrange(at, t.len() as int), key) is Some,
        conditional_in_line(t, at, key),
    ensures
        ({
            let found = conditional_at(t.subrange(at, t.len() as int), key)->0;
            forall|i: int| 0 <= i < found.0.len() ==> #[trigger] found.0[i] != '\n'
        }),
{
    let s = t.subrange(at, t.len() as int);
    let found = conditional_at(s, key)->0;
    let open = "%{"@ + key;
    let mark: int = open.len() as int + leading_spaces(
        s.subrange(open.len() as int, s.len() as int),
    ) as int;
    let from: int = mark + 1 + leading_spaces(s.subrange(mark + 1, s.len() as int)) as int;
    let to: int = from + first_index(s.subrange(from, s.len() as int), '}');
    lemma_first_index(s.subrange(from, s.len() as int), '}');
    assert forall|i: int| 0 <= i < found.0.len() implies #[trigger] found.0[i] != '\n' by {
        if to > from {
            assert(found.0[i] == s[from + i]);
            assert(s[from + i] == t[at + from + i]);
        } else {
            assert(found.0[i] == s[from - 1 + i]);
            assert(s[from - 1 + i] == t[at + from - 1 + i]);
        }
    }
}

/// Values without line feeds.
pub open spec fn single_line_values(values: Values) -> bool {
    &&& within_line(values.command, 0, values.command.len() as int)
    &&& within_line(values.name, 0, values.name.len() as int)
    &&& within_line(values.url, 0, values.url.len() as int)
    &&& within_line(values.domain, 0, values.domain.len() as int)
    &&& within_line(values.domain_path, 0, values.domain_path.len() as int)
    &&& within_line(values.icon, 0, values.icon.len() as int)
    &&& within_line(values.app_id, 0, values.app_id.len() as int)
    &&& within_line(values.profile_path, 0, values.profile_path.len() as int)
}

/// In a template whose conditionals lie within one line each, what is put
/// in for a placeholder holds no line feed, if the values hold none.
pub proof fn lemma_step_text_in_line(t: Seq<char>, at: int, values: Values)
    requires
        0 <= at < t.len(),
        conditionals_in_lines(t),
        single_line_values(values),
        placeholder_step(t, at, values) is Some,
    ensures
        ({
            let step = placeholder_step(t, at, values)->0;
            within_line(step.0, 0, step.0.len() as int)
        }),
{
    let rest = t.subrange(at, t.len() as int);
    let step = placeholder_step(t, at, values)->0;
    assert(conditional_in_line(t, at, "is_isolated"@));
    if conditional_at(rest, "is_isolated"@) is Some {
        lemma_literal_in_line(t, at, "is_isolated"@);
    }
    if conditional_at(rest, "is_maximized"@) is Some {
        lemma_literal_in_line(t, at, "is_maximized"@);
    }
}

/// The reading of one line. Where no line feed stands between `from` and
/// the end `end` of the line, the reading comes by `end`, and what it has
/// put out by then holds no line feed. The reading is not to begin with a
/// placeholder at the start of the line, which might go with the line.
pub proof fn lemma_line_read(t: Seq<char>, values: Values, from: int, end: int)
    requires
        0 <= from <= end <= t.len(),
        within_line(t, from, end),
        line_ends(t, end),
        conditionals_in_lines(t),
        single_line_values(values),
        from < end && line_starts(t, from) ==> t[from] != '%',
    ensures
        arrives(t, values, from, end),
        within_line(
            filled_between(t, values, from, end),
            0,
            filled_between(t, values, from, end).len() as int,
        ),
    decreases end - from,
{
    if from < end {
        match placeholder_step(t, from, values) {
            Some((text, next)) => {
                lemma_placeholder_step(t, from, values);
                lemma_step_within_line(t, from, values);
                lemma_step_text_in_line(t, from, values);
                assert(t[next - 1] == '}');
                if next > end {
                    if end < next - 1 {
                        assert(t[end] != '\n');
                    }
                }
                assert(t[next - 1] != '\n');
                lemma_line_read(t, values, next, end);
                let more = filled_between(t, values, next, end);
                assert forall|i: int| 0 <= i < (text + more).len() implies #[trigger] (text
                    + more)[i] != '\n' by {
                    if i < text.len() {
                        assert((text + more)[i] == text[i]);
                    } else {
                        assert((text + more)[i] == more[i - text.len()]);
                    }
                }
            },
            None => {
                assert(t[from] != '\n');
                lemma_line_read(t, values, from + 1, end);
                let more = filled_between(t, values, from + 1, end);
                assert forall|i: int|
                    0 <= i < (seq![t[from]] + more).len() implies #[trigger] (seq![t[from]]
                    + more)[i] != '\n' by {
                    if i > 0 {
                        assert((seq![t[from]] + more)[i] == more[i - 1]);
                    }
                }
            },
        }
    }
}

/// Text without `%` before `at` is put out as it is on the way to `at`.
pub proof fn lemma_copied_between(t: Seq<char>, values: Values, from: int, to: int, at: int)
    requires
        0 <= from <= to <= at <= t.len(),
        forall|i: int| from <= i < to ==> #[trigger] t[i] != '%',
    ensures
        filled_between(t, values, from, at) == t.subrange(from, to) + filled_between(
            t,
            values,
            to,
            at,
        ),
    decreases to - from,
{
    let tail = filled_between(t, values, to, at);
    if from == to {
        assert(t.subrange(from, to) + tail =~= tail);
    } else {
        if placeholder_step(t, from, values) is Some {
            lemma_placeholder_step(t, from, values);
        }
        lemma_copied_between(t, values, from + 1, to, at);
        assert(seq![t[from]] + (t.subrange(from + 1, to) + tail) =~= t.subrange(from, to) + tail);
    }
}

/// Where the reading comes by `at`, what it puts out is what it has put
/// out by then, followed by what it puts out from `at` on.
pub proof fn lemma_filled_split(t: Seq<char>, values: Values, from: int, at: int)
    requires
        0 <= from,
        at <= t.len(),
        arrives(t, values, from, at),
    ensures
        filled_from(t, from, values) == filled_between(t, values, from, at) + filled_from(
            t,
            at,
            values,
        ),
    decreases t.len() - from,
{
    let tail = filled_from(t, at, values);
    if from == at {
        assert(Seq::<char>::empty() + tail =~= tail);
    } else {
        match placeholder_step(t, from, values) {
            Some((text, next)) => {
                lemma_filled_split(t, values, next, at);
                assert(text + (filled_between(t, values, next, at) + tail) =~= (text
                    + filled_between(t, values, next, at)) + tail);
            },
            None => {
                lemma_filled_split(t, values, from + 1, at);
                assert(seq![t[from]] + (filled_between(t, values, from + 1, at) + tail) =~= (
                seq![t[from]] + filled_between(t, values, from + 1, at)) + tail);
            },
        }
    }
}

/// Where the reading comes by the start of a line, what it has put out by
/// then is empty or ends with a line feed; and where it is empty, the
/// reading began at the start of a line.
pub proof fn lemma_between_lines(t: Seq<char>, values: Values, from: int, at: int)
    requires
        0 <= from <= at <= t.len(),
        arrives(t, values, from, at),
        line_starts(t, at),
    ensures
        filled_between(t, values, from, at).len() > 0 ==> filled_between(
            t,
            values,
            from,
            at,
        ).last() == '\n',
        filled_between(t, values, from, at).len() == 0 ==> line_starts(t, from),
    decreases t.len() - from,
{
    if from < at {
        match placeholder_step(t, from, values) {
            Some((text, next)) => {
                lemma_placeholder_step(t, from, values);
                assert(arrives(t, values, next, at));
                assert(next <= at) by {
                    if next > at {
                        assert(!arrives(t, values, next, at));
                    }
                }
                lemma_between_lines(t, values, next, at);
                let more = filled_between(t, values, next, at);
                if more.len() > 0 {
                    assert((text + more).last() == more.last());
                } else {
                    assert(line_starts(t, next));
                    assert(text + more =~= text);
                }
            },
            None => {
                lemma_between_lines(t, values, from + 1, at);
                let more = filled_between(t, values, from + 1, at);
                if more.len() > 0 {
                    assert((seq![t[from]] + more).last() == more.last());
                } else {
                    assert(line_starts(t, from + 1));
                    assert(seq![t[from]] + more =~= seq![t[from]]);
                }
            },
        }
    }
}

/// Text without `%` is put out as it is.
pub proof fn lemma_copied(t: Seq<char>, values: Values, from: int, to: int)
    requires
        0 <= from <= to <= t.len(),
        forall|i: int| from <= i < to ==> #[trigger] t[i] != '%',
    ensures
        filled_from(t, from, values) == t.subrange(from, to) + filled_from(t, to, values),
    decreases to - from,
{
    let tail = filled_from(t, to, values);
    if from == to {
        assert(t.subrange(from, to) + tail =~= tail);
    } else {
        if placeholder_step(t, from, values) is Some {
            lemma_placeholder_step(t, from, values);
        }
        lemma_copied(t, values, from + 1, to);
        assert(seq![t[from]] + (t.subrange(from + 1, to) + tail) =~= t.subrange(from, to) + tail);
    }
}

/// A line of the template that is a key, `=` and one placeholder is put
/// out as the key, `=` and the value of the placeholder, as it is.
pub proof fn lemma_keyed_line(
    t: Seq<char>,
    values: Values,
    at: int,
    key: Seq<char>,
    value: Seq<char>,
    end: int,
)
    requires
        0 <= at,
        at + key.len() + 1 < end <= t.len(),
        t.subrange(at, at + key.len()) == key,
        t[at + key.len()] == '=',
        forall|i: int| 0 <= i < key.len() ==> #[trigger] key[i] != '%',
        placeholder_step(t, at + key.len() + 1, values) == Some((value, end)),
        line_ends(t, end),
    ensures
        filled_from(t, at, values) == key + seq!['='] + value + filled_from(t, end, values),
        end < t.len() ==> filled_from(t, end, values) == seq!['\n'] + filled_from(
            t,
            end + 1,
            values,
        ),
        end == t.len() ==> filled_from(t, end, values).len() == 0 && filled_from(
            t,
            end + 1,
            values,
        ).len() == 0,
{
    let from = at + key.len() + 1;
    assert forall|i: int| at <= i < from implies #[trigger] t[i] != '%' by {
        if i < at + key.len() {
            assert(t.subrange(at, at + key.len())[i - at] == t[i]);
        }
    }
    lemma_copied(t, values, at, from);
    assert(t.subrange(at, from) =~= key + seq!['=']);
    assert((key + seq!['=']) + (value + filled_from(t, end, values)) =~= key + seq!['='] + value
        + filled_from(t, end, values));
    if end < t.len() {
        if placeholder_step(t, end, values) is Some {
            lemma_placeholder_step(t, end, values);
        }
    }
}

/// The values that leave nothing of a placeholder behind.
pub open spec fn no_values() -> Values {
    Values {
        command: Seq::empty(),
        name: Seq::empty(),
        url: Seq::empty(),
        domain: Seq::empty(),
        domain_path: Seq::empty(),
        icon: Seq::empty(),
        app_id: Seq::empty(),
        isolate: false,
        profile_path: Seq::empty(),
        maximize: false,
    }
}

/// Whether, reading `t` from `at` on, `%{` is met where no placeholder
/// that the engine knows stands.
pub open spec fn unknown_from(t: Seq<char>, at: int) -> bool
    decreases t.len() - at,
{
    if at < 0 || at >= t.len() {
        false
    } else {
        match placeholder_step(t, at, no_values()) {
            Some((_, next)) => at < next <= t.len() && unknown_from(t, next),
            None => starts_with(t.subrange(at, t.len() as int), "%{"@) || unknown_from(
                t,
                at + 1,
            ),
        }
    }
}

/// Whether a template holds a placeholder that the engine does not know:
/// reading it, `%{` is met where no known placeholder stands.
pub open spec fn has_unknown_placeholder(template: Seq<char>) -> bool {
    unknown_from(template, 0)
}

/// The conditional for `open` (`%{` and the key) that stands in `s` at
/// `at`, if there is one: where its literal starts and ends, and where the
/// text goes on after it.
fn match_conditional(s: &Vec<char>, at: usize, open: &Vec<char>, Ghost(key): Ghost<Seq<char>>) -> (r:
    Option<(usize, usize, usize)>)
    requires
        at <= s.len(),
        open@ == "%{"@ + key,
    ensures
        match r {
            Some((from, to, next)) => at <= from <= to <= s.len() && at < next <= s.len()
                && conditional_at(s@.subrange(at as int, s@.len() as int), key) == Some(
                (s@.subrange(from as int, to as int), next - at),
            ),
            None => conditional_at(s@.subrange(at as int, s@.len() as int), key).is_none(),
        },
{
    let n: usize = s.len();
    let ghost rest = s@.subrange(at as int, n as int);
    if !matches_at(s, at, open) {
        return None;
    }
    let start: usize = at + open.len();
    let mark: usize = skip_spaces(s, start);
    assert(rest.subrange(open@.len() as int, rest.len() as int) =~= s@.subrange(
        start as int,
        n as int,
    ));
    if mark >= n || s[mark] != '?' {
        return None;
    }
    let from: usize = skip_spaces(s, mark + 1);
    assert(rest.subrange(mark - at + 1, rest.len() as int) =~= s@.subrange(mark + 1, n as int));
    let to: usize = find_char(s, from, '}');
    assert(rest.subrange(from - at, rest.len() as int) =~= s@.subrange(from as int, n as int));
    if to >= n {
        None
    } else if to > from {
        assert(rest.subrange(from - at, to - at) =~= s@.subrange(from as int, to as int));
        Some((from, to, to + 1))
    } else if from > mark + 1 {
        assert(rest.subrange(from - at - 1, from - at) =~= s@.subrange(from - 1, from as int));
        Some((from - 1, from, to + 1))
    } else {
        None
    }
}

/// What is put in for the conditional for `open` (`%{` and the key) that
/// stands in `text` at `at`, and where the reading goes on.
fn step_conditional(
    text: &Vec<char>,
    at: usize,
    open: &Vec<char>,
    Ghost(key): Ghost<Seq<char>>,
    set_value: bool,
    with_value: &Option<Vec<char>>,
) -> (r: Option<(Vec<char>, usize)>)
    requires
        at < text.len(),
        open@ == "%{"@ + key,
    ensures
        match r {
            Some((put, next)) => at < next <= text.len() && conditional_step(
                text@,
                at as int,
                key,
                set_value,
                chars_view(*with_value),
            ) == Some((put@, next as int)),
            None => conditional_step(
                text@,
                at as int,
                key,
                set_value,
                chars_view(*with_value),
            ).is_none(),
        },
{
    match match_conditional(text, at, open, Ghost(key)) {
        Some((from, to, next)) => {
            let alone = (at == 0 || text[at - 1] == '\n') && next < text.len() && text[next]
                == '\n';
            let mut put: Vec<char> = Vec::new();
            if !set_value && alone {
                return Some((put, next + 1));
            }
            if set_value {
                append_chars(&mut put, &slice_chars(text, from, to));
                match with_value {
                    Some(value) => {
                        put.push('=');
                        append_chars(&mut put, value);
                    },
                    None => {},
                }
            }
            assert(put@ =~= conditional_text(
                text@.subrange(from as int, to as int),
                set_value,
                chars_view(*with_value),
            ));
            Some((put, next))
        },
        None => None,
    }
}

/// The characters of an optional list of characters.
pub open spec fn chars_view(chars: Option<Vec<char>>) -> Option<Seq<char>> {
    match chars {
        Some(c) => Some(c@),
        None => None,
    }
}

/// Replaces every conditional for `conditional_key` in `text`.
pub fn replace_conditional(
    conditional_key: &str,
    set_value: bool,
    with_value: Option<&str>,
    text: &Vec<char>,
) -> (r: Vec<char>)
    ensures
        r@ == conditionals_replaced(
            text@,
            conditional_key@,
            set_value,
            match with_value {
                Some(value) => Some(value@),
                None => None,
            },
        ),
{
    let ghost key = conditional_key@;
    let mut open: Vec<char> = to_chars("%{");
    append_chars(&mut open, &to_chars(conditional_key));
    let with_chars: Option<Vec<char>> = match with_value {
        Some(value) => Some(to_chars(value)),
        None => None,
    };
    let ghost value = chars_view(with_chars);
    let n: usize = text.len();
    let mut out: Vec<char> = Vec::new();
    let mut i: usize = 0;
    assert(out@ + conditionals_from(text@, 0, key, set_value, value) =~= conditionals_replaced(
        text@,
        key,
        set_value,
        value,
    ));
    while i < n
        invariant
            i <= n,
            n == text@.len(),
            open@ == "%{"@ + key,
            value == chars_view(with_chars),
            out@ + conditionals_from(text@, i as int, key, set_value, value)
                == conditionals_replaced(text@, key, set_value, value),
        decreases n - i,
    {
        let ghost before = out@;
        match step_conditional(text, i, &open, Ghost(key), set_value, &with_chars) {
            Some((put, next)) => {
                append_chars(&mut out, &put);
                proof {
                    let tail = conditionals_from(text@, next as int, key, set_value, value);
                    assert(before + (put@ + tail) =~= out@ + tail);
                }
                i = next;
            },
            None => {
                out.push(text[i]);
                proof {
                    let tail = conditionals_from(text@, i + 1, key, set_value, value);
                    assert(before + (seq![text@[i as int]] + tail) =~= out@ + tail);
                }
                i += 1;
            },
        }
    }
    assert(out@ + Seq::<char>::empty() =~= out@);
    out
}

/// The domain and the path of an address as one word.
pub fn build_domain_path(base: Base, domain: &str, url_path: &str) -> (r: String)
    ensures
        r@ == domain_path(base, domain@, url_path@),
{
    let mut joined: Vec<char> = to_chars(domain);
    match base {
        Base::Chromium => {
            joined.push('/');
            append_chars(&mut joined, &to_chars(url_path));
            let mut slash: Vec<char> = Vec::new();
            slash.push('/');
            let mut line: Vec<char> = Vec::new();
            line.push('_');
            assert(slash@ =~= seq!['/']);
            assert(line@ =~= seq!['_']);
            assert(joined@ =~= domain@ + seq!['/'] + url_path@);
            to_text(&replace_all(&joined, &slash, &line))
        },
        _ => {
            append_chars(&mut joined, &to_chars(url_path));
            assert(joined@ =~= domain@ + url_path@);
            to_text(&joined)
        },
    }
}

/// The values that a template is filled with, as characters.
struct Filling {
    command: Vec<char>,
    name: Vec<char>,
    url: Vec<char>,
    domain: Vec<char>,
    domain_path: Vec<char>,
    icon: Vec<char>,
    app_id: Vec<char>,
    isolate: bool,
    profile_path: Option<Vec<char>>,
    maximize: bool,
}

impl View for Filling {
    type V = Values;

    closed spec fn view(&self) -> Values {
        Values {
            command: self.command@,
            name: self.name@,
            url: self.url@,
            domain: self.domain@,
            domain_path: self.domain_path@,
            icon: self.icon@,
            app_id: self.app_id@,
            isolate: self.isolate,
            profile_path: match self.profile_path {
                Some(path) => path@,
                None => Seq::empty(),
            },
            maximize: self.maximize,
        }
    }
}

/// A copy of a list of characters.
fn copy_chars(chars: &Vec<char>) -> (r: Vec<char>)
    ensures
        r@ == chars@,
{
    let r = slice_chars(chars, 0, chars.len());
    assert(chars@.subrange(0, chars@.len() as int) =~= chars@);
    r
}

/// Whether the placeholder `placeholder` stands in `text` at `at`, and
/// where the text goes on behind it.
fn match_placeholder(text: &Vec<char>, at: usize, placeholder: &str) -> (r: Option<usize>)
    requires
        at < text.len(),
    ensures
        match r {
            Some(next) => starts_with(text@.subrange(at as int, text@.len() as int), placeholder@)
                && next == at + placeholder@.len() && next <= text.len(),
            None => !starts_with(text@.subrange(at as int, text@.len() as int), placeholder@),
        },
{
    let pattern = to_chars(placeholder);
    if matches_at(text, at, &pattern) {
        Some(at + pattern.len())
    } else {
        None
    }
}

/// What is put in for the placeholder that stands in `text` at `at`, and
/// where the reading goes on.
fn step_placeholder(text: &Vec<char>, at: usize, filling: &Filling) -> (r: Option<
    (Vec<char>, usize),
>)
    requires
        at < text.len(),
        filling.profile_path is Some,
    ensures
        match r {
            Some((put, next)) => at < next <= text.len() && placeholder_step(
                text@,
                at as int,
                filling@,
            ) == Some((put@, next as int)),
            None => placeholder_step(text@, at as int, filling@).is_none(),
        },
{
    proof {
        reveal_strlit("%{command}");
        reveal_strlit("%{name}");
        reveal_strlit("%{url}");
        reveal_strlit("%{domain}");
        reveal_strlit("%{domain_path}");
        reveal_strlit("%{icon}");
        reveal_strlit("%{app_id}");
    }
    if text[at] != '%' {
        proof {
            reveal_strlit("%{");
            reveal_strlit("is_isolated");
            reveal_strlit("is_maximized");
            let rest = text@.subrange(at as int, text@.len() as int);
            assert(rest[0] != '%');
            assert(forall|p: Seq<char>|
                p.len() > 0 && p[0] == '%' && starts_with(rest, p) ==> rest.subrange(
                    0,
                    p.len() as int,
                )[0] == '%');
            assert(("%{"@ + "is_isolated"@)[0] == '%');
            assert(("%{"@ + "is_maximized"@)[0] == '%');
        }
        return None;
    }
    match match_placeholder(text, at, "%{command}") {
        Some(next) => {
            return Some((copy_chars(&filling.command), next));
        },
        None => {},
    }
    match match_placeholder(text, at, "%{name}") {
        Some(next) => {
            return Some((copy_chars(&filling.name), next));
        },
        None => {},
    }
    match match_placeholder(text, at, "%{url}") {
        Some(next) => {
            return Some((copy_chars(&filling.url), next));
        },
        None => {},
    }
    match match_placeholder(text, at, "%{domain}") {
        Some(next) => {
            return Some((copy_chars(&filling.domain), next));
        },
        None => {},
    }
    match match_placeholder(text, at, "%{domain_path}") {
        Some(next) => {
            return Some((copy_chars(&filling.domain_path), next));
        },
        None => {},
    }
    match match_placeholder(text, at, "%{icon}") {
        Some(next) => {
            return Some((copy_chars(&filling.icon), next));
        },
        None => {},
    }
    match match_placeholder(text, at, "%{app_id}") {
        Some(next) => {
            return Some((copy_chars(&filling.app_id), next));
        },
        None => {},
    }
    let mut isolated: Vec<char> = to_chars("%{");
    append_chars(&mut isolated, &to_chars("is_isolated"));
    match step_conditional(
        text,
        at,
        &isolated,
        Ghost("is_isolated"@),
        filling.isolate,
        &filling.profile_path,
    ) {
        Some(step) => {
            return Some(step);
        },
        None => {},
    }
    let mut maximized: Vec<char> = to_chars("%{");
    append_chars(&mut maximized, &to_chars("is_maximized"));
    let without: Option<Vec<char>> = None;
    step_conditional(text, at, &maximized, Ghost("is_maximized"@), filling.maximize, &without)
}

/// Fills a template with the given values.
pub fn fill(
    template: &str,
    command: &str,
    name: &str,
    url: &str,
    domain: &str,
    domain_path: &str,
    icon: &str,
    app_id: &str,
    isolate: bool,
    profile_path: &str,
    maximize: bool,
) -> (r: String)
    ensures
        r@ == filled(
            template@,
            Values {
                command: command@,
                name: name@,
                url: url@,
                domain: domain@,
                domain_path: domain_path@,
                icon: icon@,
                app_id: app_id@,
                isolate,
                profile_path: profile_path@,
                maximize,
            },
        ),
{
    let text = to_chars(template);
    let filling = Filling {
        command: to_chars(command),
        name: to_chars(name),
        url: to_chars(url),
        domain: to_chars(domain),
        domain_path: to_chars(domain_path),
        icon: to_chars(icon),
        app_id: to_chars(app_id),
        isolate,
        profile_path: Some(to_chars(profile_path)),
        maximize,
    };
    let n: usize = text.len();
    let mut out: Vec<char> = Vec::new();
    let mut i: usize = 0;
    assert(out@ + filled_from(text@, 0, filling@) =~= filled(text@, filling@));
    while i < n
        invariant
            i <= n,
            n == text@.len(),
            filling.profile_path is Some,
            out@ + filled_from(text@, i as int, filling@) == filled(text@, filling@),
        decreases n - i,
    {
        let ghost before = out@;
        match step_placeholder(&text, i, &filling) {
            Some((put, next)) => {
                append_chars(&mut out, &put);
                proof {
                    let tail = filled_from(text@, next as int, filling@);
                    assert(before + (put@ + tail) =~= out@ + tail);
                }
                i = next;
            },
            None => {
                out.push(text[i]);
                proof {
                    let tail = filled_from(text@, i + 1, filling@);
                    assert(before + (seq![text@[i as int]] + tail) =~= out@ + tail);
                }
                i += 1;
            },
        }
    }
    assert(out@ + Seq::<char>::empty() =~= out@);
    to_text(&out)
}

/// Whether a template holds a placeholder that the engine does not know.
/// Such a placeholder is left in the text as it is; a template that has one
/// was written for another engine, and its author should be told.
pub fn has_unmatched_placeholder(template: &str) -> (r: bool)
    ensures
        r == has_unknown_placeholder(template@),
{
    let text = to_chars(template);
    let opener = to_chars("%{");
    let filling = Filling {
        command: Vec::new(),
        name: Vec::new(),
        url: Vec::new(),
        domain: Vec::new(),
        domain_path: Vec::new(),
        icon: Vec::new(),
        app_id: Vec::new(),
        isolate: false,
        profile_path: Some(Vec::new()),
        maximize: false,
    };
    assert(filling@ == no_values());
    let n: usize = text.len();
    let mut i: usize = 0;
    while i < n
        invariant
            i <= n,
            n == text@.len(),
            text@ == template@,
            opener@ == "%{"@,
            filling@ == no_values(),
            filling.profile_path is Some,
            unknown_from(text@, i as int) == has_unknown_placeholder(template@),
        decreases n - i,
    {
        match step_placeholder(&text, i, &filling) {
            Some((_, next)) => {
                i = next;
            },
            None => {
                if matches_at(&text, i, &opener) {
                    return true;
                }
                i += 1;
            },
        }
    }
    false
}

} // verus!
