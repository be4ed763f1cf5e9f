//! What holds of the library as a whole, proved over the same
//! specifications that the functions are held to.

use vstd::prelude::*;
use crate::app_dirs::AppDirs;
use crate::browsers::{Base, BrowserView};
use crate::config::Config;
use crate::browsers::{
    browser_with_id, id_index, ids, installed_list, lemma_id_index, lemma_registry_ids,
    no_browser, run_command, ProbedConfig,
};
use crate::category::{category_name, Category};
use crate::desktop_entry::{
    lemma_parsed_is_plain, lemma_put, lemma_put_plain, lemma_read_entry_line,
    lemma_read_keeps, lemma_read_progress, lemma_read_split, lemma_round_trip,
    lemma_sets_key_line, line_key, lookup, parsed, plain_key, plain_pairs, plain_value, put,
    read_progress, rendered, sets_key, DecodeError, Pairs, Progress,
};
use crate::desktop_file::{
    browser_at, flag_at, flag_text, is_outdated, missing, other, profile_plan, record_wf,
    rendered_descriptor, resolved, text_at, values_of, version_at, with_fields,
    with_stored_version, Record,
};
use crate::error::Failure;
use crate::key::{key_name, lemma_key_names_differ, lemma_key_names_plain, Key};
use crate::template::{
    arrives, conditional_at, conditional_step, conditional_text, conditionals_from,
    conditionals_in_lines, conditionals_replaced, domain_path, filled, filled_between,
    filled_from, lemma_arrives, lemma_between_lines, lemma_conditional_at, lemma_copied_between,
    lemma_filled_split, lemma_keyed_line, lemma_line_read, lemma_placeholder_step, line_ends,
    line_starts, placeholder_step, single_line_values, within_line, Values,
};
use crate::text::{
    first_index, is_space, leading_spaces, lemma_first_index, lemma_first_index_is, replaced,
    starts_with,
};
use crate::version::{precedes, semver_parsed, version_text, SemVer};

verus! {

/// The fields without which a descriptor does not resolve. The profile is
/// one of them only for an isolated web app.
pub open spec fn is_required(field: Key) -> bool {
    field == Key::Name || field == Key::Id || field == Key::Version || field == Key::Url || field
        == Key::BrowserId || field == Key::Isolate || field == Key::Maximize || field == Key::Icon
        || field == Key::Profile
}

/// A descriptor that lacks one required field, and would resolve with that
/// field set, is rejected with exactly that field named as missing.
pub proof fn lemma_unset_field_is_named(
    pairs: Pairs,
    all: Seq<BrowserView>,
    field: Key,
    value: Seq<char>,
)
    requires
        is_required(field),
        lookup(pairs, key_name(field)) is None,
        resolved(put(pairs, key_name(field), value), all) is Ok,
        field == Key::Profile ==> flag_at(pairs, Key::Isolate) == Some(true),
    ensures
        resolved(pairs, all) == Err::<crate::desktop_file::Record, Failure>(missing(field)),
{
    let set = put(pairs, key_name(field), value);
    lemma_put(pairs, key_name(field), value);
    assert forall|k: Key| k != field implies lookup(set, key_name(k)) == lookup(
        pairs,
        key_name(k),
    ) by {
        lemma_key_names_differ(k, field);
    }
    assert(lookup(set, key_name(Key::Name)) == lookup(pairs, key_name(Key::Name)) || field
        == Key::Name);
    assert(lookup(set, key_name(Key::Id)) == lookup(pairs, key_name(Key::Id)) || field == Key::Id);
    assert(lookup(set, key_name(Key::Version)) == lookup(pairs, key_name(Key::Version)) || field
        == Key::Version);
    assert(lookup(set, key_name(Key::Url)) == lookup(pairs, key_name(Key::Url)) || field
        == Key::Url);
    assert(lookup(set, key_name(Key::BrowserId)) == lookup(pairs, key_name(Key::BrowserId))
        || field == Key::BrowserId);
    assert(lookup(set, key_name(Key::Isolate)) == lookup(pairs, key_name(Key::Isolate)) || field
        == Key::Isolate);
    assert(lookup(set, key_name(Key::Maximize)) == lookup(pairs, key_name(Key::Maximize)) || field
        == Key::Maximize);
    assert(lookup(set, key_name(Key::Icon)) == lookup(pairs, key_name(Key::Icon)) || field
        == Key::Icon);
    assert(lookup(set, key_name(Key::Profile)) == lookup(pairs, key_name(Key::Profile)) || field
        == Key::Profile);
}

/// What `with_fields` leaves under each key that it sets, and that it
/// leaves every other key of a meaning alone.
pub proof fn lemma_with_fields(pairs: Pairs, record: Record)
    ensures
        lookup(with_fields(pairs, record), key_name(Key::Owned)) == Some("true"@),
        lookup(with_fields(pairs, record), key_name(Key::Id)) == Some(record.app_id),
        lookup(with_fields(pairs, record), key_name(Key::Version)) == Some(
            version_text(record.version),
        ),
        lookup(with_fields(pairs, record), key_name(Key::Url)) == Some(record.url),
        lookup(with_fields(pairs, record), key_name(Key::BrowserId)) == Some(record.browser.id),
        lookup(with_fields(pairs, record), key_name(Key::Isolate)) == Some(
            flag_text(record.isolate),
        ),
        lookup(with_fields(pairs, record), key_name(Key::Maximize)) == Some(
            flag_text(record.maximize),
        ),
        lookup(with_fields(pairs, record), key_name(Key::Profile)) == Some(record.profile_path),
        lookup(with_fields(pairs, record), key_name(Key::Categories)) == Some(record.category),
        lookup(with_fields(pairs, record), key_name(Key::Comment)) == match record.description {
            Some(description) => Some(description),
            None => lookup(pairs, key_name(Key::Comment)),
        },
        lookup(with_fields(pairs, record), key_name(Key::Name)) == lookup(
            pairs,
            key_name(Key::Name),
        ),
        lookup(with_fields(pairs, record), key_name(Key::Icon)) == lookup(
            pairs,
            key_name(Key::Icon),
        ),
        lookup(with_fields(pairs, record), key_name(Key::Exec)) == lookup(
            pairs,
            key_name(Key::Exec),
        ),
{
    assert forall|a: Key, b: Key| a != b implies key_name(a) != key_name(b) by {
        lemma_key_names_differ(a, b);
    }
    let a = put(pairs, key_name(Key::Owned), "true"@);
    let b = put(a, key_name(Key::Id), record.app_id);
    let c = put(b, key_name(Key::Version), version_text(record.version));
    let d = put(c, key_name(Key::Url), record.url);
    let e = put(d, key_name(Key::BrowserId), record.browser.id);
    let f = put(e, key_name(Key::Isolate), flag_text(record.isolate));
    let g = put(f, key_name(Key::Maximize), flag_text(record.maximize));
    let h = put(g, key_name(Key::Profile), record.profile_path);
    let i = match record.description {
        Some(description) => put(h, key_name(Key::Comment), description),
        None => h,
    };
    lemma_put(pairs, key_name(Key::Owned), "true"@);
    lemma_put(a, key_name(Key::Id), record.app_id);
    lemma_put(b, key_name(Key::Version), version_text(record.version));
    lemma_put(c, key_name(Key::Url), record.url);
    lemma_put(d, key_name(Key::BrowserId), record.browser.id);
    lemma_put(e, key_name(Key::Isolate), flag_text(record.isolate));
    lemma_put(f, key_name(Key::Maximize), flag_text(record.maximize));
    lemma_put(g, key_name(Key::Profile), record.profile_path);
    if record.description is Some {
        lemma_put(h, key_name(Key::Comment), record.description->0);
    }
    lemma_put(i, key_name(Key::Categories), record.category);
}

/// A record whose fields hold no line feed. One line of a descriptor's
/// text holds one value, so a value with a line feed cannot be written.
pub open spec fn single_line(record: Record) -> bool {
    &&& plain_value(record.name)
    &&& plain_value(record.icon_path)
    &&& plain_value(record.app_id)
    &&& plain_value(version_text(record.version))
    &&& plain_value(record.url)
    &&& plain_value(record.browser.id)
    &&& plain_value(record.profile_path)
    &&& plain_value(record.category)
    &&& record.description is Some ==> plain_value(record.description->0)
}

/// Setting the fields of a single-line record keeps plain pairs plain.
pub proof fn lemma_with_fields_plain(pairs: Pairs, record: Record)
    requires
        plain_pairs(pairs),
        single_line(record),
    ensures
        plain_pairs(with_fields(pairs, record)),
{
    assert forall|k: Key| plain_key(#[trigger] key_name(k)) by {
        lemma_key_names_plain(k);
    }
    reveal_strlit("true");
    reveal_strlit("false");
    assert(plain_value("true"@));
    assert(plain_value("false"@));
    let a = put(pairs, key_name(Key::Owned), "true"@);
    let b = put(a, key_name(Key::Id), record.app_id);
    let c = put(b, key_name(Key::Version), version_text(record.version));
    let d = put(c, key_name(Key::Url), record.url);
    let e = put(d, key_name(Key::BrowserId), record.browser.id);
    let f = put(e, key_name(Key::Isolate), flag_text(record.isolate));
    let g = put(f, key_name(Key::Maximize), flag_text(record.maximize));
    let h = put(g, key_name(Key::Profile), record.profile_path);
    let i = match record.description {
        Some(description) => put(h, key_name(Key::Comment), description),
        None => h,
    };
    lemma_put_plain(pairs, key_name(Key::Owned), "true"@);
    lemma_put_plain(a, key_name(Key::Id), record.app_id);
    lemma_put_plain(b, key_name(Key::Version), version_text(record.version));
    lemma_put_plain(c, key_name(Key::Url), record.url);
    lemma_put_plain(d, key_name(Key::BrowserId), record.browser.id);
    lemma_put_plain(e, key_name(Key::Isolate), flag_text(record.isolate));
    lemma_put_plain(f, key_name(Key::Maximize), flag_text(record.maximize));
    lemma_put_plain(g, key_name(Key::Profile), record.profile_path);
    if record.description is Some {
        lemma_put_plain(h, key_name(Key::Comment), record.description->0);
    }
    lemma_put_plain(i, key_name(Key::Categories), record.category);
}

/// Saving and reading again. The text of a rendered descriptor, read
/// again, is the rendered descriptor. Its fields are those of the record
/// that it was rendered from: identifier, version, address, browser, the
/// two flags, profile, category and, where the record has one,
/// description. Where the template has carried the name, the icon and the
/// description through, the descriptor resolves to the very same record.
///
/// The fields of the record have to be free of line feeds, for one line
/// of the text holds one value.
pub proof fn lemma_saved_descriptor_resolves(
    pairs: Pairs,
    all: Seq<BrowserView>,
    dirs: &AppDirs,
    config: &Config,
)
    requires
        rendered_descriptor(pairs, all, dirs, config) is Ok,
        record_wf(resolved(pairs, all)->Ok_0),
        single_line(resolved(pairs, all)->Ok_0),
    ensures
        ({
            let record = resolved(pairs, all)->Ok_0;
            let saved = rendered_descriptor(pairs, all, dirs, config)->Ok_0.0;
            &&& parsed(rendered(saved)) == Ok::<Pairs, DecodeError>(saved)
            &&& flag_at(saved, Key::Owned) == Some(true)
            &&& text_at(saved, Key::Id) == Some(record.app_id)
            &&& version_at(saved) == Some(record.version)
            &&& text_at(saved, Key::Url) == Some(record.url)
            &&& browser_at(saved, all) == Some(record.browser)
            &&& flag_at(saved, Key::Isolate) == Some(record.isolate)
            &&& flag_at(saved, Key::Maximize) == Some(record.maximize)
            &&& text_at(saved, Key::Profile) == if record.profile_path.len() > 0 {
                Some(record.profile_path)
            } else {
                None
            }
            &&& text_at(saved, Key::Categories) == Some(record.category)
            &&& record.description is Some ==> text_at(saved, Key::Comment) == record.description
            &&& text_at(saved, Key::Name) == Some(record.name) && text_at(saved, Key::Icon) == Some(
                record.icon_path,
            ) && text_at(saved, Key::Comment) == record.description ==> resolved(saved, all) == Ok::<
                Record,
                Failure,
            >(record)
        }),
{
    let record = resolved(pairs, all)->Ok_0;
    let saved = rendered_descriptor(pairs, all, dirs, config)->Ok_0.0;
    assert(resolved(pairs, all) is Ok);
    let command = run_command(record.browser)->Ok_0;
    let text = filled(record.browser.desktop_file, values_of(record, command, config));
    let read = parsed(text)->Ok_0;
    assert(saved == with_fields(read, record));
    lemma_parsed_is_plain(text);
    lemma_with_fields_plain(read, record);
    lemma_round_trip(saved);
    lemma_with_fields(read, record);
    reveal_strlit("true");
    reveal_strlit("false");
    reveal_strlit("Network");
    assert("true"@.len() == 4 && "false"@.len() == 5);
    assert(flag_text(record.isolate).len() > 0);
    assert(category_name(Category::Network).len() > 0);
    let id = text_at(pairs, Key::BrowserId)->0;
    lemma_id_index(all, id);
    assert(record.browser == browser_with_id(all, id)->0);
    assert(record.browser.id == id);
    assert(browser_at(saved, all) == Some(record.browser));
    assert(record.isolate ==> record.profile_path.len() > 0);
}

/// A text in which `pat` does not occur is left as it is when `pat` is
/// replaced.
pub proof fn lemma_nothing_to_replace(s: Seq<char>, pat: Seq<char>, to: Seq<char>)
    requires
        forall|i: int| 0 <= i <= s.len() ==> !#[trigger] starts_with(
            s.subrange(i, s.len() as int),
            pat,
        ),
    ensures
        replaced(s, pat, to) == s,
    decreases s.len(),
{
    if s.len() > 0 {
        let tail = s.subrange(1, s.len() as int);
        assert(s.subrange(0, s.len() as int) =~= s);
        assert forall|i: int| 0 <= i <= tail.len() implies !#[trigger] starts_with(
            tail.subrange(i, tail.len() as int),
            pat,
        ) by {
            assert(tail.subrange(i, tail.len() as int) =~= s.subrange(i + 1, s.len() as int));
        }
        lemma_nothing_to_replace(tail, pat, to);
        assert(seq![s[0]] + tail =~= s);
    }
}

/// No conditional for isolation that the reading of a template meets is
/// left in the text: where one stands, the engine puts in what stands for
/// it, and nothing else.
pub proof fn lemma_isolation_conditional_is_replaced(t: Seq<char>, at: int, values: Values)
    requires
        0 <= at < t.len(),
        conditional_at(t.subrange(at, t.len() as int), "is_isolated"@) is Some,
    ensures
        placeholder_step(t, at, values) == conditional_step(
            t,
            at,
            "is_isolated"@,
            values.isolate,
            Some(values.profile_path),
        ),
        placeholder_step(t, at, values) is Some,
{
    reveal_strlit("%{");
    reveal_strlit("is_isolated");
    reveal_strlit("%{command}");
    reveal_strlit("%{name}");
    reveal_strlit("%{url}");
    reveal_strlit("%{domain}");
    reveal_strlit("%{domain_path}");
    reveal_strlit("%{icon}");
    reveal_strlit("%{app_id}");
    let rest = t.subrange(at, t.len() as int);
    let open = "%{"@ + "is_isolated"@;
    assert(open.len() == 13);
    assert(rest.subrange(0, 13)[2] == open[2] && rest.subrange(0, 13)[3] == open[3]);
    assert(rest[2] == 'i' && rest[3] == 's');
    if starts_with(rest, "%{command}"@) {
        assert(rest.subrange(0, 10)[2] == rest[2]);
    }
    if starts_with(rest, "%{name}"@) {
        assert(rest.subrange(0, 7)[2] == rest[2]);
    }
    if starts_with(rest, "%{url}"@) {
        assert(rest.subrange(0, 6)[2] == rest[2]);
    }
    if starts_with(rest, "%{domain}"@) {
        assert(rest.subrange(0, 9)[2] == rest[2]);
    }
    if starts_with(rest, "%{domain_path}"@) {
        assert(rest.subrange(0, 14)[2] == rest[2]);
    }
    if starts_with(rest, "%{icon}"@) {
        assert(rest.subrange(0, 7)[3] == rest[3]);
    }
    if starts_with(rest, "%{app_id}"@) {
        assert(rest.subrange(0, 9)[2] == rest[2]);
    }
}

/// Where the web app is not isolated, nothing of the profile path gets
/// into the filled template: whatever the profile path is, the text is the
/// same.
pub proof fn lemma_profile_path_stays_out(t: Seq<char>, values: Values, other: Seq<char>, at: int)
    requires
        !values.isolate,
    ensures
        filled_from(t, at, values) == filled_from(
            t,
            at,
            Values { profile_path: other, ..values },
        ),
    decreases t.len() - at,
{
    let others = Values { profile_path: other, ..values };
    if 0 <= at < t.len() {
        assert(placeholder_step(t, at, values) == placeholder_step(t, at, others));
        match placeholder_step(t, at, values) {
            Some((_, next)) => {
                if at < next <= t.len() {
                    lemma_profile_path_stays_out(t, values, other, next);
                }
            },
            None => {
                lemma_profile_path_stays_out(t, values, other, at + 1);
            },
        }
    }
}

/// A conditional whose condition is false goes with the line that it has
/// to itself: where it starts a line and a line feed follows it, the text
/// goes on with what stands behind that line feed.
pub proof fn lemma_false_conditional_takes_its_line(
    t: Seq<char>,
    at: int,
    key: Seq<char>,
    with_value: Option<Seq<char>>,
    literal: Seq<char>,
    taken: int,
)
    requires
        0 <= at < t.len(),
        conditional_at(t.subrange(at, t.len() as int), key) == Some((literal, taken)),
        line_starts(t, at),
        at + taken < t.len(),
        t[at + taken] == '\n',
    ensures
        conditionals_from(t, at, key, false, with_value) == conditionals_from(
            t,
            at + taken + 1,
            key,
            false,
            with_value,
        ),
{
    lemma_conditional_at(t.subrange(at, t.len() as int), key);
    let next = at + taken + 1;
    assert(conditional_step(t, at, key, false, with_value) == Some((Seq::<char>::empty(), next)));
    assert(Seq::<char>::empty() + conditionals_from(t, next, key, false, with_value)
        =~= conditionals_from(t, next, key, false, with_value));
}

/// A text without a conditional for `key` is left as it is from every
/// position on.
pub proof fn lemma_no_conditional_from(
    s: Seq<char>,
    at: int,
    key: Seq<char>,
    set_value: bool,
    with_value: Option<Seq<char>>,
)
    requires
        0 <= at <= s.len(),
        forall|i: int|
            0 <= i <= s.len() ==> (#[trigger] conditional_at(s.subrange(i, s.len() as int), key))
                is None,
    ensures
        conditionals_from(s, at, key, set_value, with_value) == s.subrange(at, s.len() as int),
    decreases s.len() - at,
{
    if at < s.len() {
        lemma_no_conditional_from(s, at + 1, key, set_value, with_value);
        assert(conditional_at(s.subrange(at, s.len() as int), key) is None);
        assert(seq![s[at]] + s.subrange(at + 1, s.len() as int) =~= s.subrange(
            at,
            s.len() as int,
        ));
    } else {
        assert(s.subrange(at, s.len() as int) =~= Seq::<char>::empty());
    }
}

/// A text without a conditional for `key` is left as it is: a conditional
/// for a key that the engine does not ask for stays in the text.
pub proof fn lemma_no_conditional_no_change(
    s: Seq<char>,
    key: Seq<char>,
    set_value: bool,
    with_value: Option<Seq<char>>,
)
    requires
        forall|i: int|
            0 <= i <= s.len() ==> (#[trigger] conditional_at(s.subrange(i, s.len() as int), key))
                is None,
    ensures
        conditionals_replaced(s, key, set_value, with_value) == s,
{
    lemma_no_conditional_from(s, 0, key, set_value, with_value);
    assert(s.subrange(0, s.len() as int) =~= s);
}

/// Every browser of the registry is found by its identifier: in the list
/// that the registry makes of any definitions, each identifier leads to
/// its own browser.
pub proof fn lemma_each_browser_is_found(probed: Seq<ProbedConfig>, at: int)
    requires
        0 <= at < installed_list(probed).push(no_browser()).len(),
    ensures
        browser_with_id(
            installed_list(probed).push(no_browser()),
            installed_list(probed).push(no_browser())[at].id,
        ) == Some(installed_list(probed).push(no_browser())[at]),
{
    let list = installed_list(probed).push(no_browser());
    lemma_registry_ids(probed);
    lemma_id_index(list, list[at].id);
    let found = id_index(list, list[at].id);
    if found < at {
        assert(ids(list)[found] != ids(list)[at]);
    }
}

/// Whether the line `key=placeholder` stands in the template `t` at `at`,
/// is read as a line of its own, and is the last line to set `key`.
///
/// The line is read as a line of its own where the reading of the template
/// comes by its start, that is, where no conditional before it reaches
/// into it. It is the last to set `key` where no line of what is filled in
/// behind it sets `key` again.
pub open spec fn keyed_line(
    t: Seq<char>,
    values: Values,
    at: int,
    key: Seq<char>,
    placeholder: Seq<char>,
) -> bool {
    let end = at + key.len() + 1 + placeholder.len();
    &&& 0 <= at
    &&& end <= t.len()
    &&& line_starts(t, at)
    &&& t.subrange(at, end) == key + seq!['='] + placeholder
    &&& line_ends(t, end)
    &&& arrives(t, values, 0, at)
    &&& !sets_key(filled_from(t, end + 1, values), key)
}

/// Whether the line of `t` that starts at `at` leaves the text `key=` at
/// its `j`-th character: up to there it reads like `key=`, and there it
/// ends or goes on with another character, which is no `%`.
pub open spec fn departs(t: Seq<char>, at: int, key: Seq<char>, j: int) -> bool {
    &&& 0 <= j <= key.len()
    &&& at + j <= t.len()
    &&& t.subrange(at, at + j) == key.subrange(0, j)
    &&& at + j == t.len() || (t[at + j] != '%' && t[at + j] != (key + seq!['='])[j])
}

/// Whether the line of the template `t` that starts at `at` cannot set
/// `key`, whatever is filled in: it leaves the text `key=` before any
/// placeholder.
pub open spec fn foreign_line(t: Seq<char>, at: int, key: Seq<char>) -> bool {
    exists|j: int| #[trigger] departs(t, at, key, j)
}

/// Whether the line `key=placeholder` stands in the template `t` at `at`
/// and no line behind it can set `key`.
pub open spec fn template_line(
    t: Seq<char>,
    at: int,
    key: Seq<char>,
    placeholder: Seq<char>,
) -> bool {
    let end = at + key.len() + 1 + placeholder.len();
    &&& 0 <= at
    &&& end <= t.len()
    &&& line_starts(t, at)
    &&& t.subrange(at, end) == key + seq!['='] + placeholder
    &&& line_ends(t, end)
    &&& forall|s: int| end < s < t.len() && line_starts(t, s) ==> #[trigger] foreign_line(t, s, key)
}

/// A line of the template that cannot set `key` is filled to a line that
/// does not set `key`.
pub proof fn lemma_foreign_line(t: Seq<char>, values: Values, at: int, end: int, key: Seq<char>)
    requires
        0 <= at <= end <= t.len(),
        line_starts(t, at),
        within_line(t, at, end),
        line_ends(t, end),
        conditionals_in_lines(t),
        single_line_values(values),
        plain_key(key),
        forall|i: int| 0 <= i < key.len() ==> #[trigger] key[i] != '%',
        foreign_line(t, at, key),
    ensures
        arrives(t, values, at, end),
        plain_value(filled_between(t, values, at, end)),
        line_key(filled_between(t, values, at, end)) != Some(key),
{
    let j = choose|j: int| #[trigger] departs(t, at, key, j);
    let line = filled_between(t, values, at, end);
    assert forall|i: int| at <= i < at + j implies #[trigger] t[i] != '%' && t[i] != '\n'
        && t[i] != '=' by {
        assert(t.subrange(at, at + j)[i - at] == t[i]);
        assert(key.subrange(0, j)[i - at] == key[i - at]);
    }
    assert(at + j <= end) by {
        if at + j > end {
            assert(t[end] != '\n');
        }
    }
    if at < end {
        if j == 0 {
            assert(t[at] != '%');
        }
    }
    lemma_line_read(t, values, at, end);
    if at + j == end {
        lemma_copied_between(t, values, at, at + j, end);
        assert(line =~= t.subrange(at, at + j));
        assert forall|i: int| 0 <= i < line.len() implies #[trigger] line[i] != '=' by {
            assert(line[i] == t[at + i]);
        }
        lemma_first_index_is(line, '=', line.len() as int);
    } else {
        assert(t[at + j] != '%');
        lemma_copied_between(t, values, at, at + j + 1, end);
        let more = filled_between(t, values, at + j + 1, end);
        assert(line == t.subrange(at, at + j + 1) + more);
        assert forall|i: int| 0 <= i <= j implies #[trigger] line[i] == t[at + i] by {
            assert(t.subrange(at, at + j + 1)[i] == t[at + i]);
        }
        if line_key(line) == Some(key) {
            let eq = first_index(line, '=');
            lemma_first_index(line, '=');
            assert(line.subrange(0, eq) == key);
            assert(eq == key.len());
            if j < key.len() {
                assert(line.subrange(0, eq)[j] == line[j]);
                assert((key + seq!['='])[j] == key[j]);
            } else {
                assert((key + seq!['='])[j] == '=');
            }
        }
    }
}

/// Where no line of the template from `at` on can set `key`, no line of
/// what is filled in from there on sets `key`.
pub proof fn lemma_foreign_lines(t: Seq<char>, values: Values, at: int, key: Seq<char>)
    requires
        0 <= at <= t.len() || at == t.len() + 1,
        at <= t.len() ==> line_starts(t, at),
        conditionals_in_lines(t),
        single_line_values(values),
        plain_key(key),
        forall|i: int| 0 <= i < key.len() ==> #[trigger] key[i] != '%',
        forall|s: int| at <= s < t.len() && line_starts(t, s) ==> #[trigger] foreign_line(t, s, key),
    ensures
        !sets_key(filled_from(t, at, values), key),
    decreases t.len() - at,
{
    if at < t.len() {
        let rest = t.subrange(at, t.len() as int);
        lemma_first_index(rest, '\n');
        let end = at + first_index(rest, '\n');
        assert forall|i: int| at <= i < end implies #[trigger] t[i] != '\n' by {
            assert(rest[i - at] == t[i]);
        }
        if end < t.len() {
            assert(rest[end - at] == t[end]);
        }
        assert(foreign_line(t, at, key));
        lemma_foreign_line(t, values, at, end, key);
        lemma_filled_split(t, values, at, end);
        let line = filled_between(t, values, at, end);
        if end < t.len() {
            if placeholder_step(t, end, values) is Some {
                lemma_placeholder_step(t, end, values);
            }
            let more = filled_from(t, end + 1, values);
            assert(filled_from(t, end, values) == seq!['\n'] + more);
            assert(filled_from(t, at, values) =~= line + seq!['\n'] + more);
            lemma_foreign_lines(t, values, end + 1, key);
            lemma_sets_key_line(line, more, key);
        } else {
            assert(filled_from(t, at, values) =~= line);
            lemma_sets_key_line(line, Seq::empty(), key);
        }
    }
}

/// A line `key=placeholder` of a template behind which no line can set
/// `key` is read as a line of its own and is the last to set `key`,
/// whatever is filled in, as long as neither a conditional of the template
/// nor a value runs over a line feed.
pub proof fn lemma_template_line(
    t: Seq<char>,
    values: Values,
    at: int,
    key: Seq<char>,
    placeholder: Seq<char>,
)
    requires
        template_line(t, at, key, placeholder),
        conditionals_in_lines(t),
        single_line_values(values),
        plain_key(key),
        forall|i: int| 0 <= i < key.len() ==> #[trigger] key[i] != '%',
    ensures
        keyed_line(t, values, at, key, placeholder),
{
    let end = at + key.len() + 1 + placeholder.len();
    lemma_arrives(t, values, 0, at);
    lemma_foreign_lines(t, values, end + 1, key);
}

/// A line `key=placeholder` of the template puts the value of the
/// placeholder under the key, as it is.
pub proof fn lemma_keyed_line_sets(
    t: Seq<char>,
    values: Values,
    at: int,
    key: Seq<char>,
    placeholder: Seq<char>,
    value: Seq<char>,
)
    requires
        keyed_line(t, values, at, key, placeholder),
        placeholder.len() > 0,
        placeholder_step(t, at + key.len() + 1, values) == Some(
            (value, at + key.len() + 1 + placeholder.len()),
        ),
        plain_key(key),
        forall|i: int| 0 <= i < key.len() ==> #[trigger] key[i] != '%',
        plain_value(value),
        parsed(filled(t, values)) is Ok,
    ensures
        lookup(parsed(filled(t, values))->Ok_0, key) == Some(value),
{
    let end = at + key.len() + 1 + placeholder.len();
    let start = Progress { in_group: false, pairs: Pairs::empty() };
    let line = key + seq!['='] + placeholder;
    assert(t.subrange(at, at + key.len()) =~= key) by {
        assert(t.subrange(at, end).subrange(0, key.len() as int) =~= t.subrange(
            at,
            at + key.len(),
        ));
        assert(line.subrange(0, key.len() as int) =~= key);
    }
    assert(t[at + key.len()] == '=') by {
        assert(t.subrange(at, end)[key.len() as int] == t[at + key.len()]);
        assert(line[key.len() as int] == '=');
    }
    lemma_filled_split(t, values, 0, at);
    lemma_between_lines(t, values, 0, at);
    lemma_keyed_line(t, values, at, key, value, end);
    let head = filled_between(t, values, 0, at);
    let rest = filled_from(t, end, values);
    let tail = filled_from(t, end + 1, values);
    let whole = filled(t, values);
    assert(whole == head + (key + seq!['='] + value + rest));
    lemma_read_progress(whole, start);
    lemma_read_split(head, key + seq!['='] + value + rest, start);
    let before = read_progress(head, start)->Ok_0;
    lemma_read_entry_line(key, value, rest, before);
    if end < t.len() {
        assert(rest.subrange(1, rest.len() as int) =~= tail);
    } else {
        assert(rest =~= tail);
    }
    let set = Progress { in_group: true, pairs: put(before.pairs, key, value) };
    lemma_read_keeps(tail, set, key);
    lemma_put(before.pairs, key, value);
}

/// Saving and reading again, from how the template is read. Where the
/// lines `Name=%{name}` and `Icon=%{icon}` of the template are read as
/// lines of their own and are the last to set their keys, the text of the
/// rendered descriptor, read again, resolves to a record with the name,
/// the identifier, the version, the browser, the address with its domain
/// and path, the two flags, the icon and the profile of the record that it
/// was rendered from, and with its category.
///
/// The fields of the record have to be free of line feeds, for one line
/// of the text holds one value.
pub proof fn lemma_keyed_lines_are_read_again(
    pairs: Pairs,
    all: Seq<BrowserView>,
    dirs: &AppDirs,
    config: &Config,
    name_at: int,
    icon_at: int,
)
    requires
        rendered_descriptor(pairs, all, dirs, config) is Ok,
        record_wf(resolved(pairs, all)->Ok_0),
        single_line(resolved(pairs, all)->Ok_0),
        ({
            let record = resolved(pairs, all)->Ok_0;
            let values = values_of(record, run_command(record.browser)->Ok_0, config);
            &&& keyed_line(record.browser.desktop_file, values, name_at, "Name"@, "%{name}"@)
            &&& keyed_line(record.browser.desktop_file, values, icon_at, "Icon"@, "%{icon}"@)
        }),
    ensures
        ({
            let record = resolved(pairs, all)->Ok_0;
            let saved = rendered_descriptor(pairs, all, dirs, config)->Ok_0.0;
            let again = resolved(parsed(rendered(saved))->Ok_0, all);
            &&& parsed(rendered(saved)) == Ok::<Pairs, DecodeError>(saved)
            &&& again is Ok
            &&& again->Ok_0.name == record.name
            &&& again->Ok_0.app_id == record.app_id
            &&& again->Ok_0.version == record.version
            &&& again->Ok_0.browser == record.browser
            &&& again->Ok_0.url == record.url
            &&& again->Ok_0.domain == record.domain
            &&& again->Ok_0.url_path == record.url_path
            &&& again->Ok_0.isolate == record.isolate
            &&& again->Ok_0.maximize == record.maximize
            &&& again->Ok_0.icon_path == record.icon_path
            &&& again->Ok_0.profile_path == record.profile_path
            &&& again->Ok_0.category == record.category
            &&& record.description is Some ==> again->Ok_0.description == record.description
        }),
{
    let record = resolved(pairs, all)->Ok_0;
    let saved = rendered_descriptor(pairs, all, dirs, config)->Ok_0.0;
    let command = run_command(record.browser)->Ok_0;
    let values = values_of(record, command, config);
    let t = record.browser.desktop_file;
    let read = parsed(filled(t, values))->Ok_0;
    assert(resolved(pairs, all) is Ok);
    assert(saved == with_fields(read, record));
    lemma_saved_descriptor_resolves(pairs, all, dirs, config);
    lemma_with_fields(read, record);
    lemma_key_names_plain(Key::Name);
    lemma_key_names_plain(Key::Icon);
    reveal_strlit("Name");
    reveal_strlit("Icon");
    reveal_strlit("%{command}");
    reveal_strlit("%{name}");
    reveal_strlit("%{url}");
    reveal_strlit("%{domain}");
    reveal_strlit("%{domain_path}");
    reveal_strlit("%{icon}");
    reveal_strlit("%{app_id}");
    assert(placeholder_step(t, name_at + 5, values) == Some((record.name, name_at + 12))) by {
        let rest = t.subrange(name_at + 5, t.len() as int);
        let line = t.subrange(name_at, name_at + 12);
        assert(rest.subrange(0, 7) =~= line.subrange(5, 12));
        assert(line.subrange(5, 12) =~= "%{name}"@);
        assert(rest[2] == line[7]);
        if starts_with(rest, "%{command}"@) {
            assert(rest.subrange(0, 10)[2] == rest[2]);
        }
    }
    assert(placeholder_step(t, icon_at + 5, values) == Some((record.icon_path, icon_at + 12))) by {
        let rest = t.subrange(icon_at + 5, t.len() as int);
        let line = t.subrange(icon_at, icon_at + 12);
        assert(rest.subrange(0, 7) =~= line.subrange(5, 12));
        assert(line.subrange(5, 12) =~= "%{icon}"@);
        assert(rest[2] == line[7]);
        if starts_with(rest, "%{command}"@) {
            assert(rest.subrange(0, 10)[2] == rest[2]);
        }
        if starts_with(rest, "%{name}"@) {
            assert(rest.subrange(0, 7)[2] == rest[2]);
        }
        if starts_with(rest, "%{url}"@) {
            assert(rest.subrange(0, 6)[2] == rest[2]);
        }
        if starts_with(rest, "%{domain}"@) {
            assert(rest.subrange(0, 9)[2] == rest[2]);
        }
        if starts_with(rest, "%{domain_path}"@) {
            assert(rest.subrange(0, 14)[2] == rest[2]);
        }
    }
    lemma_keyed_line_sets(t, values, name_at, "Name"@, "%{name}"@, record.name);
    lemma_keyed_line_sets(t, values, icon_at, "Icon"@, "%{icon}"@, record.icon_path);
    assert(text_at(saved, Key::Name) == Some(record.name));
    assert(text_at(saved, Key::Icon) == Some(record.icon_path));
}

/// Saving and reading again, from the shape of the template. Where the
/// template of the browser has the lines `Name=%{name}` and `Icon=%{icon}`,
/// each conditional of the template lies within one line, and no line
/// behind the two can set the name or the icon again, the text of the
/// rendered descriptor, read again, resolves to a record with the name,
/// the identifier, the version, the browser, the address with its domain
/// and path, the two flags, the icon and the profile of the record that it
/// was rendered from, and with its category.
///
/// Neither a field of the record nor a value that is filled in may hold a
/// line feed, for one line of the text holds one value.
pub proof fn lemma_saved_web_app_is_read_again(
    pairs: Pairs,
    all: Seq<BrowserView>,
    dirs: &AppDirs,
    config: &Config,
    name_at: int,
    icon_at: int,
)
    requires
        rendered_descriptor(pairs, all, dirs, config) is Ok,
        record_wf(resolved(pairs, all)->Ok_0),
        single_line(resolved(pairs, all)->Ok_0),
        ({
            let record = resolved(pairs, all)->Ok_0;
            let values = values_of(record, run_command(record.browser)->Ok_0, config);
            &&& single_line_values(values)
            &&& conditionals_in_lines(record.browser.desktop_file)
            &&& template_line(record.browser.desktop_file, name_at, "Name"@, "%{name}"@)
            &&& template_line(record.browser.desktop_file, icon_at, "Icon"@, "%{icon}"@)
        }),
    ensures
        ({
            let record = resolved(pairs, all)->Ok_0;
            let saved = rendered_descriptor(pairs, all, dirs, config)->Ok_0.0;
            let again = resolved(parsed(rendered(saved))->Ok_0, all);
            &&& parsed(rendered(saved)) == Ok::<Pairs, DecodeError>(saved)
            &&& again is Ok
            &&& again->Ok_0.name == record.name
            &&& again->Ok_0.app_id == record.app_id
            &&& again->Ok_0.version == record.version
            &&& again->Ok_0.browser == record.browser
            &&& again->Ok_0.url == record.url
            &&& again->Ok_0.domain == record.domain
            &&& again->Ok_0.url_path == record.url_path
            &&& again->Ok_0.isolate == record.isolate
            &&& again->Ok_0.maximize == record.maximize
            &&& again->Ok_0.icon_path == record.icon_path
            &&& again->Ok_0.profile_path == record.profile_path
            &&& again->Ok_0.category == record.category
            &&& record.description is Some ==> again->Ok_0.description == record.description
        }),
{
    let record = resolved(pairs, all)->Ok_0;
    let values = values_of(record, run_command(record.browser)->Ok_0, config);
    let t = record.browser.desktop_file;
    lemma_key_names_plain(Key::Name);
    lemma_key_names_plain(Key::Icon);
    reveal_strlit("Name");
    reveal_strlit("Icon");
    lemma_template_line(t, values, name_at, "Name"@, "%{name}"@);
    lemma_template_line(t, values, icon_at, "Icon"@, "%{icon}"@);
    lemma_keyed_lines_are_read_again(pairs, all, dirs, config, name_at, icon_at);
}

/// No version is older than itself.
pub proof fn lemma_not_older_than_itself(v: SemVer)
    ensures
        precedes(v, v) == Some(false),
{
}

/// Where the numbers of two versions differ, they decide: the order is that
/// of the triples, and exactly one of the two versions is the older one.
pub proof fn lemma_numbers_decide(a: SemVer, b: SemVer)
    requires
        a.major != b.major || a.minor != b.minor || a.patch != b.patch,
    ensures
        precedes(a, b) is Some,
        precedes(b, a) is Some,
        precedes(a, b) != precedes(b, a),
{
}

/// A descriptor that is stamped with the version of the application is not
/// outdated, and an update leaves it as it is.
pub proof fn lemma_current_descriptor_stays(pairs: Pairs, config: &Config)
    requires
        version_at(pairs) is Some,
        version_at(pairs) == semver_parsed(config.version@),
    ensures
        !is_outdated(pairs, config),
        with_stored_version(pairs) == pairs,
{
    lemma_not_older_than_itself(version_at(pairs)->0);
}

/// No profile is built for an isolated web app whose browser cannot
/// isolate: the plan fails with `Browser cannot isolate`.
pub proof fn lemma_browser_cannot_isolate(
    pairs: Pairs,
    all: Seq<BrowserView>,
    dirs: &AppDirs,
    config: &Config,
)
    requires
        flag_at(pairs, Key::Isolate) == Some(true),
        browser_at(pairs, all) is Some,
        !browser_at(pairs, all)->0.can_isolate,
    ensures
        profile_plan(pairs, all, dirs, config) == Err::<(Seq<char>, Seq<Seq<char>>), Failure>(
            other("Browser cannot isolate"@),
        ),
{
}

/// `c` with `/` turned into `_`.
pub open spec fn underscored(c: char) -> char {
    if c == '/' {
        '_'
    } else {
        c
    }
}

/// Replacing `/` by `_` changes each character on its own.
pub proof fn lemma_slashes_replaced(s: Seq<char>)
    ensures
        replaced(s, seq!['/'], seq!['_']) == s.map_values(|c: char| underscored(c)),
    decreases s.len(),
{
    let to = s.map_values(|c: char| underscored(c));
    if s.len() == 0 {
        assert(replaced(s, seq!['/'], seq!['_']) =~= to);
    } else {
        let tail = s.subrange(1, s.len() as int);
        lemma_slashes_replaced(tail);
        let slash = seq!['/'];
        if starts_with(s, slash) {
            assert(s.subrange(0, 1)[0] == '/');
            assert(s[0] == '/');
        } else {
            if s[0] == '/' {
                assert(s.subrange(0, 1) =~= slash);
            }
        }
        assert(replaced(s, seq!['/'], seq!['_']) =~= to);
    }
}

/// For a browser of the Chromium family the domain and the path become one
/// word: the domain, a `/` and the path, with every `/` turned into `_` and
/// every other character kept.
pub proof fn lemma_chromium_domain_path(domain: Seq<char>, url_path: Seq<char>)
    ensures
        domain_path(Base::Chromium, domain, url_path) == (domain + seq!['/'] + url_path).map_values(
            |c: char| underscored(c),
        ),
        domain_path(Base::Chromium, domain, url_path).len() == domain.len() + 1 + url_path.len(),
        !domain_path(Base::Chromium, domain, url_path).contains('/'),
{
    lemma_slashes_replaced(domain + seq!['/'] + url_path);
}

/// Where the first `n` characters of `s` are white space and the next one,
/// if there is one, is not, `s` starts with `n` white space characters.
pub proof fn lemma_leading_spaces_is(s: Seq<char>, n: int)
    requires
        0 <= n <= s.len(),
        forall|i: int| 0 <= i < n ==> is_space(#[trigger] s[i]),
        n < s.len() ==> !is_space(s[n]),
    ensures
        leading_spaces(s) == n,
    decreases n,
{
    if n > 0 {
        let tail = s.subrange(1, s.len() as int);
        assert(is_space(s[0]));
        assert forall|i: int| 0 <= i < n - 1 implies is_space(#[trigger] tail[i]) by {
            assert(tail[i] == s[i + 1]);
        }
        if n < s.len() {
            assert(tail[n - 1] == s[n]);
        }
        lemma_leading_spaces_is(tail, n - 1);
    }
}

/// The conditional `%{is_isolated ? Profile}` stands for nothing where the
/// web app is not isolated, and for `Profile=` and the profile path where
/// it is.
pub proof fn lemma_isolation_conditional(isolate: bool, profile_path: Seq<char>)
    ensures
        conditionals_replaced(
            "%{is_isolated ? Profile}"@,
            "is_isolated"@,
            isolate,
            Some(profile_path),
        ) == if isolate {
            "Profile"@ + seq!['='] + profile_path
        } else {
            Seq::<char>::empty()
        },
{
    reveal_strlit("%{is_isolated ? Profile}");
    reveal_strlit("%{");
    reveal_strlit("is_isolated");
    reveal_strlit("Profile");
    let s = "%{is_isolated ? Profile}"@;
    let key = "is_isolated"@;
    let open = "%{"@ + key;
    assert(s.len() == 24);
    assert(open.len() == 13);
    assert(s.subrange(0, 13) =~= open);
    lemma_leading_spaces_is(s.subrange(13, 24), 1);
    lemma_leading_spaces_is(s.subrange(15, 24), 1);
    lemma_first_index_is(s.subrange(16, 24), '}', 7);
    assert(s.subrange(16, 23) =~= "Profile"@);
    assert(conditional_at(s, key) == Some(("Profile"@, 24int)));
    assert(s.subrange(0, 24) =~= s);
    let text = conditional_text("Profile"@, isolate, Some(profile_path));
    assert(conditional_step(s, 0, key, isolate, Some(profile_path)) == Some((text, 24int)));
    assert(conditionals_from(s, 24, key, isolate, Some(profile_path)) == Seq::<char>::empty());
    assert(conditionals_replaced(s, key, isolate, Some(profile_path)) == text
        + Seq::<char>::empty());
    assert(text + Seq::<char>::empty() =~= text);
}

} // verus!
