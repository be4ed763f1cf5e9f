//! The descriptor of a web app: typed access to its fields, the validation
//! that turns it into a resolved record, the rendering of a fresh descriptor
//! from the browser's template, and the decisions of its life cycle.
//!
//! Nothing here touches the file system. An operation that has to look at
//! the disk takes what was found there as an argument; one that has to
//! change the disk returns what is to be done, and a second function takes
//! the outcome.

use vstd::prelude::*;
use vstd::string::*;
use crate::app_dirs::AppDirs;
use crate::app_id::{is_app_id, random_id};
use crate::browsers::{
    browser_with_id, copy_texts, profile_root, run_command, Base, Browser, BrowserConfigs,
    BrowserView,
};
use crate::category::{category_name, Category};
use crate::config::Config;
use crate::desktop_entry::{
    decode_message, distinct_keys, lemma_key_index_is, lookup, parsed, put, rendered,
    DecodeError, DesktopEntry, Pairs,
};
use crate::error::{DesktopFileError, Failure, ValidationError};
use crate::key::{key_name, lemma_key_names_differ, Key};
use crate::paths::{join, joined};
use crate::template::{
    build_domain_path, domain_path, fill, filled, has_unknown_placeholder,
    has_unmatched_placeholder, Values,
};
use crate::text::{join_text, option_text, str_eq, texts};
use crate::version::{precedes, semver_parsed, version_text, SemVer, Version};
use crate::web_url::{domain_or_host, url_parsed, ParsedUrl, UrlParts};

verus! {

/// The text stored under `key`, unless it is unset or empty.
pub open spec fn text_at(pairs: Pairs, key: Key) -> Option<Seq<char>> {
    match lookup(pairs, key_name(key)) {
        Some(value) => if value.len() > 0 {
            Some(value)
        } else {
            None
        },
        None => None,
    }
}

/// The flag stored under `key`, unless it is unset or neither `true` nor
/// `false`.
pub open spec fn flag_at(pairs: Pairs, key: Key) -> Option<bool> {
    match lookup(pairs, key_name(key)) {
        Some(value) => if value == "true"@ {
            Some(true)
        } else if value == "false"@ {
            Some(false)
        } else {
            None
        },
        None => None,
    }
}

/// The version stored in the descriptor, unless it is unset or no version.
pub open spec fn version_at(pairs: Pairs) -> Option<SemVer> {
    match lookup(pairs, key_name(Key::Version)) {
        Some(value) => semver_parsed(value),
        None => None,
    }
}

/// The browser that the descriptor names, if the list has it.
pub open spec fn browser_at(pairs: Pairs, all: Seq<BrowserView>) -> Option<BrowserView> {
    match text_at(pairs, Key::BrowserId) {
        Some(id) => browser_with_id(all, id),
        None => None,
    }
}

/// The text of a flag.
pub open spec fn flag_text(flag: bool) -> Seq<char> {
    if flag {
        "true"@
    } else {
        "false"@
    }
}

/// A resolved record as a mathematical value.
pub struct Record {
    pub name: Seq<char>,
    pub app_id: Seq<char>,
    pub version: SemVer,
    pub browser: BrowserView,
    pub url: Seq<char>,
    pub url_path: Seq<char>,
    pub domain: Seq<char>,
    pub isolate: bool,
    pub maximize: bool,
    pub icon_path: Seq<char>,
    pub profile_path: Seq<char>,
    pub category: Seq<char>,
    pub description: Option<Seq<char>>,
}

/// The fully resolved fields of a descriptor. A record comes out of the
/// validation of a descriptor and in no other way.
#[derive(Debug)]
pub struct DesktopFileEntries {
    name: String,
    app_id: String,
    version: Version,
    browser: Browser,
    url: String,
    url_path: String,
    domain: String,
    isolate: bool,
    maximize: bool,
    icon_path: String,
    profile_path: String,
    category: String,
    description: Option<String>,
}

impl View for DesktopFileEntries {
    type V = Record;

    closed spec fn view(&self) -> Record {
        Record {
            name: self.name@,
            app_id: self.app_id@,
            version: self.version@,
            browser: self.browser@,
            url: self.url@,
            url_path: self.url_path@,
            domain: self.domain@,
            isolate: self.isolate,
            maximize: self.maximize,
            icon_path: self.icon_path@,
            profile_path: self.profile_path@,
            category: self.category@,
            description: option_text(self.description),
        }
    }
}

impl DesktopFileEntries {
    /// The name of the web app.
    pub fn name(&self) -> (r: &str)
        ensures
            r@ == self@.name,
    {
        self.name.as_str()
    }

    /// The identifier of the web app.
    pub fn app_id(&self) -> (r: &str)
        ensures
            r@ == self@.app_id,
    {
        self.app_id.as_str()
    }

    /// The version of the application that wrote the descriptor.
    pub fn version(&self) -> (r: &Version)
        ensures
            r@ == self@.version,
    {
        &self.version
    }

    /// The browser of the web app.
    pub fn browser(&self) -> (r: &Browser)
        ensures
            r@ == self@.browser,
    {
        &self.browser
    }

    /// The address in its normalized form.
    pub fn url(&self) -> (r: &str)
        ensures
            r@ == self@.url,
    {
        self.url.as_str()
    }

    /// The path of the address.
    pub fn url_path(&self) -> (r: &str)
        ensures
            r@ == self@.url_path,
    {
        self.url_path.as_str()
    }

    /// The domain of the address or, where it has none, its host.
    pub fn domain(&self) -> (r: &str)
        ensures
            r@ == self@.domain,
    {
        self.domain.as_str()
    }

    /// Whether the web app has a profile of its own.
    pub fn isolate(&self) -> (r: bool)
        ensures
            r == self@.isolate,
    {
        self.isolate
    }

    /// Whether the web app starts maximized.
    pub fn maximize(&self) -> (r: bool)
        ensures
            r == self@.maximize,
    {
        self.maximize
    }

    /// The path of the icon.
    pub fn icon_path(&self) -> (r: &str)
        ensures
            r@ == self@.icon_path,
    {
        self.icon_path.as_str()
    }

    /// The profile directory; empty where the web app is not isolated and
    /// none is set.
    pub fn profile_path(&self) -> (r: &str)
        ensures
            r@ == self@.profile_path,
    {
        self.profile_path.as_str()
    }

    /// The category, `Network` where none is set.
    pub fn category(&self) -> (r: &str)
        ensures
            r@ == self@.category,
    {
        self.category.as_str()
    }

    /// The description, where there is one.
    pub fn description(&self) -> (r: &Option<String>)
        ensures
            option_text(*r) == self@.description,
    {
        &self.description
    }
}

/// The error that `field` is missing.
pub open spec fn missing(field: Key) -> Failure {
    Failure::Validation { field, message: "Missing"@ }
}

/// The record that a descriptor resolves to, or the first field that
/// stands in the way. The fields are looked at in this order: name,
/// identifier, version, address, browser, isolation, maximizing, icon,
/// profile. A field that is unset, empty or not of its type is `Missing`;
/// an address that cannot be read is `Invalid`, and one without a domain or
/// host has an `Invalid domain`. The profile may be unset where the web app
/// is not isolated.
pub open spec fn resolved(pairs: Pairs, all: Seq<BrowserView>) -> Result<Record, Failure> {
    if text_at(pairs, Key::Name) is None {
        Err(missing(Key::Name))
    } else if text_at(pairs, Key::Id) is None {
        Err(missing(Key::Id))
    } else if version_at(pairs) is None {
        Err(missing(Key::Version))
    } else if text_at(pairs, Key::Url) is None {
        Err(missing(Key::Url))
    } else if url_parsed(text_at(pairs, Key::Url)->0) is None {
        Err(Failure::Validation { field: Key::Url, message: "Invalid"@ })
    } else if domain_or_host(url_parsed(text_at(pairs, Key::Url)->0)->0) is None {
        Err(Failure::Validation { field: Key::Url, message: "Invalid domain"@ })
    } else if browser_at(pairs, all) is None {
        Err(missing(Key::BrowserId))
    } else if flag_at(pairs, Key::Isolate) is None {
        Err(missing(Key::Isolate))
    } else if flag_at(pairs, Key::Maximize) is None {
        Err(missing(Key::Maximize))
    } else if text_at(pairs, Key::Icon) is None {
        Err(missing(Key::Icon))
    } else if text_at(pairs, Key::Profile) is None && flag_at(pairs, Key::Isolate)->0 {
        Err(missing(Key::Profile))
    } else {
        let address = url_parsed(text_at(pairs, Key::Url)->0)->0;
        Ok(
            Record {
                name: text_at(pairs, Key::Name)->0,
                app_id: text_at(pairs, Key::Id)->0,
                version: version_at(pairs)->0,
                browser: browser_at(pairs, all)->0,
                url: address.url,
                url_path: address.path,
                domain: domain_or_host(address)->0,
                isolate: flag_at(pairs, Key::Isolate)->0,
                maximize: flag_at(pairs, Key::Maximize)->0,
                icon_path: text_at(pairs, Key::Icon)->0,
                profile_path: match text_at(pairs, Key::Profile) {
                    Some(path) => path,
                    None => Seq::empty(),
                },
                category: match text_at(pairs, Key::Categories) {
                    Some(category) => category,
                    None => category_name(Category::Network),
                },
                description: text_at(pairs, Key::Comment),
            },
        )
    }
}

impl DesktopFileEntries {
    /// The version and the address of the record are read back from their
    /// own text as themselves, and the address is not empty. This holds of
    /// every record that the validation of a descriptor hands out.
    pub open spec fn wf(&self) -> bool {
        record_wf(self@)
    }
}

/// See `DesktopFileEntries::wf`.
pub open spec fn record_wf(record: Record) -> bool {
    &&& semver_parsed(version_text(record.version)) == Some(record.version)
    &&& record.url.len() > 0
    &&& url_parsed(record.url) is Some
    &&& url_parsed(record.url)->0.url == record.url
    &&& url_parsed(record.url)->0.path == record.url_path
    &&& domain_or_host(url_parsed(record.url)->0) == Some(record.domain)
}

/// An error that is not about a field.
pub open spec fn other(message: Seq<char>) -> Failure {
    Failure::Other { message }
}

/// The name of the file that a web app is saved in: the browser's prefix,
/// the application's short name and the identifier, joined by hyphens, with
/// the extension `.desktop`.
pub open spec fn file_name(record: Record, config: &Config) -> Seq<char> {
    record.browser.desktop_file_name_prefix + seq!['-'] + config.app_name_short@ + seq!['-']
        + record.app_id + ".desktop"@
}

/// The path that a web app is saved under, in the directory of the user's
/// launchers.
pub open spec fn save_path(record: Record, dirs: &AppDirs, config: &Config) -> Seq<char> {
    joined(dirs.user_applications@, file_name(record, config))
}

/// The values that the template of a record's browser is filled with.
pub open spec fn values_of(record: Record, command: Seq<char>, config: &Config) -> Values {
    Values {
        command,
        name: record.name,
        url: record.url,
        domain: record.domain,
        domain_path: domain_path(record.browser.base, record.domain, record.url_path),
        icon: record.icon_path,
        app_id: config.app_name_short@ + seq!['-'] + record.app_id,
        isolate: record.isolate,
        profile_path: record.profile_path,
        maximize: record.maximize,
    }
}

/// `pairs` with the fields of the record set, so that they are there
/// whatever the template held: the mark of ownership, the identifier, the
/// version, the address, the browser, the two flags, the profile, the
/// description where there is one, and the category.
pub open spec fn with_fields(pairs: Pairs, record: Record) -> Pairs {
    let a = put(pairs, key_name(Key::Owned), "true"@);
    let b = put(a, key_name(Key::Id), record.app_id);
    let c = put(b, key_name(Key::Version), version_text(record.version));
    let d = put(c, key_name(Key::Url), record.url);
    let e = put(d, key_name(Key::BrowserId), record.browser.id);
    let f = put(e, key_name(Key::Isolate), flag_text(record.isolate));
    let g = put(f, key_name(Key::Maximize), flag_text(record.maximize));
    let h = put(g, key_name(Key::Profile), record.profile_path);
    let i = match record.description {
        Some(description) => put(h, key_name(Key::Comment), description),
        None => h,
    };
    put(i, key_name(Key::Categories), record.category)
}

/// The fresh descriptor of a web app and its path: the template of the
/// browser, filled with the record's values, read as a descriptor, with
/// the record's fields set. It fails where the descriptor does not
/// resolve, where the browser cannot be started, and where the filled
/// template is no descriptor.
pub open spec fn rendered_descriptor(
    pairs: Pairs,
    all: Seq<BrowserView>,
    dirs: &AppDirs,
    config: &Config,
) -> Result<(Pairs, Seq<char>), Failure> {
    match resolved(pairs, all) {
        Err(e) => Err(e),
        Ok(record) => match run_command(record.browser) {
            Err(message) => Err(other(message)),
            Ok(command) => match parsed(
                filled(record.browser.desktop_file, values_of(record, command, config)),
            ) {
                Err(e) => Err(other(decode_message(e))),
                Ok(read) => Ok((with_fields(read, record), save_path(record, dirs, config))),
            },
        },
    }
}

/// The directories from which the settings of a profile are copied, the
/// most specific first: the one named like the browser's definition, then
/// the one of the browser's family.
pub open spec fn profile_sources(browser: BrowserView, dirs: &AppDirs) -> Seq<Seq<char>> {
    let profiles = joined(dirs.app_config@, "profiles"@);
    let own = joined(profiles, browser.config_name);
    match browser.base {
        Base::Chromium => seq![own, joined(profiles, "chromium"@)],
        Base::Firefox => seq![own, joined(profiles, "firefox"@)],
        Base::NoBase => seq![own],
    }
}

/// The profile directory of a web app and the sources of its settings, or
/// why it has none: no browser, no isolation, a browser that cannot
/// isolate, no identifier, or a browser without a place for profiles.
pub open spec fn profile_plan(
    pairs: Pairs,
    all: Seq<BrowserView>,
    dirs: &AppDirs,
    config: &Config,
) -> Result<(Seq<char>, Seq<Seq<char>>), Failure> {
    match browser_at(pairs, all) {
        None => Err(other("No browser on 'DesktopFile'"@)),
        Some(browser) => if flag_at(pairs, Key::Isolate) != Some(true) {
            Err(other("Isolate is not set"@))
        } else if !browser.can_isolate {
            Err(other("Browser cannot isolate"@))
        } else if text_at(pairs, Key::Id) is None {
            Err(other("No id on 'DesktopFile'"@))
        } else {
            match profile_root(browser, dirs, config) {
                Err(message) => Err(other(message)),
                Ok(root) => Ok(
                    (joined(root, text_at(pairs, Key::Id)->0), profile_sources(browser, dirs)),
                ),
            }
        },
    }
}

/// What is known of a path on disk.
#[derive(Clone, Copy, Debug)]
pub struct PathFacts {
    /// The path leads to a file, directly or through a link.
    pub is_file: bool,
    /// The path leads to a directory, directly or through a link.
    pub is_dir: bool,
    /// The path itself is a symbolic link.
    pub is_symlink: bool,
}

/// Settings that are to be copied into a profile directory. The directory
/// is created, with its parents, unless it is there. Then the contents of
/// the first of `sources` that is a directory are copied into it, over
/// files of the same name; where none of them is a directory nothing is
/// copied.
#[derive(Debug)]
pub struct ProfileConfigCopy {
    pub profile_path: String,
    pub sources: Vec<String>,
}

/// Something that is to be removed from the disk.
#[derive(Debug)]
pub enum Removal {
    File(String),
    Directory(String),
}

/// A removal as a mathematical value.
pub enum Removed {
    File(Seq<char>),
    Directory(Seq<char>),
}

impl View for Removal {
    type V = Removed;

    open spec fn view(&self) -> Removed {
        match self {
            Removal::File(path) => Removed::File(path@),
            Removal::Directory(path) => Removed::Directory(path@),
        }
    }
}

/// The views of a list of removals.
pub open spec fn removal_views(list: Seq<Removal>) -> Seq<Removed> {
    Seq::new(list.len(), |i: int| list[i]@)
}

/// What the removal of a web app takes away: the descriptor where it is a
/// file, the icon where one is recorded and is a file, and the profile
/// where one is recorded and is a directory, in this order.
pub open spec fn removals(
    pairs: Pairs,
    path: Seq<char>,
    descriptor: PathFacts,
    icon: PathFacts,
    profile: PathFacts,
) -> Seq<Removed> {
    (if descriptor.is_file {
        seq![Removed::File(path)]
    } else {
        Seq::empty()
    }) + (if text_at(pairs, Key::Icon) is Some && icon.is_file {
        seq![Removed::File(text_at(pairs, Key::Icon)->0)]
    } else {
        Seq::empty()
    }) + (if text_at(pairs, Key::Profile) is Some && profile.is_dir {
        seq![Removed::Directory(text_at(pairs, Key::Profile)->0)]
    } else {
        Seq::empty()
    })
}

/// What saving a web app does to the disk, and the descriptor that the
/// saved file holds.
#[derive(Debug)]
pub struct SavePlan {
    /// The earlier file that is to be removed first. A failure to remove it
    /// does not stop the saving.
    pub remove: Option<String>,
    /// Where the text is to be written.
    pub path: String,
    /// The text.
    pub text: String,
    /// The descriptor as it stands once the text is written.
    pub file: DesktopFile,
    /// Whether the template holds a placeholder that the engine does not
    /// know. The author of the template should be told.
    pub unknown_placeholder: bool,
}

/// What an update of a web app has to do first.
#[derive(Debug)]
pub enum UpdatePlan {
    /// The descriptor is as new as the application: nothing is to be done.
    Current,
    /// The descriptor is older. The settings are to be copied where a copy
    /// is given; after that the update is completed.
    Refresh { copy: Option<ProfileConfigCopy> },
}

/// What was found out about the paths of a web app.
#[derive(Debug)]
pub struct PathCheck {
    /// Why the descriptor does not resolve; nothing else was looked at.
    pub error: Option<DesktopFileError>,
    /// The profile that is missing and can be built again.
    pub rebuild: Option<ProfileConfigCopy>,
    /// Whether the icon is missing.
    pub icon_missing: bool,
}

/// The version that a descriptor counts as having: its own, or `0.0.0`
/// where it has none.
pub open spec fn stored_version(pairs: Pairs) -> SemVer {
    match version_at(pairs) {
        Some(version) => version,
        None => SemVer { major: 0, minor: 0, patch: 0, pre: Seq::empty(), build: Seq::empty() },
    }
}

/// Whether a descriptor is older than the application.
pub open spec fn is_outdated(pairs: Pairs, config: &Config) -> bool {
    semver_parsed(config.version@) is Some && precedes(
        stored_version(pairs),
        semver_parsed(config.version@)->0,
    ) == Some(true)
}

/// The descriptor with the version that it counts as having written in.
pub open spec fn with_stored_version(pairs: Pairs) -> Pairs {
    if version_at(pairs) is Some {
        pairs
    } else {
        put(pairs, key_name(Key::Version), version_text(stored_version(pairs)))
    }
}

/// The copy of settings that an update makes: one into the recorded
/// profile, where the web app is isolated and has one.
pub open spec fn update_copy(pairs: Pairs, all: Seq<BrowserView>, dirs: &AppDirs) -> Result<
    Option<(Seq<char>, Seq<Seq<char>>)>,
    Failure,
> {
    if flag_at(pairs, Key::Isolate) == Some(true) && text_at(pairs, Key::Profile) is Some {
        match browser_at(pairs, all) {
            None => Err(other("No browser on 'DesktopFile'"@)),
            Some(browser) => Ok(
                Some((text_at(pairs, Key::Profile)->0, profile_sources(browser, dirs))),
            ),
        }
    } else {
        Ok(None)
    }
}

impl ProfileConfigCopy {
    /// The copy as a pair of the profile directory and the sources.
    pub open spec fn spec_parts(&self) -> (Seq<char>, Seq<Seq<char>>) {
        (self.profile_path@, texts(self.sources@))
    }
}

/// The position of the source that the settings of `copy` are copied from:
/// the first of its sources that is a directory. `is_dir` says of each
/// source, in their order, whether it is one.
pub fn overlay_source(copy: &ProfileConfigCopy, is_dir: &Vec<bool>) -> (r: Option<usize>)
    ensures
        match r {
            Some(at) => at < copy.sources@.len() && at < is_dir@.len() && is_dir@[at as int]
                && forall|i: int| 0 <= i < at ==> !is_dir@[i],
            None => forall|i: int|
                0 <= i < copy.sources@.len() && i < is_dir@.len() ==> !is_dir@[i],
        },
{
    let mut i: usize = 0;
    while i < copy.sources.len() && i < is_dir.len()
        invariant
            i <= copy.sources@.len(),
            i <= is_dir@.len(),
            forall|j: int| 0 <= j < i ==> !is_dir@[j],
        decreases copy.sources@.len() - i,
    {
        if is_dir[i] {
            return Some(i);
        }
        i += 1;
    }
    None
}

/// The parts of an optional copy.
pub open spec fn copy_parts(copy: Option<ProfileConfigCopy>) -> Option<(Seq<char>, Seq<Seq<char>>)> {
    match copy {
        Some(c) => Some(c.spec_parts()),
        None => None,
    }
}

/// The descriptor of a web app.
#[derive(Debug)]
pub struct DesktopFile {
    desktop_entry: DesktopEntry,
}

impl View for DesktopFile {
    type V = Pairs;

    closed spec fn view(&self) -> Pairs {
        self.desktop_entry@
    }
}

impl DesktopFile {
    /// The path of the descriptor's file.
    pub closed spec fn path_view(&self) -> Seq<char> {
        self.desktop_entry.path_view()
    }

    /// No key occurs twice. Every descriptor that this module hands out is
    /// well formed, and every setter keeps it so.
    pub open spec fn wf(&self) -> bool {
        distinct_keys(self@)
    }

    /// What a setter does: the key holds the value, the rest and the path
    /// stay.
    pub open spec fn set_to(&self, before: &DesktopFile, key: Key, value: Seq<char>) -> bool {
        &&& self@ == put(before@, key_name(key), value)
        &&& self.path_view() == before.path_view()
        &&& before.wf() ==> self.wf()
    }

    /// Whether the text of a descriptor marks it as written by this
    /// application, or why the text is no descriptor.
    pub fn is_owned(desktop_file_path: &str, text: &str) -> (r: Result<bool, DecodeError>)
        ensures
            match r {
                Ok(owned) => parsed(text@) is Ok && owned == (flag_at(parsed(text@)->Ok_0, Key::Owned)
                    == Some(true)),
                Err(e) => parsed(text@) == Err::<Pairs, DecodeError>(e),
            },
    {
        match DesktopEntry::from_str(desktop_file_path, text) {
            Ok(desktop_entry) => {
                let file = DesktopFile { desktop_entry };
                Ok(file.get_is_owned_app())
            },
            Err(e) => Err(e),
        }
    }

    /// A blank descriptor with a fresh random identifier and the version of
    /// the application.
    pub fn new(config: &Config) -> (r: DesktopFile)
        ensures
            r@.len() == 2,
            is_app_id(r@[0].1),
            r@ == seq![(key_name(Key::Id), r@[0].1), (key_name(Key::Version), config.version@)],
            r.path_view() == Seq::<char>::empty(),
            r.wf(),
    {
        let id = random_id();
        Self::with_id(id.as_str(), config)
    }

    /// A blank descriptor with the given identifier and the version of the
    /// application.
    pub fn with_id(id: &str, config: &Config) -> (r: DesktopFile)
        ensures
            r@ == seq![(key_name(Key::Id), id@), (key_name(Key::Version), config.version@)],
            r.path_view() == Seq::<char>::empty(),
            r.wf(),
    {
        let mut desktop_entry = DesktopEntry::new("");
        proof {
            reveal_strlit("");
            lemma_key_names_differ(Key::Id, Key::Version);
            lemma_key_index_is(Pairs::empty(), key_name(Key::Id), 0);
            lemma_key_index_is(
                seq![(key_name(Key::Id), id@)],
                key_name(Key::Version),
                1,
            );
        }
        desktop_entry.add_desktop_entry(Key::Id.to_string(), String::from_str(id));
        desktop_entry.add_desktop_entry(Key::Version.to_string(), config.version.clone());
        assert(desktop_entry@ =~= seq![
            (key_name(Key::Id), id@),
            (key_name(Key::Version), config.version@),
        ]);
        assert(desktop_entry.path_view() =~= Seq::<char>::empty());
        DesktopFile { desktop_entry }
    }

    /// Reads a descriptor from its text.
    pub fn from_string(path: &str, text: &str) -> (r: Result<DesktopFile, DecodeError>)
        ensures
            match r {
                Ok(file) => parsed(text@) == Ok::<Pairs, DecodeError>(file@) && file.path_view()
                    == path@ && file.wf(),
                Err(e) => parsed(text@) == Err::<Pairs, DecodeError>(e),
            },
    {
        match DesktopEntry::from_str(path, text) {
            Ok(desktop_entry) => Ok(DesktopFile { desktop_entry }),
            Err(e) => Err(e),
        }
    }

    /// A copy of the descriptor.
    pub fn duplicate(&self) -> (r: DesktopFile)
        ensures
            r@ == self@,
            r.path_view() == self.path_view(),
    {
        DesktopFile { desktop_entry: self.desktop_entry.duplicate() }
    }

    /// The text of the descriptor.
    pub fn to_string(&self) -> (r: String)
        ensures
            r@ == rendered(self@),
    {
        self.desktop_entry.to_string()
    }

    /// The path of the descriptor's file.
    pub fn get_path(&self) -> (r: String)
        ensures
            r@ == self.path_view(),
    {
        String::from_str(self.desktop_entry.path())
    }

    /// Gives the descriptor another path.
    pub fn set_path(&mut self, path: &str)
        ensures
            final(self)@ == old(self)@,
            final(self).path_view() == path@,
            final(self).wf() == old(self).wf(),
    {
        self.desktop_entry.set_path(path);
    }

    /// The text stored under `key`, unless it is unset or empty.
    fn text_of(&self, key: Key) -> (r: Option<String>)
        ensures
            option_text(r) == text_at(self@, key),
    {
        match self.desktop_entry.desktop_entry(key.as_str()) {
            Some(value) => {
                if value.is_empty() {
                    None
                } else {
                    Some(String::from_str(value))
                }
            },
            None => None,
        }
    }

    /// The flag stored under `key`, unless it is unset or no flag.
    fn flag_of(&self, key: Key) -> (r: Option<bool>)
        ensures
            r == flag_at(self@, key),
    {
        match self.desktop_entry.desktop_entry(key.as_str()) {
            Some(value) => {
                if str_eq(value, "true") {
                    Some(true)
                } else if str_eq(value, "false") {
                    Some(false)
                } else {
                    None
                }
            },
            None => None,
        }
    }

    /// Stores `value` under `key`.
    fn set(&mut self, key: Key, value: String)
        ensures
            final(self).set_to(old(self), key, value@),
    {
        self.desktop_entry.add_desktop_entry(key.to_string(), value);
    }

    /// Stores a flag under `key`.
    fn set_flag(&mut self, key: Key, flag: bool)
        ensures
            final(self).set_to(old(self), key, flag_text(flag)),
    {
        if flag {
            self.set(key, String::from_str("true"));
        } else {
            self.set(key, String::from_str("false"));
        }
    }

    /// Whether the descriptor is marked as written by this application.
    pub fn get_is_owned_app(&self) -> (r: bool)
        ensures
            r == (flag_at(self@, Key::Owned) == Some(true)),
    {
        match self.flag_of(Key::Owned) {
            Some(owned) => owned,
            None => false,
        }
    }

    /// Marks the descriptor as written by this application.
    pub fn set_is_owned_app(&mut self)
        ensures
            final(self).set_to(old(self), Key::Owned, "true"@),
    {
        self.set_flag(Key::Owned, true);
    }

    /// The name of the web app.
    pub fn get_name(&self) -> (r: Option<String>)
        ensures
            option_text(r) == text_at(self@, Key::Name),
    {
        self.text_of(Key::Name)
    }

    /// Sets the name of the web app.
    pub fn set_name(&mut self, id: &str)
        ensures
            final(self).set_to(old(self), Key::Name, id@),
    {
        self.set(Key::Name, String::from_str(id));
    }

    /// The version of the application that wrote the descriptor.
    pub fn get_version(&self) -> (r: Option<Version>)
        ensures
            match r {
                Some(v) => version_at(self@) == Some(v@) && v.canonical(),
                None => version_at(self@).is_none(),
            },
    {
        match self.desktop_entry.desktop_entry(Key::Version.as_str()) {
            Some(value) => Version::parse(value),
            None => None,
        }
    }

    /// Stamps the descriptor with a version.
    pub fn set_version(&mut self, version: &Version)
        ensures
            final(self).set_to(old(self), Key::Version, version_text(version@)),
    {
        self.set(Key::Version, version.to_string());
    }

    /// The command line that the browser's template gave the descriptor.
    pub fn get_exec(&self) -> (r: Option<String>)
        ensures
            option_text(r) == text_at(self@, Key::Exec),
    {
        self.text_of(Key::Exec)
    }

    /// The identifier of the web app.
    pub fn get_id(&self) -> (r: Option<String>)
        ensures
            option_text(r) == text_at(self@, Key::Id),
    {
        self.text_of(Key::Id)
    }

    /// Sets the identifier of the web app.
    pub fn set_id(&mut self, id: &str)
        ensures
            final(self).set_to(old(self), Key::Id, id@),
    {
        self.set(Key::Id, String::from_str(id));
    }

    /// The address of the web app.
    pub fn get_url(&self) -> (r: Option<String>)
        ensures
            option_text(r) == text_at(self@, Key::Url),
    {
        self.text_of(Key::Url)
    }

    /// Sets the address of the web app.
    pub fn set_url(&mut self, url: &str)
        ensures
            final(self).set_to(old(self), Key::Url, url@),
    {
        self.set(Key::Url, String::from_str(url));
    }

    /// The browser that the descriptor names, if the registry has it.
    pub fn get_browser<'a>(&self, browser_configs: &'a BrowserConfigs) -> (r: Option<&'a Browser>)
        ensures
            match r {
                Some(browser) => browser_at(self@, browser_configs.all()) == Some(browser@),
                None => browser_at(self@, browser_configs.all()).is_none(),
            },
    {
        match self.text_of(Key::BrowserId) {
            Some(id) => browser_configs.get_by_id(id.as_str()),
            None => None,
        }
    }

    /// Names the browser of the web app.
    pub fn set_browser(&mut self, browser: &Browser)
        ensures
            final(self).set_to(old(self), Key::BrowserId, browser@.id),
    {
        self.set(Key::BrowserId, browser.id.clone());
    }

    /// Whether the browser that the descriptor names can give a web app a
    /// profile of its own. Where it cannot, or where there is no browser, a
    /// front end has to switch isolation off.
    pub fn browser_can_isolate(&self, browser_configs: &BrowserConfigs) -> (r: bool)
        ensures
            r == match browser_at(self@, browser_configs.all()) {
                Some(browser) => browser.can_isolate,
                None => false,
            },
    {
        match self.get_browser(browser_configs) {
            Some(browser) => browser.can_isolate,
            None => false,
        }
    }

    /// Whether the browser that the descriptor names can start maximized.
    pub fn browser_can_maximize(&self, browser_configs: &BrowserConfigs) -> (r: bool)
        ensures
            r == match browser_at(self@, browser_configs.all()) {
                Some(browser) => browser.can_start_maximized,
                None => false,
            },
    {
        match self.get_browser(browser_configs) {
            Some(browser) => browser.can_start_maximized,
            None => false,
        }
    }

    /// Whether the web app has a profile of its own.
    pub fn get_isolated(&self) -> (r: Option<bool>)
        ensures
            r == flag_at(self@, Key::Isolate),
    {
        self.flag_of(Key::Isolate)
    }

    /// Sets whether the web app has a profile of its own.
    pub fn set_isolated(&mut self, is_isolated: bool)
        ensures
            final(self).set_to(old(self), Key::Isolate, flag_text(is_isolated)),
    {
        self.set_flag(Key::Isolate, is_isolated);
    }

    /// Whether the web app starts maximized.
    pub fn get_maximized(&self) -> (r: Option<bool>)
        ensures
            r == flag_at(self@, Key::Maximize),
    {
        self.flag_of(Key::Maximize)
    }

    /// Sets whether the web app starts maximized.
    pub fn set_maximized(&mut self, is_maximized: bool)
        ensures
            final(self).set_to(old(self), Key::Maximize, flag_text(is_maximized)),
    {
        self.set_flag(Key::Maximize, is_maximized);
    }

    /// The path of the icon.
    pub fn get_icon_path(&self) -> (r: Option<String>)
        ensures
            option_text(r) == text_at(self@, Key::Icon),
    {
        self.text_of(Key::Icon)
    }

    /// Sets the path of the icon.
    pub fn set_icon_path(&mut self, path: &str)
        ensures
            final(self).set_to(old(self), Key::Icon, path@),
    {
        self.set(Key::Icon, String::from_str(path));
    }

    /// The profile directory.
    pub fn get_profile_path(&self) -> (r: Option<String>)
        ensures
            option_text(r) == text_at(self@, Key::Profile),
    {
        self.text_of(Key::Profile)
    }

    /// Sets the profile directory.
    pub fn set_profile_path(&mut self, path: &str)
        ensures
            final(self).set_to(old(self), Key::Profile, path@),
    {
        self.set(Key::Profile, String::from_str(path));
    }

    /// The category.
    pub fn get_category(&self) -> (r: Option<String>)
        ensures
            option_text(r) == text_at(self@, Key::Categories),
    {
        self.text_of(Key::Categories)
    }

    /// Sets the category.
    pub fn set_category(&mut self, category: &Category)
        ensures
            final(self).set_to(old(self), Key::Categories, category_name(*category)),
    {
        self.set(Key::Categories, category.to_string());
    }

    /// Sets the category to a text of the caller's.
    pub fn set_category_str(&mut self, category: &str)
        ensures
            final(self).set_to(old(self), Key::Categories, category@),
    {
        self.set(Key::Categories, String::from_str(category));
    }

    /// The description.
    pub fn get_description(&self) -> (r: Option<String>)
        ensures
            option_text(r) == text_at(self@, Key::Comment),
    {
        self.text_of(Key::Comment)
    }

    /// Sets the description.
    pub fn set_description(&mut self, description: &str)
        ensures
            final(self).set_to(old(self), Key::Comment, description@),
    {
        self.set(Key::Comment, String::from_str(description));
    }

    /// Validates the descriptor and resolves it to a record, or names the
    /// first field that stands in the way.
    pub fn get_entries(&self, browser_configs: &BrowserConfigs) -> (r: Result<
        DesktopFileEntries,
        DesktopFileError,
    >)
        ensures
            match r {
                Ok(entries) => resolved(self@, browser_configs.all()) == Ok::<Record, Failure>(
                    entries@,
                ) && entries.wf(),
                Err(e) => resolved(self@, browser_configs.all()) == Err::<Record, Failure>(e@),
            },
    {
        let name = match self.get_name() {
            Some(name) => name,
            None => {
                return Err(DesktopFileError::ValidationError(ValidationError::missing(Key::Name)));
            },
        };
        let app_id = match self.get_id() {
            Some(app_id) => app_id,
            None => {
                return Err(DesktopFileError::ValidationError(ValidationError::missing(Key::Id)));
            },
        };
        let version = match self.get_version() {
            Some(version) => version,
            None => {
                return Err(
                    DesktopFileError::ValidationError(ValidationError::missing(Key::Version)),
                );
            },
        };
        let url_text = match self.get_url() {
            Some(url) => url,
            None => {
                return Err(DesktopFileError::ValidationError(ValidationError::missing(Key::Url)));
            },
        };
        let address = match ParsedUrl::parse(url_text.as_str()) {
            Some(address) => address,
            None => {
                return Err(
                    DesktopFileError::ValidationError(ValidationError::new(Key::Url, "Invalid")),
                );
            },
        };
        let domain = match address.domain_or_host() {
            Some(domain) => domain,
            None => {
                return Err(
                    DesktopFileError::ValidationError(
                        ValidationError::new(Key::Url, "Invalid domain"),
                    ),
                );
            },
        };
        let browser = match self.get_browser(browser_configs) {
            Some(browser) => browser.duplicate(),
            None => {
                return Err(
                    DesktopFileError::ValidationError(ValidationError::missing(Key::BrowserId)),
                );
            },
        };
        let isolate = match self.get_isolated() {
            Some(isolate) => isolate,
            None => {
                return Err(
                    DesktopFileError::ValidationError(ValidationError::missing(Key::Isolate)),
                );
            },
        };
        let maximize = match self.get_maximized() {
            Some(maximize) => maximize,
            None => {
                return Err(
                    DesktopFileError::ValidationError(ValidationError::missing(Key::Maximize)),
                );
            },
        };
        let icon_path = match self.get_icon_path() {
            Some(icon) => icon,
            None => {
                return Err(DesktopFileError::ValidationError(ValidationError::missing(Key::Icon)));
            },
        };
        let profile_path = match self.get_profile_path() {
            Some(path) => path,
            None => {
                if isolate {
                    return Err(
                        DesktopFileError::ValidationError(ValidationError::missing(Key::Profile)),
                    );
                }
                String::new()
            },
        };
        let category = match self.get_category() {
            Some(category) => category,
            None => Category::Network.to_string(),
        };
        let description = self.get_description();
        Ok(
            DesktopFileEntries {
                name,
                app_id,
                version,
                browser,
                url: address.url,
                url_path: address.path,
                domain,
                isolate,
                maximize,
                icon_path,
                profile_path,
                category,
                description,
            },
        )
    }
    /// The path that the web app is saved under.
    pub fn get_save_path(
        entries: &DesktopFileEntries,
        app_dirs: &AppDirs,
        config: &Config,
    ) -> (r: String)
        ensures
            r@ == save_path(entries@, app_dirs, config),
    {
        let a = join_text(entries.browser.desktop_file_name_prefix.as_str(), "-");
        let b = join_text(a.as_str(), config.app_name_short.as_str());
        let c = join_text(b.as_str(), "-");
        let d = join_text(c.as_str(), entries.app_id.as_str());
        let e = join_text(d.as_str(), ".desktop");
        proof {
            reveal_strlit("-");
            assert("-"@ =~= seq!['-']);
            assert(e@ =~= file_name(entries@, config));
        }
        join(app_dirs.user_applications.as_str(), e.as_str())
    }

    /// The fresh descriptor of the web app, rendered from the template of
    /// its browser.
    pub fn to_new_from_browser(
        &self,
        browser_configs: &BrowserConfigs,
        app_dirs: &AppDirs,
        config: &Config,
    ) -> (r: Result<DesktopFile, DesktopFileError>)
        ensures
            match r {
                Ok(file) => rendered_descriptor(self@, browser_configs.all(), app_dirs, config)
                    == Ok::<(Pairs, Seq<char>), Failure>((file@, file.path_view())) && file.wf(),
                Err(e) => rendered_descriptor(self@, browser_configs.all(), app_dirs, config)
                    == Err::<(Pairs, Seq<char>), Failure>(e@),
            },
    {
        let entries = match self.get_entries(browser_configs) {
            Ok(entries) => entries,
            Err(e) => {
                return Err(e);
            },
        };
        let save_path = Self::get_save_path(&entries, app_dirs, config);
        let short = join_text(config.app_name_short.as_str(), "-");
        let app_id = join_text(short.as_str(), entries.app_id.as_str());
        proof {
            reveal_strlit("-");
            assert("-"@ =~= seq!['-']);
            assert(app_id@ =~= config.app_name_short@ + seq!['-'] + entries@.app_id);
        }
        let domain_path = build_domain_path(
            entries.browser.base,
            entries.domain.as_str(),
            entries.url_path.as_str(),
        );
        let command = match entries.browser.get_run_command() {
            Ok(command) => command,
            Err(message) => {
                return Err(DesktopFileError::Other(message));
            },
        };
        let text = fill(
            entries.browser.desktop_file.as_str(),
            command.as_str(),
            entries.name.as_str(),
            entries.url.as_str(),
            entries.domain.as_str(),
            domain_path.as_str(),
            entries.icon_path.as_str(),
            app_id.as_str(),
            entries.isolate,
            entries.profile_path.as_str(),
            entries.maximize,
        );
        let mut file = match DesktopFile::from_string(save_path.as_str(), text.as_str()) {
            Ok(file) => file,
            Err(e) => {
                return Err(DesktopFileError::Other(e.to_string()));
            },
        };
        file.set_is_owned_app();
        file.set_id(entries.app_id.as_str());
        file.set_version(&entries.version);
        file.set_url(entries.url.as_str());
        file.set_browser(&entries.browser);
        file.set_isolated(entries.isolate);
        file.set_maximized(entries.maximize);
        file.set_profile_path(entries.profile_path.as_str());
        match &entries.description {
            Some(description) => {
                file.set_description(description.as_str());
            },
            None => {},
        }
        file.set_category_str(entries.category.as_str());
        Ok(file)
    }

    /// Whether the descriptor can be saved as it is.
    pub fn validate(
        &self,
        browser_configs: &BrowserConfigs,
        app_dirs: &AppDirs,
        config: &Config,
    ) -> (r: Result<(), DesktopFileError>)
        ensures
            match r {
                Ok(_) => rendered_descriptor(self@, browser_configs.all(), app_dirs, config) is Ok,
                Err(e) => rendered_descriptor(self@, browser_configs.all(), app_dirs, config)
                    == Err::<(Pairs, Seq<char>), Failure>(e@),
            },
    {
        match self.to_new_from_browser(browser_configs, app_dirs, config) {
            Ok(_) => Ok(()),
            Err(e) => Err(e),
        }
    }

    /// The settings that are to be copied into `profile_path`, or the error
    /// that the descriptor names no browser of the registry.
    pub fn copy_profile_config_to_profile_path(
        &self,
        profile_path: &str,
        browser_configs: &BrowserConfigs,
        app_dirs: &AppDirs,
    ) -> (r: Result<ProfileConfigCopy, DesktopFileError>)
        ensures
            match r {
                Ok(copy) => browser_at(self@, browser_configs.all()) is Some && copy.spec_parts()
                    == (
                    profile_path@,
                    profile_sources(browser_at(self@, browser_configs.all())->0, app_dirs),
                ),
                Err(e) => browser_at(self@, browser_configs.all()) is None && e@ == other(
                    "No browser on 'DesktopFile'"@,
                ),
            },
    {
        let browser = match self.get_browser(browser_configs) {
            Some(browser) => browser,
            None => {
                return Err(DesktopFileError::other("No browser on 'DesktopFile'"));
            },
        };
        let profiles = join(app_dirs.app_config.as_str(), "profiles");
        let mut sources: Vec<String> = Vec::new();
        sources.push(join(profiles.as_str(), browser.config_name.as_str()));
        match browser.base {
            Base::Chromium => {
                sources.push(join(profiles.as_str(), "chromium"));
            },
            Base::Firefox => {
                sources.push(join(profiles.as_str(), "firefox"));
            },
            Base::NoBase => {},
        }
        assert(texts(sources@) =~= profile_sources(browser@, app_dirs));
        Ok(ProfileConfigCopy { profile_path: String::from_str(profile_path), sources })
    }

    /// The profile directory that is to be built for the web app, with the
    /// settings that are to be copied into it, or why there is none.
    pub fn build_profile_path(
        &self,
        browser_configs: &BrowserConfigs,
        app_dirs: &AppDirs,
        config: &Config,
    ) -> (r: Result<ProfileConfigCopy, DesktopFileError>)
        ensures
            match r {
                Ok(copy) => profile_plan(self@, browser_configs.all(), app_dirs, config) == Ok::<
                    (Seq<char>, Seq<Seq<char>>),
                    Failure,
                >(copy.spec_parts()),
                Err(e) => profile_plan(self@, browser_configs.all(), app_dirs, config) == Err::<
                    (Seq<char>, Seq<Seq<char>>),
                    Failure,
                >(e@),
            },
    {
        let browser = match self.get_browser(browser_configs) {
            Some(browser) => browser,
            None => {
                return Err(DesktopFileError::other("No browser on 'DesktopFile'"));
            },
        };
        let is_isolated = match self.get_isolated() {
            Some(isolated) => isolated,
            None => false,
        };
        if !is_isolated {
            return Err(DesktopFileError::other("Isolate is not set"));
        }
        if !browser.can_isolate {
            return Err(DesktopFileError::other("Browser cannot isolate"));
        }
        let id = match self.get_id() {
            Some(id) => id,
            None => {
                return Err(DesktopFileError::other("No id on 'DesktopFile'"));
            },
        };
        let root = match browser.get_profile_path(app_dirs, config) {
            Ok(root) => root,
            Err(message) => {
                return Err(DesktopFileError::Other(message));
            },
        };
        let profile_path = join(root.as_str(), id.as_str());
        self.copy_profile_config_to_profile_path(profile_path.as_str(), browser_configs, app_dirs)
    }

    /// Plans the saving of the web app. `on_disk` says what stands at the
    /// descriptor's present path. Nothing is written where the descriptor
    /// does not render; the descriptor itself stays as it is until `saved`
    /// is told that the text was written.
    pub fn save(
        &self,
        on_disk: &PathFacts,
        browser_configs: &BrowserConfigs,
        app_dirs: &AppDirs,
        config: &Config,
    ) -> (r: Result<SavePlan, DesktopFileError>)
        ensures
            match r {
                Ok(plan) => {
                    &&& rendered_descriptor(self@, browser_configs.all(), app_dirs, config) == Ok::<
                        (Pairs, Seq<char>),
                        Failure,
                    >((plan.file@, plan.path@))
                    &&& plan.file.path_view() == plan.path@
                    &&& plan.file.wf()
                    &&& plan.text@ == rendered(plan.file@)
                    &&& option_text(plan.remove) == if on_disk.is_file && !on_disk.is_symlink {
                        Some(self.path_view())
                    } else {
                        None
                    }
                    &&& plan.unknown_placeholder == has_unknown_placeholder(
                        resolved(self@, browser_configs.all())->Ok_0.browser.desktop_file,
                    )
                },
                Err(e) => rendered_descriptor(self@, browser_configs.all(), app_dirs, config)
                    == Err::<(Pairs, Seq<char>), Failure>(e@),
            },
    {
        let file = match self.to_new_from_browser(browser_configs, app_dirs, config) {
            Ok(file) => file,
            Err(e) => {
                return Err(e);
            },
        };
        let unknown_placeholder = match self.get_browser(browser_configs) {
            Some(browser) => has_unmatched_placeholder(browser.desktop_file.as_str()),
            None => false,
        };
        let remove = if on_disk.is_file && !on_disk.is_symlink {
            Some(self.get_path())
        } else {
            None
        };
        let path = file.get_path();
        let text = file.to_string();
        Ok(SavePlan { remove, path, text, file, unknown_placeholder })
    }

    /// Takes note of how the writing of a plan went. Where the text was
    /// written the descriptor becomes the one of the plan; where it was not,
    /// the descriptor stays and the failure is reported.
    pub fn saved(&mut self, plan: SavePlan, written: bool) -> (r: Result<(), DesktopFileError>)
        ensures
            written ==> r is Ok && *final(self) == plan.file,
            !written ==> *final(self) == *old(self) && r is Err && r->Err_0@ == other(
                "Saving desktop file"@,
            ),
    {
        if written {
            *self = plan.file;
            Ok(())
        } else {
            Err(DesktopFileError::other("Saving desktop file"))
        }
    }

    /// What the removal of the web app takes away from the disk. Each
    /// removal is to be tried whatever became of the others.
    pub fn delete(&self, descriptor: &PathFacts, icon: &PathFacts, profile: &PathFacts) -> (r: Vec<
        Removal,
    >)
        ensures
            removal_views(r@) == removals(
                self@,
                self.path_view(),
                *descriptor,
                *icon,
                *profile,
            ),
    {
        let mut out: Vec<Removal> = Vec::new();
        if descriptor.is_file {
            out.push(Removal::File(self.get_path()));
        }
        match self.get_icon_path() {
            Some(icon_path) => {
                if icon.is_file {
                    out.push(Removal::File(icon_path));
                }
            },
            None => {},
        }
        match self.get_profile_path() {
            Some(profile_path) => {
                if profile.is_dir {
                    out.push(Removal::Directory(profile_path));
                }
            },
            None => {},
        }
        assert(removal_views(out@) =~= removals(
            self@,
            self.path_view(),
            *descriptor,
            *icon,
            *profile,
        ));
        out
    }

    /// How the removal of a web app ended, from how each removal went: well
    /// where every one succeeded, and with one error for all where any
    /// failed.
    pub fn delete_outcome(removed: &Vec<bool>) -> (r: Result<(), DesktopFileError>)
        ensures
            (forall|i: int| 0 <= i < removed@.len() ==> removed@[i]) ==> r is Ok,
            (exists|i: int| 0 <= i < removed@.len() && !removed@[i]) ==> r is Err && r->Err_0@
                == other("Some files could not be removed, check logs"@),
    {
        let mut i: usize = 0;
        while i < removed.len()
            invariant
                i <= removed@.len(),
                forall|j: int| 0 <= j < i ==> removed@[j],
            decreases removed@.len() - i,
        {
            if !removed[i] {
                return Err(DesktopFileError::other("Some files could not be removed, check logs"));
            }
            i += 1;
        }
        Ok(())
    }

    /// Decides whether the web app has to be brought up to the version of
    /// the application, and what has to be copied first. A descriptor
    /// without a version is stamped `0.0.0`. Where the descriptor is as new
    /// as the application nothing else changes and nothing is to be done.
    pub fn update(
        &mut self,
        browser_configs: &BrowserConfigs,
        app_dirs: &AppDirs,
        config: &Config,
    ) -> (r: Result<UpdatePlan, DesktopFileError>)
        ensures
            final(self).path_view() == old(self).path_view(),
            old(self).wf() ==> final(self).wf(),
            semver_parsed(config.version@) is None ==> final(self)@ == old(self)@ && r is Err
                && r->Err_0@ == other("Failed to get app version"@),
            semver_parsed(config.version@) is Some ==> final(self)@ == with_stored_version(
                old(self)@,
            ),
            semver_parsed(config.version@) is Some && !is_outdated(old(self)@, config) ==> r
                == Ok::<UpdatePlan, DesktopFileError>(UpdatePlan::Current),
            version_at(old(self)@) is Some && version_at(old(self)@) == semver_parsed(
                config.version@,
            ) ==> final(self)@ == old(self)@ && r == Ok::<UpdatePlan, DesktopFileError>(
                UpdatePlan::Current,
            ),
            is_outdated(old(self)@, config) ==> match r {
                Ok(UpdatePlan::Refresh { copy }) => update_copy(
                    final(self)@,
                    browser_configs.all(),
                    app_dirs,
                ) == Ok::<Option<(Seq<char>, Seq<Seq<char>>)>, Failure>(copy_parts(copy)),
                Ok(UpdatePlan::Current) => false,
                Err(e) => update_copy(final(self)@, browser_configs.all(), app_dirs) == Err::<
                    Option<(Seq<char>, Seq<Seq<char>>)>,
                    Failure,
                >(e@),
            },
    {
        let app_version = match Version::parse(config.version.as_str()) {
            Some(version) => version,
            None => {
                return Err(DesktopFileError::other("Failed to get app version"));
            },
        };
        let desktop_file_version = match self.get_version() {
            Some(version) => version,
            None => {
                let version = Version::new(0, 0, 0);
                self.set_version(&version);
                version
            },
        };
        match desktop_file_version.is_older_than(&app_version) {
            Some(true) => {},
            _ => {
                return Ok(UpdatePlan::Current);
            },
        }
        let isolated = match self.get_isolated() {
            Some(isolated) => isolated,
            None => false,
        };
        if isolated {
            match self.get_profile_path() {
                Some(profile_path) => {
                    match self.copy_profile_config_to_profile_path(
                        profile_path.as_str(),
                        browser_configs,
                        app_dirs,
                    ) {
                        Ok(copy) => Ok(UpdatePlan::Refresh { copy: Some(copy) }),
                        Err(e) => Err(e),
                    }
                },
                None => Ok(UpdatePlan::Refresh { copy: None }),
            }
        } else {
            Ok(UpdatePlan::Refresh { copy: None })
        }
    }

    /// Completes an update once the settings are copied: stamps the
    /// descriptor with the version of the application and plans its saving.
    pub fn complete_update(
        &mut self,
        on_disk: &PathFacts,
        browser_configs: &BrowserConfigs,
        app_dirs: &AppDirs,
        config: &Config,
    ) -> (r: Result<SavePlan, DesktopFileError>)
        ensures
            final(self).path_view() == old(self).path_view(),
            old(self).wf() ==> final(self).wf(),
            semver_parsed(config.version@) is None ==> final(self)@ == old(self)@ && r is Err
                && r->Err_0@ == other("Failed to get app version"@),
            semver_parsed(config.version@) is Some ==> {
                &&& final(self)@ == put(
                    old(self)@,
                    key_name(Key::Version),
                    version_text(semver_parsed(config.version@)->0),
                )
                &&& match r {
                    Ok(plan) => {
                        &&& rendered_descriptor(
                            final(self)@,
                            browser_configs.all(),
                            app_dirs,
                            config,
                        ) == Ok::<(Pairs, Seq<char>), Failure>((plan.file@, plan.path@))
                        &&& plan.file.path_view() == plan.path@
                        &&& plan.file.wf()
                        &&& plan.text@ == rendered(plan.file@)
                        &&& option_text(plan.remove) == if on_disk.is_file && !on_disk.is_symlink {
                            Some(old(self).path_view())
                        } else {
                            None
                        }
                        &&& plan.unknown_placeholder == has_unknown_placeholder(
                            resolved(
                                final(self)@,
                                browser_configs.all(),
                            )->Ok_0.browser.desktop_file,
                        )
                    },
                    Err(e) => rendered_descriptor(
                        final(self)@,
                        browser_configs.all(),
                        app_dirs,
                        config,
                    ) == Err::<(Pairs, Seq<char>), Failure>(e@),
                }
            },
    {
        let app_version = match Version::parse(config.version.as_str()) {
            Some(version) => version,
            None => {
                return Err(DesktopFileError::other("Failed to get app version"));
            },
        };
        self.set_version(&app_version);
        self.save(on_disk, browser_configs, app_dirs, config)
    }

    /// Looks for what is wrong with the paths of the web app. `profile` and
    /// `icon` say what stands at the recorded profile and icon paths. A
    /// descriptor that does not resolve is reported and nothing else is
    /// looked at. A missing profile of an isolated web app is to be built
    /// again where it can be; a missing icon is only reported.
    pub fn check_paths(
        &self,
        profile: &PathFacts,
        icon: &PathFacts,
        browser_configs: &BrowserConfigs,
        app_dirs: &AppDirs,
        config: &Config,
    ) -> (r: PathCheck)
        ensures
            match resolved(self@, browser_configs.all()) {
                Err(e) => r.error is Some && r.error->0@ == e && r.rebuild is None
                    && !r.icon_missing,
                Ok(record) => {
                    &&& r.error is None
                    &&& r.icon_missing == !icon.is_file
                    &&& copy_parts(r.rebuild) == if record.isolate && !profile.is_dir {
                        match profile_plan(self@, browser_configs.all(), app_dirs, config) {
                            Ok(parts) => Some(parts),
                            Err(_) => None,
                        }
                    } else {
                        None
                    }
                },
            },
    {
        let entries = match self.get_entries(browser_configs) {
            Ok(entries) => entries,
            Err(e) => {
                return PathCheck { error: Some(e), rebuild: None, icon_missing: false };
            },
        };
        let rebuild = if entries.isolate && !profile.is_dir {
            match self.build_profile_path(browser_configs, app_dirs, config) {
                Ok(copy) => Some(copy),
                Err(_) => None,
            }
        } else {
            None
        };
        PathCheck { error: None, rebuild, icon_missing: !icon.is_file }
    }
}

} // verus!
