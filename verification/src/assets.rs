//! The files that the application carries with it: the default
//! configuration, the files for the desktop, and a few texts. The program
//! that uses the library hands them over as plain values; what is to be
//! written to disk is returned as a list of steps.

use vstd::prelude::*;
use vstd::string::*;
use vstd::utf8::{decode_utf8, valid_utf8};
use crate::app_dirs::AppDirs;
use crate::config::Config;
use crate::desktop_entry::{parsed, put, DecodeError, DesktopEntry, Pairs};
use crate::paths::{join, joined};
use crate::text::{join_text, str_eq};

verus! {

/// One entry of a carried directory, with its path below the directory's
/// root.
#[derive(Debug)]
pub enum AssetEntry {
    Dir { path: String },
    File { path: String, contents: Vec<u8> },
}

/// What the application carries with it.
#[derive(Debug)]
pub struct Assets {
    /// The default configuration: every directory before what it holds.
    pub config: Vec<AssetEntry>,
    /// The files for the desktop.
    pub desktop: Vec<AssetEntry>,
    /// The icon of the application.
    pub icon_in: Vec<u8>,
    /// The skeleton of the application's own descriptor.
    pub desktop_file_in: String,
    /// The skeleton of the application's description for software centers.
    pub meta_info_in: String,
    /// The description of the application.
    pub app_description: String,
}

/// A step of writing carried files to disk.
#[derive(Debug)]
pub enum Extraction {
    /// Create the directory, with its parents.
    Directory { path: String },
    /// Write the file.
    File { path: String, contents: Vec<u8> },
    /// Remove the directory with all that it holds.
    RemoveDirectory { path: String },
}

/// A step as a mathematical value.
pub enum Step {
    Directory { path: Seq<char> },
    File { path: Seq<char>, contents: Seq<u8> },
    RemoveDirectory { path: Seq<char> },
}

impl View for Extraction {
    type V = Step;

    open spec fn view(&self) -> Step {
        match self {
            Extraction::Directory { path } => Step::Directory { path: path@ },
            Extraction::File { path, contents } => Step::File { path: path@, contents: contents@ },
            Extraction::RemoveDirectory { path } => Step::RemoveDirectory { path: path@ },
        }
    }
}

/// The views of a list of steps.
pub open spec fn steps(list: Seq<Extraction>) -> Seq<Step> {
    Seq::new(list.len(), |i: int| list[i]@)
}

/// The step that puts one carried entry below `base`.
pub open spec fn step_of(base: Seq<char>, entry: AssetEntry) -> Step {
    match entry {
        AssetEntry::Dir { path } => Step::Directory { path: joined(base, path@) },
        AssetEntry::File { path, contents } => Step::File {
            path: joined(base, path@),
            contents: contents@,
        },
    }
}

/// The steps that put the carried entries below `base`, one step per entry
/// and in the order of the entries.
pub open spec fn extraction(base: Seq<char>, entries: Seq<AssetEntry>) -> Seq<Step> {
    Seq::new(entries.len(), |i: int| step_of(base, entries[i]))
}

/// The path of an entry.
pub open spec fn entry_path(entry: AssetEntry) -> Seq<char> {
    match entry {
        AssetEntry::Dir { path } => path@,
        AssetEntry::File { path, .. } => path@,
    }
}

/// The position of the first entry with the path `path`, or the number of
/// entries where there is none.
pub open spec fn entry_index(entries: Seq<AssetEntry>, path: Seq<char>) -> int
    decreases entries.len(),
{
    if entries.len() == 0 {
        0
    } else if entry_path(entries[0]) == path {
        0
    } else {
        1 + entry_index(entries.subrange(1, entries.len() as int), path)
    }
}

/// The text of the carried file `path`: empty where the first entry of
/// that path is no file, where there is no such entry, and where the file
/// is not UTF-8.
pub open spec fn file_text(entries: Seq<AssetEntry>, path: Seq<char>) -> Seq<char> {
    let at = entry_index(entries, path);
    if 0 <= at < entries.len() {
        match entries[at] {
            AssetEntry::File { contents, .. } => if valid_utf8(contents@) {
                decode_utf8(contents@)
            } else {
                Seq::empty()
            },
            AssetEntry::Dir { .. } => Seq::empty(),
        }
    } else {
        Seq::empty()
    }
}

/// Where the entry at `n` has the path and none before it has,
/// `entry_index` is `n`.
pub proof fn lemma_entry_index_is(entries: Seq<AssetEntry>, path: Seq<char>, n: int)
    requires
        0 <= n <= entries.len(),
        n < entries.len() ==> entry_path(entries[n]) == path,
        forall|i: int| 0 <= i < n ==> entry_path(#[trigger] entries[i]) != path,
    ensures
        entry_index(entries, path) == n,
    decreases n,
{
    if n > 0 {
        let tail = entries.subrange(1, entries.len() as int);
        assert(entry_path(entries[0]) != path);
        assert forall|i: int| 0 <= i < n - 1 implies entry_path(#[trigger] tail[i]) != path by {
            assert(tail[i] == entries[i + 1]);
        }
        if n < entries.len() {
            assert(tail[n - 1] == entries[n]);
        }
        lemma_entry_index_is(tail, path, n - 1);
    }
}

/// Calls `std::str::from_utf8`: the text that the bytes encode, or `None`
/// where they are not UTF-8.
#[verifier::external_body]
fn utf8_text(bytes: &Vec<u8>) -> (r: Option<String>)
    ensures
        match r {
            Some(text) => valid_utf8(bytes@) && text@ == decode_utf8(bytes@),
            None => !valid_utf8(bytes@),
        },
{
    match std::str::from_utf8(bytes) {
        Ok(text) => Some(text.to_string()),
        Err(_) => None,
    }
}

/// A copy of a list of bytes.
pub fn copy_bytes(bytes: &Vec<u8>) -> (r: Vec<u8>)
    ensures
        r@ == bytes@,
{
    let mut out: Vec<u8> = Vec::new();
    let mut i: usize = 0;
    while i < bytes.len()
        invariant
            i <= bytes@.len(),
            out@ == bytes@.subrange(0, i as int),
        decreases bytes@.len() - i,
    {
        out.push(bytes[i]);
        assert(out@ == bytes@.subrange(0, i + 1));
        i += 1;
    }
    assert(bytes@.subrange(0, bytes@.len() as int) =~= bytes@);
    out
}

/// The steps that write the default configuration into the application's
/// configuration directory.
pub fn init(app_dirs: &AppDirs, assets: &Assets) -> (r: Vec<Extraction>)
    ensures
        steps(r@) == extraction(app_dirs.app_config@, assets.config@),
{
    extract_config_dir(app_dirs, assets)
}

/// The steps that put the configuration back to its defaults: the
/// configuration directory is removed where it is one, then the default
/// configuration is written.
pub fn reset_config_files(app_dirs: &AppDirs, assets: &Assets, config_is_dir: bool) -> (r: Vec<
    Extraction,
>)
    ensures
        steps(r@) == (if config_is_dir {
            seq![Step::RemoveDirectory { path: app_dirs.app_config@ }]
        } else {
            Seq::empty()
        }) + extraction(app_dirs.app_config@, assets.config@),
{
    let mut out: Vec<Extraction> = Vec::new();
    if config_is_dir {
        out.push(Extraction::RemoveDirectory { path: app_dirs.app_config.clone() });
    }
    let ghost head = steps(out@);
    let mut rest = extract_config_dir(app_dirs, assets);
    let ghost tail = steps(rest@);
    out.append(&mut rest);
    assert(steps(out@) =~= head + tail);
    out
}

/// The application's own descriptor for the user's launchers: the carried
/// skeleton with the name, the icon and the window class of the
/// application set.
pub fn create_stand_alone_desktop_file(app_dirs: &AppDirs, assets: &Assets, config: &Config) -> (r:
    Result<DesktopEntry, DecodeError>)
    ensures
        match r {
            Ok(entry) => {
                &&& parsed(assets.desktop_file_in@) is Ok
                &&& entry@ == put(
                    put(
                        put(parsed(assets.desktop_file_in@)->Ok_0, "Name"@, config.app_name@),
                        "Icon"@,
                        config.app_id@,
                    ),
                    "StartupWMClass"@,
                    config.app_id@,
                )
                &&& entry.path_view() == joined(
                    joined(app_dirs.user_data@, "applications"@),
                    config.app_id@ + ".desktop"@,
                )
                &&& entry.wf()
            },
            Err(e) => parsed(assets.desktop_file_in@) == Err::<Pairs, DecodeError>(e),
        },
{
    let file_name = join_text(config.app_id.as_str(), ".desktop");
    let applications_dir = join(app_dirs.user_data.as_str(), "applications");
    let desktop_file_path = join(applications_dir.as_str(), file_name.as_str());
    let mut base_desktop_file = match DesktopEntry::from_str(
        desktop_file_path.as_str(),
        assets.desktop_file_in.as_str(),
    ) {
        Ok(entry) => entry,
        Err(e) => {
            return Err(e);
        },
    };
    base_desktop_file.add_desktop_entry(String::from_str("Name"), config.app_name.clone());
    base_desktop_file.add_desktop_entry(String::from_str("Icon"), config.app_id.clone());
    base_desktop_file.add_desktop_entry(String::from_str("StartupWMClass"), config.app_id.clone());
    Ok(base_desktop_file)
}

/// The icon of the application.
pub fn get_icon_data_in(assets: &Assets) -> (r: &Vec<u8>)
    ensures
        r@ == assets.icon_in@,
{
    &assets.icon_in
}

/// The skeleton of the application's description for software centers.
pub fn get_meta_info_in(assets: &Assets) -> (r: &str)
    ensures
        r@ == assets.meta_info_in@,
{
    assets.meta_info_in.as_str()
}

/// The application's description for software centers: the text of the
/// carried file `<app id>.metainfo.xml`, or the empty text where there is
/// no such file or it is not UTF-8.
pub fn get_meta_info(assets: &Assets, config: &Config) -> (r: String)
    ensures
        r@ == file_text(assets.desktop@, config.app_id@ + ".metainfo.xml"@),
{
    let name = join_text(config.app_id.as_str(), ".metainfo.xml");
    let mut i: usize = 0;
    while i < assets.desktop.len()
        invariant
            i <= assets.desktop@.len(),
            name@ == config.app_id@ + ".metainfo.xml"@,
            forall|j: int| 0 <= j < i ==> entry_path(#[trigger] assets.desktop@[j]) != name@,
        decreases assets.desktop@.len() - i,
    {
        match &assets.desktop[i] {
            AssetEntry::File { path, contents } => {
                if str_eq(path.as_str(), name.as_str()) {
                    proof {
                        lemma_entry_index_is(assets.desktop@, name@, i as int);
                    }
                    return match utf8_text(contents) {
                        Some(text) => text,
                        None => String::new(),
                    };
                }
            },
            AssetEntry::Dir { path } => {
                if str_eq(path.as_str(), name.as_str()) {
                    proof {
                        lemma_entry_index_is(assets.desktop@, name@, i as int);
                    }
                    return String::new();
                }
            },
        }
        i += 1;
    }
    proof {
        lemma_entry_index_is(assets.desktop@, name@, i as int);
    }
    String::new()
}

/// The description of the application.
pub fn get_app_description(assets: &Assets) -> (r: &str)
    ensures
        r@ == assets.app_description@,
{
    assets.app_description.as_str()
}

/// The skeleton of the application's own descriptor.
pub fn get_desktop_file_in(assets: &Assets) -> (r: &str)
    ensures
        r@ == assets.desktop_file_in@,
{
    assets.desktop_file_in.as_str()
}

/// The steps that write the default configuration into the application's
/// configuration directory: one per carried entry, in their order.
pub fn extract_config_dir(app_dirs: &AppDirs, assets: &Assets) -> (r: Vec<Extraction>)
    ensures
        steps(r@) == extraction(app_dirs.app_config@, assets.config@),
{
    let mut out: Vec<Extraction> = Vec::new();
    let mut i: usize = 0;
    while i < assets.config.len()
        invariant
            i <= assets.config@.len(),
            out@.len() == i,
            forall|j: int|
                0 <= j < i ==> (#[trigger] out@[j])@ == step_of(
                    app_dirs.app_config@,
                    assets.config@[j],
                ),
        decreases assets.config@.len() - i,
    {
        match &assets.config[i] {
            AssetEntry::Dir { path } => {
                out.push(
                    Extraction::Directory {
                        path: join(app_dirs.app_config.as_str(), path.as_str()),
                    },
                );
            },
            AssetEntry::File { path, contents } => {
                out.push(
                    Extraction::File {
                        path: join(app_dirs.app_config.as_str(), path.as_str()),
                        contents: copy_bytes(contents),
                    },
                );
            },
        }
        i += 1;
    }
    assert(steps(out@) =~= extraction(app_dirs.app_config@, assets.config@));
    out
}

} // verus!
