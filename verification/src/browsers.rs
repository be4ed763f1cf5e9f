//! Browsers: their definitions, how they are installed, and the registry
//! that is built from the definitions and from what the installation probes
//! reported.

use vstd::prelude::*;
use vstd::string::*;
use crate::app_dirs::AppDirs;
use crate::config::Config;
use crate::desktop_entry::{parsed, DesktopEntry};
use crate::paths::{extension, extension_of, file_stem, join, joined, stem_of};
use crate::text::{join_text, option_text, push_new, str_eq, texts, trim, trimmed, with_new};

verus! {

/// How a browser is installed.
#[derive(Debug)]
pub enum Installation {
    /// As a sandboxed package, with its identifier.
    Flatpak(String),
    /// On the system, with the name of its executable.
    System(String),
    /// Not at all.
    NotInstalled,
}

/// How a browser is installed, as a mathematical value.
pub enum Installed {
    Flatpak(Seq<char>),
    System(Seq<char>),
    NotInstalled,
}

impl View for Installation {
    type V = Installed;

    open spec fn view(&self) -> Installed {
        match self {
            Installation::Flatpak(id) => Installed::Flatpak(id@),
            Installation::System(executable) => Installed::System(executable@),
            Installation::NotInstalled => Installed::NotInstalled,
        }
    }
}

/// The engine family of a browser.
#[derive(Clone, Copy, Debug, PartialEq, Eq, Structural)]
pub enum Base {
    Chromium,
    Firefox,
    /// Neither of the two.
    NoBase,
}

/// The family that a definition names.
pub open spec fn base_named(name: Seq<char>) -> Base {
    if name == "chromium"@ {
        Base::Chromium
    } else if name == "firefox"@ {
        Base::Firefox
    } else {
        Base::NoBase
    }
}

impl Base {
    /// The family that a definition names: `chromium`, `firefox`, or none.
    pub fn from_string(string: &str) -> (r: Base)
        ensures
            r == base_named(string@),
    {
        if str_eq(string, "chromium") {
            Base::Chromium
        } else if str_eq(string, "firefox") {
            Base::Firefox
        } else {
            Base::NoBase
        }
    }
}

/// The definition of a browser, as its file states it.
#[derive(Debug)]
pub struct BrowserYaml {
    pub name: String,
    pub flatpak: Option<String>,
    pub system_bin: Option<String>,
    pub can_isolate: bool,
    pub can_start_maximized: bool,
    pub desktop_file_name_prefix: String,
    pub base: String,
    pub issues: Vec<String>,
}

/// A definition together with its template.
#[derive(Debug)]
pub struct BrowserConfig {
    pub config: BrowserYaml,
    /// The stem of the definition's file name.
    pub config_name: String,
    pub file_name: String,
    /// The text of the template.
    pub desktop_file: String,
}

/// A file of the definitions directory, as far as it could be read.
#[derive(Debug)]
pub struct ConfigFile {
    pub file_name: String,
    /// The definition, where the file could be read and understood.
    pub definition: Option<BrowserYaml>,
    /// The text of the template with the same stem, where it could be read.
    pub template: Option<String>,
}

/// What an external command reported.
#[derive(Debug)]
pub struct CommandOutput {
    pub success: bool,
    pub stdout: String,
    pub stderr: String,
}

/// A definition and what the probes found out about it.
#[derive(Debug)]
pub struct ProbedConfig {
    pub config: BrowserConfig,
    /// Whether the sandboxed package was found.
    pub flatpak_installed: bool,
    /// Whether the executable was found.
    pub system_installed: bool,
    /// Where the sandboxed package keeps its icons, where that was asked
    /// for and found.
    pub icon_search_path: Option<String>,
}

/// A browser as a mathematical value.
pub struct BrowserView {
    pub id: Seq<char>,
    pub name: Seq<char>,
    pub installation: Installed,
    pub can_isolate: bool,
    pub can_start_maximized: bool,
    pub flatpak_id: Option<Seq<char>>,
    pub executable: Option<Seq<char>>,
    pub desktop_file: Seq<char>,
    pub desktop_file_name_prefix: Seq<char>,
    pub base: Base,
    pub issues: Seq<Seq<char>>,
    pub config_name: Seq<char>,
    pub icon_names: Seq<Seq<char>>,
}

/// A browser in one way of being installed, or not installed.
#[derive(Debug)]
pub struct Browser {
    pub id: String,
    pub name: String,
    pub installation: Installation,
    pub can_isolate: bool,
    pub can_start_maximized: bool,
    pub flatpak_id: Option<String>,
    pub executable: Option<String>,
    /// The text of the template.
    pub desktop_file: String,
    pub desktop_file_name_prefix: String,
    pub base: Base,
    pub issues: Vec<String>,
    pub config_name: String,
    /// The names under which an icon of the browser may be found.
    pub icon_names: Vec<String>,
}

impl View for Browser {
    type V = BrowserView;

    open spec fn view(&self) -> BrowserView {
        BrowserView {
            id: self.id@,
            name: self.name@,
            installation: self.installation@,
            can_isolate: self.can_isolate,
            can_start_maximized: self.can_start_maximized,
            flatpak_id: option_text(self.flatpak_id),
            executable: option_text(self.executable),
            desktop_file: self.desktop_file@,
            desktop_file_name_prefix: self.desktop_file_name_prefix@,
            base: self.base,
            issues: texts(self.issues@),
            config_name: self.config_name@,
            icon_names: texts(self.icon_names@),
        }
    }
}

/// The identifier of a browser: the package, the executable, or the words
/// `Not installed`.
pub open spec fn installation_id(installation: Installed) -> Seq<char> {
    match installation {
        Installed::Flatpak(id) => id,
        Installed::System(executable) => executable,
        Installed::NotInstalled => "Not installed"@,
    }
}

/// The icon names of a definition: the package, the executable and the
/// name, each without surrounding white space and none twice.
pub open spec fn icon_names_of(config: BrowserYaml) -> Seq<Seq<char>> {
    let a = Seq::<Seq<char>>::empty();
    let b = match config.flatpak {
        Some(flatpak) => with_new(a, trimmed(flatpak@)),
        None => a,
    };
    let c = match config.system_bin {
        Some(bin) => with_new(b, trimmed(bin@)),
        None => b,
    };
    with_new(c, trimmed(config.name@))
}

/// The browser that a definition describes, installed as `installation` says.
pub open spec fn browser_of(config: BrowserConfig, installation: Installed) -> BrowserView {
    BrowserView {
        id: installation_id(installation),
        name: config.config.name@,
        installation,
        can_isolate: config.config.can_isolate,
        can_start_maximized: config.config.can_start_maximized,
        flatpak_id: option_text(config.config.flatpak),
        executable: option_text(config.config.system_bin),
        desktop_file: config.desktop_file@,
        desktop_file_name_prefix: config.config.desktop_file_name_prefix@,
        base: base_named(config.config.base@),
        issues: texts(config.config.issues@),
        config_name: config.config_name@,
        icon_names: icon_names_of(config.config),
    }
}

/// The entry that stands for "no browser".
pub open spec fn no_browser() -> BrowserView {
    BrowserView {
        id: Seq::empty(),
        name: "No browser"@,
        installation: Installed::NotInstalled,
        can_isolate: false,
        can_start_maximized: false,
        flatpak_id: None,
        executable: None,
        desktop_file: Seq::empty(),
        desktop_file_name_prefix: Seq::empty(),
        base: Base::NoBase,
        issues: Seq::empty(),
        config_name: Seq::empty(),
        icon_names: seq!["dialog-warning-symbolic"@],
    }
}

/// The name of a browser with the way it is installed.
pub open spec fn name_with_installation(browser: BrowserView) -> Seq<char> {
    match browser.installation {
        Installed::Flatpak(_) => browser.name + " (Flatpak)"@,
        Installed::System(_) => browser.name + " (System)"@,
        Installed::NotInstalled => browser.name,
    }
}

/// The command that starts a browser, or why there is none.
pub open spec fn run_command(browser: BrowserView) -> Result<Seq<char>, Seq<char>> {
    match browser.installation {
        Installed::Flatpak(id) => Ok("flatpak run "@ + id),
        Installed::System(executable) => Ok(executable),
        Installed::NotInstalled => Err("Browser is not installed"@),
    }
}

/// The directory under which a browser keeps the profiles of web apps, or
/// why it has none. A browser installed on the system keeps them in the
/// application's own data, a sandboxed one in its own.
pub open spec fn profile_root(browser: BrowserView, dirs: &AppDirs, config: &Config) -> Result<
    Seq<char>,
    Seq<char>,
> {
    if !browser.can_isolate {
        Err("Browser cannot isolate"@)
    } else if browser.base == Base::NoBase {
        Err("No base browser on 'Browser'"@)
    } else {
        match browser.installation {
            Installed::Flatpak(_) => Ok(
                joined(
                    joined(
                        joined(joined(dirs.user_flatpak@, browser.id), "data"@),
                        config.app_name_hyphen@,
                    ),
                    "profiles"@,
                ),
            ),
            Installed::System(_) => Ok(joined(dirs.app_data_profiles@, browser.id)),
            Installed::NotInstalled => Err("Browser is not installed"@),
        }
    }
}

/// A copy of a list of texts.
pub fn copy_texts(list: &Vec<String>) -> (r: Vec<String>)
    ensures
        texts(r@) == texts(list@),
{
    let mut out: Vec<String> = Vec::new();
    let mut i: usize = 0;
    while i < list.len()
        invariant
            i <= list@.len(),
            out@.len() == i,
            forall|j: int| 0 <= j < i ==> (#[trigger] out@[j])@ == list@[j]@,
        decreases list@.len() - i,
    {
        out.push(list[i].clone());
        i += 1;
    }
    assert(texts(out@) =~= texts(list@));
    out
}

/// A copy of an optional text.
pub fn copy_option(text: &Option<String>) -> (r: Option<String>)
    ensures
        option_text(r) == option_text(*text),
{
    match text {
        Some(s) => Some(s.clone()),
        None => None,
    }
}

/// Adds `browser` at the end of `list`, unless it has no identifier or the
/// identifier of a browser that is in the list already.
pub fn push_browser(list: &mut Vec<Browser>, browser: Browser)
    ensures
        browser_views(final(list)@) == with_browser(browser_views(old(list)@), browser@),
{
    if browser.id.as_str().is_empty() {
        return ;
    }
    let mut i: usize = 0;
    while i < list.len()
        invariant
            i <= list@.len(),
            list@ == old(list)@,
            forall|j: int| 0 <= j < i ==> (#[trigger] browser_views(list@)[j]).id != browser@.id,
        decreases list@.len() - i,
    {
        if str_eq(list[i].id.as_str(), browser.id.as_str()) {
            proof {
                lemma_id_index_is(browser_views(list@), browser@.id, i as int);
            }
            return ;
        }
        i += 1;
    }
    proof {
        lemma_id_index_is(browser_views(list@), browser@.id, i as int);
    }
    let ghost pushed = browser@;
    list.push(browser);
    assert(browser_views(list@) =~= browser_views(old(list)@).push(pushed));
}

impl Installation {
    /// A copy of the installation.
    pub fn duplicate(&self) -> (r: Installation)
        ensures
            r@ == self@,
    {
        match self {
            Installation::Flatpak(id) => Installation::Flatpak(id.clone()),
            Installation::System(executable) => Installation::System(executable.clone()),
            Installation::NotInstalled => Installation::NotInstalled,
        }
    }
}

impl Browser {
    /// The browser that `browser_config` describes, installed as
    /// `installation` says.
    pub fn new(browser_config: &BrowserConfig, installation: Installation) -> (r: Browser)
        ensures
            r@ == browser_of(*browser_config, installation@),
    {
        let icon_names = Self::get_icon_names_from_config(browser_config);
        let id = match &installation {
            Installation::Flatpak(id) => id.clone(),
            Installation::System(executable) => executable.clone(),
            Installation::NotInstalled => String::from_str("Not installed"),
        };
        Browser {
            id,
            name: browser_config.config.name.clone(),
            installation,
            can_isolate: browser_config.config.can_isolate,
            can_start_maximized: browser_config.config.can_start_maximized,
            flatpak_id: copy_option(&browser_config.config.flatpak),
            executable: copy_option(&browser_config.config.system_bin),
            desktop_file: browser_config.desktop_file.clone(),
            desktop_file_name_prefix: browser_config.config.desktop_file_name_prefix.clone(),
            base: Base::from_string(browser_config.config.base.as_str()),
            issues: copy_texts(&browser_config.config.issues),
            config_name: browser_config.config_name.clone(),
            icon_names,
        }
    }

    /// A copy of the browser.
    pub fn duplicate(&self) -> (r: Browser)
        ensures
            r@ == self@,
    {
        Browser {
            id: self.id.clone(),
            name: self.name.clone(),
            installation: self.installation.duplicate(),
            can_isolate: self.can_isolate,
            can_start_maximized: self.can_start_maximized,
            flatpak_id: copy_option(&self.flatpak_id),
            executable: copy_option(&self.executable),
            desktop_file: self.desktop_file.clone(),
            desktop_file_name_prefix: self.desktop_file_name_prefix.clone(),
            base: self.base,
            issues: copy_texts(&self.issues),
            config_name: self.config_name.clone(),
            icon_names: copy_texts(&self.icon_names),
        }
    }

    /// Whether the browser is installed as a sandboxed package.
    pub fn is_flatpak(&self) -> (r: bool)
        ensures
            r == (self@.installation is Flatpak),
    {
        match self.installation {
            Installation::Flatpak(_) => true,
            _ => false,
        }
    }

    /// Whether the browser is installed on the system.
    pub fn is_system(&self) -> (r: bool)
        ensures
            r == (self@.installation is System),
    {
        match self.installation {
            Installation::System(_) => true,
            _ => false,
        }
    }

    /// Whether the browser is installed at all.
    pub fn is_installed(&self) -> (r: bool)
        ensures
            r == !(self@.installation is NotInstalled),
    {
        match self.installation {
            Installation::NotInstalled => false,
            _ => true,
        }
    }

    /// The name of the browser with the way it is installed.
    pub fn get_name_with_installation(&self) -> (r: String)
        ensures
            r@ == name_with_installation(self@),
    {
        match self.installation {
            Installation::Flatpak(_) => join_text(self.name.as_str(), " (Flatpak)"),
            Installation::System(_) => join_text(self.name.as_str(), " (System)"),
            Installation::NotInstalled => self.name.clone(),
        }
    }

    /// The command that starts the browser, or why there is none.
    pub fn get_run_command(&self) -> (r: Result<String, String>)
        ensures
            match r {
                Ok(command) => run_command(self@) == Ok::<Seq<char>, Seq<char>>(command@),
                Err(message) => run_command(self@) == Err::<Seq<char>, Seq<char>>(message@),
            },
    {
        match &self.installation {
            Installation::Flatpak(id) => Ok(join_text("flatpak run ", id.as_str())),
            Installation::System(executable) => Ok(executable.clone()),
            Installation::NotInstalled => Err(String::from_str("Browser is not installed")),
        }
    }

    /// The directory under which the browser keeps the profiles of web
    /// apps, or why it has none.
    pub fn get_profile_path(&self, app_dirs: &AppDirs, config: &Config) -> (r: Result<
        String,
        String,
    >)
        ensures
            match r {
                Ok(path) => profile_root(self@, app_dirs, config) == Ok::<Seq<char>, Seq<char>>(
                    path@,
                ),
                Err(message) => profile_root(self@, app_dirs, config) == Err::<
                    Seq<char>,
                    Seq<char>,
                >(message@),
            },
    {
        if !self.can_isolate {
            return Err(String::from_str("Browser cannot isolate"));
        }
        match self.base {
            Base::NoBase => Err(String::from_str("No base browser on 'Browser'")),
            _ => match self.installation {
                Installation::Flatpak(_) => {
                    let own = join(app_dirs.user_flatpak.as_str(), self.id.as_str());
                    let data = join(own.as_str(), "data");
                    let app = join(data.as_str(), config.app_name_hyphen.as_str());
                    Ok(join(app.as_str(), "profiles"))
                },
                Installation::System(_) => Ok(
                    join(app_dirs.app_data_profiles.as_str(), self.id.as_str()),
                ),
                Installation::NotInstalled => Err(String::from_str("Browser is not installed")),
            },
        }
    }

    /// The position of the browser in the registry's list.
    pub fn get_index(&self, configs: &BrowserConfigs) -> (r: Option<usize>)
        ensures
            r == configs.get_index_spec(self@.id),
    {
        configs.get_index(self)
    }

    /// The icon names of a definition.
    pub fn get_icon_names_from_config(browser_config: &BrowserConfig) -> (r: Vec<String>)
        ensures
            texts(r@) == icon_names_of(browser_config.config),
    {
        let mut icon_names: Vec<String> = Vec::new();
        assert(texts(icon_names@) =~= Seq::<Seq<char>>::empty());
        match &browser_config.config.flatpak {
            Some(flatpak) => {
                push_new(&mut icon_names, trim(flatpak.as_str()));
            },
            None => {},
        }
        match &browser_config.config.system_bin {
            Some(bin) => {
                push_new(&mut icon_names, trim(bin.as_str()));
            },
            None => {},
        }
        push_new(&mut icon_names, trim(browser_config.config.name.as_str()));
        icon_names
    }
}

/// The views of a list of browsers.
pub open spec fn browser_views(list: Seq<Browser>) -> Seq<BrowserView> {
    Seq::new(list.len(), |i: int| list[i]@)
}

/// The position of the first browser with the identifier `id`, or the
/// length of the list where there is none.
pub open spec fn id_index(list: Seq<BrowserView>, id: Seq<char>) -> int
    decreases list.len(),
{
    if list.len() == 0 {
        0
    } else if list[0].id == id {
        0
    } else {
        1 + id_index(list.subrange(1, list.len() as int), id)
    }
}

/// `id_index` is within bounds, points at a browser with the identifier
/// where it is inside, and no browser before it has that identifier.
pub proof fn lemma_id_index(list: Seq<BrowserView>, id: Seq<char>)
    ensures
        0 <= id_index(list, id) <= list.len(),
        id_index(list, id) < list.len() ==> list[id_index(list, id)].id == id,
        forall|i: int| 0 <= i < id_index(list, id) ==> (#[trigger] list[i]).id != id,
    decreases list.len(),
{
    if list.len() > 0 && list[0].id != id {
        let tail = list.subrange(1, list.len() as int);
        lemma_id_index(tail, id);
        assert forall|i: int| 0 <= i < id_index(list, id) implies (#[trigger] list[i]).id
            != id by {
            if i > 0 {
                assert(list[i] == tail[i - 1]);
            }
        }
    }
}

/// Where the browser at `n` has the identifier and none before it has,
/// `id_index` is `n`.
pub proof fn lemma_id_index_is(list: Seq<BrowserView>, id: Seq<char>, n: int)
    requires
        0 <= n <= list.len(),
        n < list.len() ==> list[n].id == id,
        forall|i: int| 0 <= i < n ==> (#[trigger] list[i]).id != id,
    ensures
        id_index(list, id) == n,
{
    lemma_id_index(list, id);
    let f = id_index(list, id);
    if f < n {
        assert(list[f].id == id);
    }
}

/// The first browser of the list with the identifier `id`, if there is one.
pub open spec fn browser_with_id(list: Seq<BrowserView>, id: Seq<char>) -> Option<BrowserView> {
    if 0 <= id_index(list, id) < list.len() {
        Some(list[id_index(list, id)])
    } else {
        None
    }
}

/// The browsers that one definition is installed as: the sandboxed package
/// first, then the executable.
pub open spec fn installed_of(probed: ProbedConfig) -> Seq<BrowserView> {
    let flatpak = match probed.config.config.flatpak {
        Some(id) => if probed.flatpak_installed {
            seq![browser_of(probed.config, Installed::Flatpak(id@))]
        } else {
            Seq::empty()
        },
        None => Seq::empty(),
    };
    let system = match probed.config.config.system_bin {
        Some(bin) => if probed.system_installed {
            seq![browser_of(probed.config, Installed::System(bin@))]
        } else {
            Seq::empty()
        },
        None => Seq::empty(),
    };
    flatpak + system
}

/// The entry of a definition that is not installed in any way.
pub open spec fn uninstalled_of(probed: ProbedConfig) -> Seq<BrowserView> {
    if installed_of(probed).len() == 0 {
        seq![browser_of(probed.config, Installed::NotInstalled)]
    } else {
        Seq::empty()
    }
}

/// The icon directory that a definition adds: that of its sandboxed
/// package, where the package is installed and the directory is known.
pub open spec fn icon_path_of(probed: ProbedConfig) -> Seq<Seq<char>> {
    match (probed.config.config.flatpak, probed.icon_search_path) {
        (Some(_), Some(path)) => if probed.flatpak_installed {
            seq![path@]
        } else {
            Seq::empty()
        },
        _ => Seq::empty(),
    }
}

/// The identifiers of a list of browsers, in order.
pub open spec fn ids(list: Seq<BrowserView>) -> Seq<Seq<char>> {
    Seq::new(list.len(), |i: int| list[i].id)
}

/// `list` with `browser` added at the end. A browser without an identifier
/// is passed over, and so is one whose identifier a browser of the list
/// has already: the browser that came first stays.
pub open spec fn with_browser(list: Seq<BrowserView>, browser: BrowserView) -> Seq<BrowserView> {
    if browser.id.len() == 0 || 0 <= id_index(list, browser.id) < list.len() {
        list
    } else {
        list.push(browser)
    }
}

/// `list` with the browsers that one definition is installed as: the
/// sandboxed package first, then the executable.
pub open spec fn installed_with(list: Seq<BrowserView>, probed: ProbedConfig) -> Seq<BrowserView> {
    let packaged = match probed.config.config.flatpak {
        Some(id) => if probed.flatpak_installed {
            with_browser(list, browser_of(probed.config, Installed::Flatpak(id@)))
        } else {
            list
        },
        None => list,
    };
    match probed.config.config.system_bin {
        Some(bin) => if probed.system_installed {
            with_browser(packaged, browser_of(probed.config, Installed::System(bin@)))
        } else {
            packaged
        },
        None => packaged,
    }
}

/// The installed browsers of a list of definitions, in the order of the
/// definitions. No two of them have the same identifier, and none has the
/// empty one.
pub open spec fn installed_list(probed: Seq<ProbedConfig>) -> Seq<BrowserView>
    decreases probed.len(),
{
    if probed.len() == 0 {
        Seq::empty()
    } else {
        installed_with(installed_list(probed.drop_last()), probed.last())
    }
}

/// A list of browsers in which no identifier is empty or occurs twice.
pub open spec fn proper_ids(list: Seq<BrowserView>) -> bool {
    &&& ids(list).no_duplicates()
    &&& forall|i: int| 0 <= i < list.len() ==> (#[trigger] list[i]).id.len() > 0
}

/// Adding a browser keeps the identifiers apart and not empty.
pub proof fn lemma_with_browser(list: Seq<BrowserView>, browser: BrowserView)
    requires
        proper_ids(list),
    ensures
        proper_ids(with_browser(list, browser)),
{
    let after = with_browser(list, browser);
    lemma_id_index(list, browser.id);
    if after.len() > list.len() {
        assert forall|i: int, j: int|
            0 <= i < after.len() && 0 <= j < after.len() && i != j implies ids(after)[i] != ids(
            after,
        )[j] by {
            if i < list.len() && j < list.len() {
                assert(ids(list)[i] != ids(list)[j]);
            } else if i < list.len() {
                assert(list[i].id != browser.id);
            } else {
                assert(list[j].id != browser.id);
            }
        }
        assert forall|i: int| 0 <= i < after.len() implies (#[trigger] after[i]).id.len() > 0 by {
            if i < list.len() {
                assert(after[i] == list[i]);
            }
        }
    }
}

/// The installed browsers have identifiers that are apart and not empty.
pub proof fn lemma_installed_list(probed: Seq<ProbedConfig>)
    ensures
        proper_ids(installed_list(probed)),
    decreases probed.len(),
{
    if probed.len() > 0 {
        let before = installed_list(probed.drop_last());
        let last = probed.last();
        lemma_installed_list(probed.drop_last());
        let packaged = match last.config.config.flatpak {
            Some(id) => if last.flatpak_installed {
                with_browser(before, browser_of(last.config, Installed::Flatpak(id@)))
            } else {
                before
            },
            None => before,
        };
        if last.config.config.flatpak is Some && last.flatpak_installed {
            lemma_with_browser(
                before,
                browser_of(last.config, Installed::Flatpak(last.config.config.flatpak->0@)),
            );
        }
        if last.config.config.system_bin is Some && last.system_installed {
            lemma_with_browser(
                packaged,
                browser_of(last.config, Installed::System(last.config.config.system_bin->0@)),
            );
        }
    }
}

/// One identifier stands for one browser of the registry: the installed
/// browsers and the entry for "no browser" have identifiers that are all
/// different.
pub proof fn lemma_registry_ids(probed: Seq<ProbedConfig>)
    ensures
        ids(installed_list(probed).push(no_browser())).no_duplicates(),
{
    lemma_installed_list(probed);
    let list = installed_list(probed);
    let all = list.push(no_browser());
    assert forall|i: int, j: int|
        0 <= i < all.len() && 0 <= j < all.len() && i != j implies ids(all)[i] != ids(all)[j] by {
        if i < list.len() && j < list.len() {
            assert(ids(list)[i] != ids(list)[j]);
        } else if i < list.len() {
            assert(all[i] == list[i]);
            assert(list[i].id.len() > 0);
        } else {
            assert(all[j] == list[j]);
            assert(list[j].id.len() > 0);
        }
    }
}

/// The entries of the definitions that are not installed, in the order of
/// the definitions.
pub open spec fn uninstalled_list(probed: Seq<ProbedConfig>) -> Seq<BrowserView>
    decreases probed.len(),
{
    if probed.len() == 0 {
        Seq::empty()
    } else {
        uninstalled_list(probed.drop_last()) + uninstalled_of(probed.last())
    }
}

/// The icon directories of a list of definitions, in the order of the
/// definitions.
pub open spec fn icon_path_list(probed: Seq<ProbedConfig>) -> Seq<Seq<char>>
    decreases probed.len(),
{
    if probed.len() == 0 {
        Seq::empty()
    } else {
        icon_path_list(probed.drop_last()) + icon_path_of(probed.last())
    }
}

/// Whether a file of the definitions directory gives a definition: its
/// name ends in `.yml` or `.yaml`, it was understood, and its template was
/// read and is a descriptor.
pub open spec fn is_definition(file: ConfigFile) -> bool {
    &&& (extension(file.file_name@) == Some("yml"@) || extension(file.file_name@) == Some(
        "yaml"@,
    ))
    &&& file.definition is Some
    &&& file.template is Some
    &&& parsed(file.template->0@) is Ok
}

/// Whether a command ran and reported success.
pub open spec fn succeeded(result: Option<CommandOutput>) -> bool {
    match result {
        Some(output) => output.success,
        None => false,
    }
}

/// The registry of browsers.
#[derive(Debug)]
pub struct BrowserConfigs {
    all_browsers: Vec<Browser>,
    uninstalled_browsers: Vec<Browser>,
    icon_search_paths: Vec<String>,
}

impl BrowserConfigs {
    /// The installed browsers, with the entry for "no browser" at the end
    /// once the registry is filled.
    pub closed spec fn all(&self) -> Seq<BrowserView> {
        browser_views(self.all_browsers@)
    }

    /// The entries of the definitions that are not installed.
    pub closed spec fn uninstalled(&self) -> Seq<BrowserView> {
        browser_views(self.uninstalled_browsers@)
    }

    /// The icon directories that the registry came to know.
    pub closed spec fn icon_paths(&self) -> Seq<Seq<char>> {
        texts(self.icon_search_paths@)
    }

    /// The position of the first installed browser with the identifier
    /// `id`, if there is one.
    pub open spec fn get_index_spec(&self, id: Seq<char>) -> Option<usize> {
        if id_index(self.all(), id) < self.all().len() {
            Some(id_index(self.all(), id) as usize)
        } else {
            None
        }
    }

    /// The first installed browser with the identifier `id`, if there is
    /// one.
    pub open spec fn by_id(&self, id: Seq<char>) -> Option<BrowserView> {
        browser_with_id(self.all(), id)
    }

    /// An empty registry.
    pub fn new() -> (r: BrowserConfigs)
        ensures
            r.all() == Seq::<BrowserView>::empty(),
            r.uninstalled() == Seq::<BrowserView>::empty(),
            r.icon_paths() == Seq::<Seq<char>>::empty(),
    {
        let r = BrowserConfigs {
            all_browsers: Vec::new(),
            uninstalled_browsers: Vec::new(),
            icon_search_paths: Vec::new(),
        };
        assert(r.all() =~= Seq::<BrowserView>::empty());
        assert(r.uninstalled() =~= Seq::<BrowserView>::empty());
        assert(r.icon_paths() =~= Seq::<Seq<char>>::empty());
        r
    }

    /// Fills the registry from the definitions and what the probes found.
    pub fn init(&mut self, probed: &Vec<ProbedConfig>)
        ensures
            final(self).all() == installed_list(probed@).push(no_browser()),
            ids(final(self).all()).no_duplicates(),
            final(self).uninstalled() == uninstalled_list(probed@),
            final(self).icon_paths() == icon_path_list(probed@),
    {
        self.set_browsers_from_files(probed);
    }

    /// The installed browsers.
    pub fn get_all_browsers(&self) -> (r: &Vec<Browser>)
        ensures
            browser_views(r@) == self.all(),
    {
        &self.all_browsers
    }

    /// The browsers that are installed as sandboxed packages, in the order
    /// of the list.
    pub fn get_flatpak_browsers(&self) -> (r: Vec<&Browser>)
        ensures
            r@.map_values(|b: &Browser| b@) == self.all().filter(
                |b: BrowserView| b.installation is Flatpak,
            ),
    {
        let ghost wanted = |b: BrowserView| b.installation is Flatpak;
        let mut out: Vec<&Browser> = Vec::new();
        let mut i: usize = 0;
        assert(self.all().subrange(0, 0) =~= Seq::<BrowserView>::empty());
        assert(out@.map_values(|b: &Browser| b@) =~= Seq::<BrowserView>::empty());
        while i < self.all_browsers.len()
            invariant
                i <= self.all_browsers@.len(),
                self.all() == browser_views(self.all_browsers@),
                wanted == |b: BrowserView| b.installation is Flatpak,
                out@.map_values(|b: &Browser| b@) == self.all().subrange(0, i as int).filter(
                    wanted,
                ),
            decreases self.all_browsers@.len() - i,
        {
            proof {
                let upto = self.all().subrange(0, i + 1);
                assert(upto.drop_last() =~= self.all().subrange(0, i as int));
                assert(upto.last() == self.all_browsers@[i as int]@);
                reveal(Seq::filter);
            }
            let ghost before = out@.map_values(|b: &Browser| b@);
            if self.all_browsers[i].is_flatpak() {
                out.push(&self.all_browsers[i]);
                assert(out@.map_values(|b: &Browser| b@) =~= before.push(
                    self.all_browsers@[i as int]@,
                ));
            }
            i += 1;
        }
        assert(self.all().subrange(0, self.all().len() as int) =~= self.all());
        out
    }

    /// The browsers that are installed on the system, in the order of the
    /// list.
    pub fn get_system_browsers(&self) -> (r: Vec<&Browser>)
        ensures
            r@.map_values(|b: &Browser| b@) == self.all().filter(
                |b: BrowserView| b.installation is System,
            ),
    {
        let ghost wanted = |b: BrowserView| b.installation is System;
        let mut out: Vec<&Browser> = Vec::new();
        let mut i: usize = 0;
        assert(self.all().subrange(0, 0) =~= Seq::<BrowserView>::empty());
        assert(out@.map_values(|b: &Browser| b@) =~= Seq::<BrowserView>::empty());
        while i < self.all_browsers.len()
            invariant
                i <= self.all_browsers@.len(),
                self.all() == browser_views(self.all_browsers@),
                wanted == |b: BrowserView| b.installation is System,
                out@.map_values(|b: &Browser| b@) == self.all().subrange(0, i as int).filter(
                    wanted,
                ),
            decreases self.all_browsers@.len() - i,
        {
            proof {
                let upto = self.all().subrange(0, i + 1);
                assert(upto.drop_last() =~= self.all().subrange(0, i as int));
                assert(upto.last() == self.all_browsers@[i as int]@);
                reveal(Seq::filter);
            }
            let ghost before = out@.map_values(|b: &Browser| b@);
            if self.all_browsers[i].is_system() {
                out.push(&self.all_browsers[i]);
                assert(out@.map_values(|b: &Browser| b@) =~= before.push(
                    self.all_browsers@[i as int]@,
                ));
            }
            i += 1;
        }
        assert(self.all().subrange(0, self.all().len() as int) =~= self.all());
        out
    }

    /// The entries of the definitions that are not installed.
    pub fn get_uninstalled_browsers(&self) -> (r: &Vec<Browser>)
        ensures
            browser_views(r@) == self.uninstalled(),
    {
        &self.uninstalled_browsers
    }

    /// The icon directories that the registry came to know, in the order
    /// in which it met them.
    pub fn get_icon_search_paths(&self) -> (r: &Vec<String>)
        ensures
            texts(r@) == self.icon_paths(),
    {
        &self.icon_search_paths
    }

    /// The position of the first installed browser with the identifier
    /// `id`, if there is one.
    fn position(&self, id: &str) -> (r: usize)
        ensures
            r == id_index(self.all(), id@),
            r <= self.all_browsers@.len(),
            self.all().len() == self.all_browsers@.len(),
    {
        let mut i: usize = 0;
        while i < self.all_browsers.len()
            invariant
                i <= self.all_browsers@.len(),
                forall|j: int| 0 <= j < i ==> (#[trigger] self.all()[j]).id != id@,
            decreases self.all_browsers@.len() - i,
        {
            if str_eq(self.all_browsers[i].id.as_str(), id) {
                proof {
                    lemma_id_index_is(self.all(), id@, i as int);
                }
                return i;
            }
            i += 1;
        }
        proof {
            lemma_id_index_is(self.all(), id@, i as int);
        }
        i
    }

    /// The first installed browser with the identifier `id`, if there is
    /// one.
    pub fn get_by_id(&self, id: &str) -> (r: Option<&Browser>)
        ensures
            match r {
                Some(browser) => self.by_id(id@) == Some(browser@),
                None => self.by_id(id@).is_none(),
            },
    {
        let i = self.position(id);
        if i < self.all_browsers.len() {
            Some(&self.all_browsers[i])
        } else {
            None
        }
    }

    /// The position of the first installed browser that has the identifier
    /// of `browser`, if there is one.
    pub fn get_index(&self, browser: &Browser) -> (r: Option<usize>)
        ensures
            r == self.get_index_spec(browser@.id),
    {
        let i = self.position(browser.id.as_str());
        if i < self.all_browsers.len() {
            Some(i)
        } else {
            None
        }
    }

    /// Takes note of an icon directory, provided that it exists.
    pub fn add_icon_search_path(&mut self, path: &str, is_dir: bool)
        ensures
            final(self).all() == old(self).all(),
            final(self).uninstalled() == old(self).uninstalled(),
            final(self).icon_paths() == if is_dir {
                old(self).icon_paths().push(path@)
            } else {
                old(self).icon_paths()
            },
    {
        if is_dir {
            self.icon_search_paths.push(String::from_str(path));
            assert(self.icon_paths() =~= old(self).icon_paths().push(path@));
        }
    }

    /// The entry that stands for "no browser".
    pub fn get_no_browser() -> (r: Browser)
        ensures
            r@ == no_browser(),
    {
        let mut icon_names: Vec<String> = Vec::new();
        icon_names.push(String::from_str("dialog-warning-symbolic"));
        assert(texts(icon_names@) =~= seq!["dialog-warning-symbolic"@]);
        let issues: Vec<String> = Vec::new();
        assert(texts(issues@) =~= Seq::<Seq<char>>::empty());
        Browser {
            id: String::new(),
            name: String::from_str("No browser"),
            installation: Installation::NotInstalled,
            can_isolate: false,
            can_start_maximized: false,
            flatpak_id: None,
            executable: None,
            desktop_file: String::new(),
            desktop_file_name_prefix: String::new(),
            base: Base::NoBase,
            issues,
            config_name: String::new(),
            icon_names,
        }
    }

    /// Sorts the definitions into installed and not installed browsers. A
    /// definition whose package and whose executable were both found gives
    /// two installed browsers, the package first; one of which neither was
    /// found gives one entry that is not installed. An installed browser
    /// without an identifier, or with the identifier of a browser that is
    /// in the list already, is passed over, so that one identifier stands
    /// for one browser. The entry for "no browser" closes the installed
    /// list.
    pub fn set_browsers_from_files(&mut self, probed: &Vec<ProbedConfig>)
        ensures
            final(self).all() == installed_list(probed@).push(no_browser()),
            ids(final(self).all()).no_duplicates(),
            final(self).uninstalled() == uninstalled_list(probed@),
            final(self).icon_paths() == icon_path_list(probed@),
    {
        let mut installed: Vec<Browser> = Vec::new();
        let mut uninstalled: Vec<Browser> = Vec::new();
        let mut icon_paths: Vec<String> = Vec::new();
        let mut i: usize = 0;
        assert(probed@.subrange(0, 0) =~= Seq::<ProbedConfig>::empty());
        assert(browser_views(installed@) =~= Seq::<BrowserView>::empty());
        assert(browser_views(uninstalled@) =~= Seq::<BrowserView>::empty());
        assert(texts(icon_paths@) =~= Seq::<Seq<char>>::empty());
        while i < probed.len()
            invariant
                i <= probed@.len(),
                browser_views(installed@) == installed_list(probed@.subrange(0, i as int)),
                browser_views(uninstalled@) == uninstalled_list(probed@.subrange(0, i as int)),
                texts(icon_paths@) == icon_path_list(probed@.subrange(0, i as int)),
            decreases probed@.len() - i,
        {
            let entry = &probed[i];
            let ghost upto = probed@.subrange(0, i + 1);
            let ghost installed_before = browser_views(installed@);
            let ghost uninstalled_before = browser_views(uninstalled@);
            let ghost paths_before = texts(icon_paths@);
            proof {
                assert(upto.drop_last() =~= probed@.subrange(0, i as int));
                assert(upto.last() == probed@[i as int]);
            }
            let mut is_installed = false;
            match &entry.config.config.flatpak {
                Some(flatpak) => {
                    if entry.flatpak_installed {
                        push_browser(
                            &mut installed,
                            Browser::new(&entry.config, Installation::Flatpak(flatpak.clone())),
                        );
                        match &entry.icon_search_path {
                            Some(path) => {
                                icon_paths.push(path.clone());
                            },
                            None => {},
                        }
                        is_installed = true;
                    }
                },
                None => {},
            }
            match &entry.config.config.system_bin {
                Some(system_bin) => {
                    if entry.system_installed {
                        push_browser(
                            &mut installed,
                            Browser::new(&entry.config, Installation::System(system_bin.clone())),
                        );
                        is_installed = true;
                    }
                },
                None => {},
            }
            if !is_installed {
                uninstalled.push(Browser::new(&entry.config, Installation::NotInstalled));
            }
            proof {
                assert(browser_views(installed@) =~= installed_with(installed_before, *entry));
                assert(browser_views(uninstalled@) =~= uninstalled_before + uninstalled_of(
                    *entry,
                ));
                assert(texts(icon_paths@) =~= paths_before + icon_path_of(*entry));
            }
            i += 1;
        }
        assert(probed@.subrange(0, probed@.len() as int) =~= probed@);
        let ghost listed = browser_views(installed@);
        installed.push(Self::get_no_browser());
        assert(browser_views(installed@) =~= listed.push(no_browser()));
        proof {
            lemma_registry_ids(probed@);
        }
        self.all_browsers = installed;
        self.uninstalled_browsers = uninstalled;
        self.icon_search_paths = icon_paths;
    }

    /// The command that tells whether a sandboxed package is installed.
    pub fn flatpak_probe_command(flatpak: &str) -> (r: String)
        ensures
            r@ == "flatpak info "@ + flatpak@,
    {
        join_text("flatpak info ", flatpak)
    }

    /// The command that tells whether an executable is on the search path.
    pub fn system_probe_command(system_bin: &str) -> (r: String)
        ensures
            r@ == "which "@ + system_bin@,
    {
        join_text("which ", system_bin)
    }

    /// The command that tells where a sandboxed package is installed.
    pub fn flatpak_location_command(flatpak: &str) -> (r: String)
        ensures
            r@ == "flatpak info --show-location "@ + flatpak@,
    {
        join_text("flatpak info --show-location ", flatpak)
    }

    /// Whether the probe found the sandboxed package: the command ran and
    /// reported success.
    pub fn is_installed_flatpak(result: &Option<CommandOutput>) -> (r: bool)
        ensures
            r == succeeded(*result),
    {
        match result {
            Some(output) => output.success,
            None => false,
        }
    }

    /// Whether the probe found the executable: the command ran and
    /// reported success.
    pub fn is_installed_system(result: &Option<CommandOutput>) -> (r: bool)
        ensures
            r == succeeded(*result),
    {
        match result {
            Some(output) => output.success,
            None => false,
        }
    }

    /// The icon directory of a sandboxed package, from what the location
    /// probe printed: `export/share/icons` under the printed directory.
    /// There is none outside a container, nor where the probe did not run
    /// or failed. Whether the directory exists is for the caller to find
    /// out.
    pub fn get_icon_search_path_flatpak(
        in_container: bool,
        result: &Option<CommandOutput>,
    ) -> (r: Option<String>)
        ensures
            match r {
                Some(path) => in_container && succeeded(*result) && path@ == joined(
                    joined(joined(result->0.stdout@, "export"@), "share"@),
                    "icons"@,
                ),
                None => !(in_container && succeeded(*result)),
            },
    {
        if !in_container {
            return None;
        }
        match result {
            Some(output) => {
                if !output.success {
                    return None;
                }
                let export = join(output.stdout.as_str(), "export");
                let share = join(export.as_str(), "share");
                Some(join(share.as_str(), "icons"))
            },
            None => None,
        }
    }

    /// The path of the template that belongs to a definition file: the
    /// file's stem with `.desktop` in the templates directory.
    pub fn template_path(app_dirs: &AppDirs, file_name: &str) -> (r: String)
        ensures
            r@ == joined(
                app_dirs.app_config_browser_desktop_files@,
                file_stem(file_name@) + ".desktop"@,
            ),
    {
        let stem = stem_of(file_name);
        let name = join_text(stem.as_str(), ".desktop");
        join(app_dirs.app_config_browser_desktop_files.as_str(), name.as_str())
    }

    /// The definitions among the files of the definitions directory, in the
    /// order of the files. A file that gives no definition is passed over.
    pub fn get_browsers_from_files(files: Vec<ConfigFile>) -> (r: Vec<BrowserConfig>)
        ensures
            r@.len() == files@.filter(|f: ConfigFile| is_definition(f)).len(),
            forall|i: int|
                0 <= i < r@.len() ==> {
                    let file = files@.filter(|f: ConfigFile| is_definition(f))[i];
                    &&& (#[trigger] r@[i]).config == file.definition->0
                    &&& r@[i].config_name@ == file_stem(file.file_name@)
                    &&& r@[i].file_name@ == file.file_name@
                    &&& r@[i].desktop_file@ == file.template->0@
                },
    {
        let ghost wanted = |f: ConfigFile| is_definition(f);
        let ghost all = files@;
        let mut out: Vec<BrowserConfig> = Vec::new();
        let mut files = files;
        let n: usize = files.len();
        let mut i: usize = 0;
        assert(all.subrange(0, 0) =~= Seq::<ConfigFile>::empty());
        assert(all.subrange(0, n as int) =~= all);
        while i < n
            invariant
                i <= n,
                n == all.len(),
                files@ == all.subrange(i as int, n as int),
                wanted == |f: ConfigFile| is_definition(f),
                out@.len() == all.subrange(0, i as int).filter(wanted).len(),
                forall|k: int|
                    0 <= k < out@.len() ==> {
                        let file = all.subrange(0, i as int).filter(wanted)[k];
                        &&& (#[trigger] out@[k]).config == file.definition->0
                        &&& out@[k].config_name@ == file_stem(file.file_name@)
                        &&& out@[k].file_name@ == file.file_name@
                        &&& out@[k].desktop_file@ == file.template->0@
                    },
            decreases n - i,
        {
            let file = files.remove(0);
            proof {
                assert(file == all[i as int]);
                assert(files@ =~= all.subrange(i + 1, n as int));
                let upto = all.subrange(0, i + 1);
                assert(upto.drop_last() =~= all.subrange(0, i as int));
                assert(upto.last() == all[i as int]);
                reveal(Seq::filter);
            }
            match Self::read_definition(file) {
                Some(config) => {
                    out.push(config);
                },
                None => {},
            }
            i += 1;
        }
        assert(all.subrange(0, n as int) =~= all);
        out
    }

    /// The definition that a file gives, if it gives one.
    pub fn read_definition(file: ConfigFile) -> (r: Option<BrowserConfig>)
        ensures
            r is Some == is_definition(file),
            r matches Some(config) ==> {
                &&& config.config == file.definition->0
                &&& config.config_name@ == file_stem(file.file_name@)
                &&& config.file_name@ == file.file_name@
                &&& config.desktop_file@ == file.template->0@
            },
    {
        let is_yaml = match extension_of(file.file_name.as_str()) {
            Some(e) => str_eq(e.as_str(), "yml") || str_eq(e.as_str(), "yaml"),
            None => false,
        };
        if !is_yaml {
            return None;
        }
        let config_name = stem_of(file.file_name.as_str());
        match file.definition {
            Some(definition) => match file.template {
                Some(template) => {
                    match DesktopEntry::from_str("", template.as_str()) {
                        Ok(_) => Some(
                            BrowserConfig {
                                config: definition,
                                config_name,
                                file_name: file.file_name,
                                desktop_file: template,
                            },
                        ),
                        Err(_) => None,
                    }
                },
                None => None,
            },
            None => None,
        }
    }
}

} // verus!
