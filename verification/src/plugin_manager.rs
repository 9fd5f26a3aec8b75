//! The manager: the registry, the places of its files, and the decisions of
//! install, upgrade, uninstall and update.
//!
//! The manager touches neither the file system nor the network. For each
//! plugin it is told what was seen, says in a `Step` what is to be done, and
//! is told in an `Outcome` how that went; `complete` then brings the ledger up
//! to date and gives the plugin's `Status`.

use vstd::prelude::*;
use vstd::string::*;

use crate::catalog::{parse, parse_catalog};
use crate::config::{entry_views, wanted, ConfigEntry, ConfigKey, EntryView, PathKind};
use crate::ledger::{entries_of, without_first, Ledger};
use crate::listing::listing;
use crate::plugin::{Plugin, PluginType, PluginView};
use crate::registry::Registry;
use crate::resolver::{
    collection_of, collections, collections_of, merge, merged, source_views, CatalogSource,
    ResolveError,
};
use crate::text::{
    chars_of, line_spans, lines, piece, range_is, side_ranges, sides, span_texts, spans_within,
    texts,
};

verus! {

/// How an action outside the manager went.
#[derive(Debug, PartialEq, Eq, Clone, Copy, Structural)]
pub enum Outcome {
    /// It ran and ended with this exit code.
    Exited(i32),
    /// It ran and ended without an exit code.
    Killed,
    /// It did not end in the time that it was given.
    TimedOut,
    /// It could not be run, or failed without an exit code of its own.
    Failed,
}

/// What became of one plugin in an operation.
#[derive(Debug, PartialEq, Eq, Clone, Copy, Structural)]
pub enum Status {
    /// All went well.
    Done,
    /// The plugin is in place and recorded, but its setup action failed.
    SetupFailed(Outcome),
    /// The registry holds no plugin of that name.
    PluginNotFound,
    /// No directory stands where the plugin would be installed.
    NotInstalled,
    /// A directory already stands where the plugin would be installed.
    AlreadyInstalled,
    /// No directory stands at the location of a local plugin.
    SourceMissing,
    /// The plugin is of a type that cannot be installed.
    WrongType,
    /// The catalog names no remote from which it could be updated.
    NoRemote,
    /// The action went wrong.
    BackendFailure(Outcome),
}

/// What was seen of a plugin's two directories.
#[derive(Debug, PartialEq, Eq, Clone, Copy, Structural)]
pub struct Seen {
    /// A directory stands at the plugin's location.
    pub source_is_dir: bool,
    /// A directory stands where the plugin is installed.
    pub destination_is_dir: bool,
}

/// What is to be done for a plugin or a catalog.
#[derive(Debug)]
pub enum Step {
    /// Nothing; the status says why.
    Skip(Status),
    /// Copy the directory `source` to `destination`.
    Copy { source: String, destination: String, overwrite: bool },
    /// Clone the repository at `remote` into `destination`.
    Clone { remote: String, destination: String },
    /// Pull into the repository at `destination`.
    Pull { destination: String },
    /// Remove the directory `destination` with all that it holds.
    Remove { destination: String },
    /// Fetch the text at `url` and write it over the file `destination`.
    Fetch { url: String, destination: String },
}

/// What a step says.
pub enum StepView {
    Skip(Status),
    Copy { source: Seq<char>, destination: Seq<char>, overwrite: bool },
    Clone { remote: Seq<char>, destination: Seq<char> },
    Pull { destination: Seq<char> },
    Remove { destination: Seq<char> },
    Fetch { url: Seq<char>, destination: Seq<char> },
}

impl View for Step {
    type V = StepView;

    open spec fn view(&self) -> StepView {
        match self {
            Step::Skip(status) => StepView::Skip(*status),
            Step::Copy { source, destination, overwrite } => StepView::Copy {
                source: source@,
                destination: destination@,
                overwrite: *overwrite,
            },
            Step::Clone { remote, destination } => StepView::Clone {
                remote: remote@,
                destination: destination@,
            },
            Step::Pull { destination } => StepView::Pull { destination: destination@ },
            Step::Remove { destination } => StepView::Remove { destination: destination@ },
            Step::Fetch { url, destination } => StepView::Fetch {
                url: url@,
                destination: destination@,
            },
        }
    }
}

impl Step {
    /// Where the setup action of the plugin would stand, for a step that puts
    /// a plugin in place for the first time.
    pub fn setup_path(&self) -> (path: Option<String>)
        ensures
            match path {
                Some(found) => installs(self@) && found@ == setup_in(destination_of(self@)),
                None => !installs(self@),
            },
    {
        match self {
            Step::Copy { destination, overwrite, .. } => {
                if *overwrite {
                    None
                } else {
                    let mut path = destination.clone();
                    path.append("/setup.sh");
                    Some(path)
                }
            },
            Step::Clone { destination, .. } => {
                let mut path = destination.clone();
                path.append("/setup.sh");
                Some(path)
            },
            _ => None,
        }
    }
}

/// What a manager holds.
pub struct ManagerView {
    pub plugins: Map<Seq<char>, PluginView>,
    pub config_location: Seq<char>,
    pub official_repo_location: Seq<char>,
    pub repo_folder_location: Seq<char>,
    pub installed_cache_location: Seq<char>,
    pub plugin_folder_location: Seq<char>,
}

/// The action went well: it ended with exit code 0.
pub open spec fn succeeded(outcome: Outcome) -> bool {
    outcome == Outcome::Exited(0)
}

/// The directory of the plugin called `name` in the plugin folder.
pub open spec fn path_in(folder: Seq<char>, name: Seq<char>) -> Seq<char> {
    folder + "/"@ + name
}

/// The setup action of the plugin installed at `destination`.
pub open spec fn setup_in(destination: Seq<char>) -> Seq<char> {
    destination + "/setup.sh"@
}

/// The step that installs a local plugin: it is copied, unless no directory
/// stands at its location or one stands already where it would be installed.
pub open spec fn install_local(folder: Seq<char>, plugin: PluginView, seen: Seen) -> StepView {
    if !seen.source_is_dir {
        StepView::Skip(Status::SourceMissing)
    } else if seen.destination_is_dir {
        StepView::Skip(Status::AlreadyInstalled)
    } else {
        StepView::Copy {
            source: plugin.location,
            destination: path_in(folder, plugin.name),
            overwrite: false,
        }
    }
}

/// The step that installs a plugin from a repository: it is cloned.
pub open spec fn install_git(folder: Seq<char>, plugin: PluginView) -> StepView {
    StepView::Clone { remote: plugin.location, destination: path_in(folder, plugin.name) }
}

/// The step that installs the plugin called `name`.
pub open spec fn install_step(manager: ManagerView, name: Seq<char>, seen: Seen) -> StepView {
    if !manager.plugins.contains_key(name) {
        StepView::Skip(Status::PluginNotFound)
    } else {
        match manager.plugins[name].plugin_type {
            PluginType::Local => install_local(
                manager.plugin_folder_location,
                manager.plugins[name],
                seen,
            ),
            PluginType::Repo => install_git(manager.plugin_folder_location, manager.plugins[name]),
            PluginType::Collection => StepView::Skip(Status::WrongType),
        }
    }
}

/// The step that upgrades a local plugin: it is copied over what is
/// installed, unless no directory stands at its location, or none where it is
/// installed, or it has no name.
pub open spec fn upgrade_local(folder: Seq<char>, plugin: PluginView, seen: Seen) -> StepView {
    if !seen.source_is_dir {
        StepView::Skip(Status::SourceMissing)
    } else if seen.destination_is_dir && plugin.name.len() > 0 {
        StepView::Copy {
            source: plugin.location,
            destination: path_in(folder, plugin.name),
            overwrite: true,
        }
    } else {
        StepView::Skip(Status::NotInstalled)
    }
}

/// The step that upgrades a plugin from a repository: it is pulled.
pub open spec fn upgrade_git(folder: Seq<char>, plugin: PluginView) -> StepView {
    StepView::Pull { destination: path_in(folder, plugin.name) }
}

/// The step that upgrades the plugin called `name`.
pub open spec fn upgrade_step(manager: ManagerView, name: Seq<char>, seen: Seen) -> StepView {
    if !manager.plugins.contains_key(name) {
        StepView::Skip(Status::PluginNotFound)
    } else {
        match manager.plugins[name].plugin_type {
            PluginType::Local => upgrade_local(
                manager.plugin_folder_location,
                manager.plugins[name],
                seen,
            ),
            PluginType::Repo => upgrade_git(manager.plugin_folder_location, manager.plugins[name]),
            PluginType::Collection => StepView::Skip(Status::WrongType),
        }
    }
}

/// The step that uninstalls the plugin called `name`: its directory is
/// removed where one stands.
pub open spec fn uninstall_step(manager: ManagerView, name: Seq<char>, seen: Seen) -> StepView {
    if !manager.plugins.contains_key(name) {
        StepView::Skip(Status::PluginNotFound)
    } else if seen.destination_is_dir {
        StepView::Remove {
            destination: path_in(manager.plugin_folder_location, manager.plugins[name].name),
        }
    } else {
        StepView::Skip(Status::NotInstalled)
    }
}

/// The names among `names` under which the registry holds a plugin, in their
/// order.
pub open spec fn known(
    registry: Map<Seq<char>, PluginView>,
    names: Seq<Seq<char>>,
) -> Seq<Seq<char>>
    decreases names.len(),
{
    if names.len() == 0 {
        names
    } else if registry.contains_key(names.last()) {
        known(registry, names.drop_last()).push(names.last())
    } else {
        known(registry, names.drop_last())
    }
}

/// The names that an upgrade is for: those that are asked for or, where none
/// is asked for, those of the ledger; of these, the ones that the registry
/// knows.
pub open spec fn upgrade_targets(
    registry: Map<Seq<char>, PluginView>,
    names: Seq<Seq<char>>,
    ledger: Seq<Seq<char>>,
) -> Seq<Seq<char>> {
    if names.len() == 0 {
        known(registry, ledger)
    } else {
        known(registry, names)
    }
}

/// The remote that a line of a catalog names: the value of the key `remote`.
pub open spec fn remote_of(line: Seq<char>) -> Option<Seq<char>> {
    match sides(line, '=') {
        None => None,
        Some((key, value)) => if key == "remote"@ {
            Some(value)
        } else {
            None
        },
    }
}

/// The remote that the first of `lines` names that names one.
pub open spec fn first_remote(lines: Seq<Seq<char>>) -> Option<Seq<char>>
    decreases lines.len(),
{
    if lines.len() == 0 {
        None
    } else {
        match remote_of(lines[0]) {
            Some(url) => Some(url),
            None => first_remote(lines.drop_first()),
        }
    }
}

/// The remote from which a catalog text is updated.
pub open spec fn remote_from(text: Seq<char>) -> Option<Seq<char>> {
    first_remote(lines(text))
}

/// The step that updates the catalog at `location`, which holds `text`.
pub open spec fn update_step(location: Seq<char>, text: Seq<char>) -> StepView {
    match remote_from(text) {
        None => StepView::Skip(Status::NoRemote),
        Some(url) => StepView::Fetch { url, destination: location },
    }
}

/// The step puts a plugin in place for the first time.
pub open spec fn installs(step: StepView) -> bool {
    match step {
        StepView::Copy { overwrite, .. } => !overwrite,
        StepView::Clone { .. } => true,
        _ => false,
    }
}

/// The destination of a step that has one.
pub open spec fn destination_of(step: StepView) -> Seq<char> {
    match step {
        StepView::Skip(_) => Seq::empty(),
        StepView::Copy { destination, .. } => destination,
        StepView::Clone { destination, .. } => destination,
        StepView::Pull { destination } => destination,
        StepView::Remove { destination } => destination,
        StepView::Fetch { destination, .. } => destination,
    }
}

/// The setup action that is to be run after a step: that of the plugin, where
/// the step has put it in place, went well, and a setup action is present.
pub open spec fn setup_after(step: StepView, backend: Outcome, present: bool) -> Option<
    Seq<char>,
> {
    if installs(step) && succeeded(backend) && present {
        Some(setup_in(destination_of(step)))
    } else {
        None
    }
}

/// The ledger after a step for the plugin called `name` has been taken: the
/// name is added where the step has put the plugin in place, and taken away
/// where the step has removed it; where the step went wrong or was another,
/// the ledger is as it was.
pub open spec fn ledger_after(
    ledger: Seq<Seq<char>>,
    name: Seq<char>,
    step: StepView,
    backend: Outcome,
) -> Seq<Seq<char>> {
    if !succeeded(backend) {
        ledger
    } else if installs(step) {
        ledger + entries_of(name)
    } else if step is Remove {
        without_first(ledger, name)
    } else {
        ledger
    }
}

/// The status of a plugin after its step has been taken.
pub open spec fn status_after(step: StepView, backend: Outcome, setup: Option<Outcome>) -> Status {
    match step {
        StepView::Skip(status) => status,
        _ => if !succeeded(backend) {
            Status::BackendFailure(backend)
        } else {
            match setup {
                Some(outcome) => if installs(step) && !succeeded(outcome) {
                    Status::SetupFailed(outcome)
                } else {
                    Status::Done
                },
                None => Status::Done,
            }
        },
    }
}

/// The manager after an entry of the configuration has been read: the place
/// that the entry names is moved to its value where what the value names is
/// of the kind that the place wants.
pub open spec fn configured(manager: ManagerView, entry: EntryView, kind: PathKind) -> ManagerView {
    if kind != wanted(entry.key) {
        manager
    } else {
        match entry.key {
            ConfigKey::InstalledCache => ManagerView {
                installed_cache_location: entry.value,
                ..manager
            },
            ConfigKey::OfficialRepo => ManagerView {
                official_repo_location: entry.value,
                ..manager
            },
            ConfigKey::RepoFolder => ManagerView { repo_folder_location: entry.value, ..manager },
            ConfigKey::PluginFolder => ManagerView {
                plugin_folder_location: entry.value,
                ..manager
            },
        }
    }
}

/// What is found under the value of the entry at `at`, as far as `kinds`
/// says; nothing where it says nothing.
pub open spec fn kind_at(kinds: Seq<PathKind>, at: int) -> PathKind {
    if 0 <= at < kinds.len() {
        kinds[at]
    } else {
        PathKind::Missing
    }
}

/// The manager after the first `n` entries of a configuration have been read
/// in their order.
pub open spec fn configured_all(
    manager: ManagerView,
    entries: Seq<EntryView>,
    kinds: Seq<PathKind>,
    n: int,
) -> ManagerView
    decreases n,
{
    if n <= 0 {
        manager
    } else {
        configured(
            configured_all(manager, entries, kinds, n - 1),
            entries[n - 1],
            kind_at(kinds, n - 1),
        )
    }
}

/// The registry and the places of the manager's files.
pub struct PluginManager {
    plugins: Registry,
    config_location: String,
    official_repo_location: String,
    repo_folder_location: String,
    installed_cache_location: String,
    plugin_folder_location: String,
}

impl View for PluginManager {
    type V = ManagerView;

    closed spec fn view(&self) -> ManagerView {
        ManagerView {
            plugins: self.plugins@,
            config_location: self.config_location@,
            official_repo_location: self.official_repo_location@,
            repo_folder_location: self.repo_folder_location@,
            installed_cache_location: self.installed_cache_location@,
            plugin_folder_location: self.plugin_folder_location@,
        }
    }
}

impl PluginManager {
    /// The plugin that each place of the registry holds.
    pub closed spec fn entries(&self) -> Seq<PluginView> {
        self.plugins.entries()
    }

    /// The manager with an empty registry and its files at their usual
    /// places.
    pub fn new() -> (manager: PluginManager)
        ensures
            manager@ == (ManagerView {
                plugins: Map::empty(),
                config_location: "config.conf"@,
                official_repo_location: "plugins.repo"@,
                repo_folder_location: "repos"@,
                installed_cache_location: ".installed"@,
                plugin_folder_location: "plugins"@,
            }),
            manager.entries().len() == 0,
    {
        PluginManager {
            plugins: Registry::new(),
            config_location: String::from_str("config.conf"),
            official_repo_location: String::from_str("plugins.repo"),
            repo_folder_location: String::from_str("repos"),
            installed_cache_location: String::from_str(".installed"),
            plugin_folder_location: String::from_str("plugins"),
        }
    }

    /// The registry.
    pub fn plugins(&self) -> (registry: &Registry)
        ensures
            registry@ == self@.plugins,
            registry.entries() == self.entries(),
    {
        &self.plugins
    }

    /// The place of the configuration.
    pub fn config_location(&self) -> (location: String)
        ensures
            location@ == self@.config_location,
    {
        self.config_location.clone()
    }

    /// The place of the first catalog.
    pub fn official_repo_location(&self) -> (location: String)
        ensures
            location@ == self@.official_repo_location,
    {
        self.official_repo_location.clone()
    }

    /// The place of the folder of further catalogs.
    pub fn repo_folder_location(&self) -> (location: String)
        ensures
            location@ == self@.repo_folder_location,
    {
        self.repo_folder_location.clone()
    }

    /// The place of the ledger.
    pub fn installed_cache_location(&self) -> (location: String)
        ensures
            location@ == self@.installed_cache_location,
    {
        self.installed_cache_location.clone()
    }

    /// The place of the folder into which plugins are installed.
    pub fn plugin_folder_location(&self) -> (location: String)
        ensures
            location@ == self@.plugin_folder_location,
    {
        self.plugin_folder_location.clone()
    }

    /// The directory of the plugin called `name` in the plugin folder.
    pub fn plugin_path(&self, name: &str) -> (path: String)
        ensures
            path@ == path_in(self@.plugin_folder_location, name@),
    {
        let mut path = self.plugin_folder_location.clone();
        path.append("/");
        path.append(name);
        path
    }

    /// Reads the entries of a configuration in their order. `kinds` says for
    /// each entry what is found under its value; an entry for which it says
    /// nothing is taken as naming nothing. An entry moves its place where its
    /// value names what the place wants.
    pub fn read_config(&mut self, entries: &Vec<ConfigEntry>, kinds: &Vec<PathKind>)
        ensures
            final(self)@ == configured_all(
                old(self)@,
                entry_views(entries@),
                kinds@,
                entries.len() as int,
            ),
            final(self).entries() == old(self).entries(),
    {
        let mut i: usize = 0;
        while i < entries.len()
            invariant
                0 <= i <= entries.len(),
                self@ == configured_all(old(self)@, entry_views(entries@), kinds@, i as int),
                self.entries() == old(self).entries(),
            decreases entries.len() - i,
        {
            let kind = if i < kinds.len() {
                kinds[i]
            } else {
                PathKind::Missing
            };
            if kind == entries[i].key.wanted() {
                let value = entries[i].value.clone();
                match entries[i].key {
                    ConfigKey::InstalledCache => {
                        self.installed_cache_location = value;
                    },
                    ConfigKey::OfficialRepo => {
                        self.official_repo_location = value;
                    },
                    ConfigKey::RepoFolder => {
                        self.repo_folder_location = value;
                    },
                    ConfigKey::PluginFolder => {
                        self.plugin_folder_location = value;
                    },
                }
            }
            i = i + 1;
        }
    }

    /// Resolves the first catalog and then the catalogs at `repo_files`, and
    /// offers what they declare to the registry. Where resolution fails, the
    /// registry is left as it was.
    pub fn cache_repos(&mut self, repo_files: &Vec<String>, sources: &Vec<CatalogSource>) -> (r:
        Result<(), ResolveError>)
        ensures
            match merged(
                old(self)@.plugins,
                source_views(sources@),
                collections_of(seq![old(self)@.official_repo_location] + texts(repo_files@)),
            ) {
                Ok(registry) => r is Ok && final(self)@ == (ManagerView {
                    plugins: registry,
                    ..old(self)@
                }),
                Err(failure) => r is Err && r->Err_0@ == failure && final(self)@ == old(self)@,
            },
    {
        let roots = self.catalogs(repo_files);
        let named = collections(&roots);
        merge(&mut self.plugins, sources, &named)
    }

    /// Reads a catalog text and offers what it declares to the registry, with
    /// every collection replaced by what the source at its location declares.
    /// Where resolution fails, the registry is left as it was.
    pub fn load_into_plugins(&mut self, plugins_string: &str, sources: &Vec<CatalogSource>) -> (r:
        Result<(), ResolveError>)
        ensures
            match merged(
                old(self)@.plugins,
                source_views(sources@),
                parse_catalog(plugins_string@),
            ) {
                Ok(registry) => r is Ok && final(self)@ == (ManagerView {
                    plugins: registry,
                    ..old(self)@
                }),
                Err(failure) => r is Err && r->Err_0@ == failure && final(self)@ == old(self)@,
            },
    {
        let declared = parse(plugins_string);
        merge(&mut self.plugins, sources, &declared)
    }

    /// Resolves the catalog at `location` and offers what it declares to the
    /// registry. Where resolution fails, the registry is left as it was.
    pub fn read_repos(&mut self, location: &str, sources: &Vec<CatalogSource>) -> (r: Result<
        (),
        ResolveError,
    >)
        ensures
            match merged(
                old(self)@.plugins,
                source_views(sources@),
                seq![collection_of(location@)],
            ) {
                Ok(registry) => r is Ok && final(self)@ == (ManagerView {
                    plugins: registry,
                    ..old(self)@
                }),
                Err(failure) => r is Err && r->Err_0@ == failure && final(self)@ == old(self)@,
            },
    {
        let mut roots: Vec<String> = Vec::new();
        roots.push(location.to_owned());
        assert(collections_of(texts(roots@)) =~= seq![collection_of(location@)]);
        let named = collections(&roots);
        merge(&mut self.plugins, sources, &named)
    }

    /// The catalog blocks of the plugins of the registry.
    pub fn list(&self) -> (out: String)
        ensures
            out@ == listing(self.entries()),
    {
        let mut out = String::new();
        let mut i: usize = 0;
        let n = self.plugins.len();
        let ghost all = self.plugins.entries();
        while i < n
            invariant
                0 <= i <= n,
                n == all.len(),
                all == self.plugins.entries(),
                out@ == listing(all.take(i as int)),
            decreases n - i,
        {
            let block = self.plugins.entry(i).to_string();
            proof {
                assert(all.take(i + 1).drop_last() =~= all.take(i as int));
            }
            out.append(block.as_str());
            i = i + 1;
        }
        assert(all.take(i as int) =~= all);
        out
    }

    /// The step that installs the plugin called `name`.
    pub fn install(&self, name: &str, seen: Seen) -> (step: Step)
        ensures
            step@ == install_step(self@, name@, seen),
    {
        match self.plugins.get(name) {
            None => Step::Skip(Status::PluginNotFound),
            Some(plugin) => match plugin.get_plugin_type() {
                PluginType::Local => self.install_local_plugin(plugin, seen),
                PluginType::Repo => self.install_git_plugin(plugin),
                PluginType::Collection => Step::Skip(Status::WrongType),
            },
        }
    }

    /// The step that installs a local plugin.
    pub fn install_local_plugin(&self, plugin: &Plugin, seen: Seen) -> (step: Step)
        ensures
            step@ == install_local(self@.plugin_folder_location, plugin@, seen),
    {
        if !seen.source_is_dir {
            Step::Skip(Status::SourceMissing)
        } else if seen.destination_is_dir {
            Step::Skip(Status::AlreadyInstalled)
        } else {
            let name = plugin.get_name();
            Step::Copy {
                source: plugin.get_location(),
                destination: self.plugin_path(name.as_str()),
                overwrite: false,
            }
        }
    }

    /// The step that installs a plugin from a repository.
    pub fn install_git_plugin(&self, plugin: &Plugin) -> (step: Step)
        ensures
            step@ == install_git(self@.plugin_folder_location, plugin@),
    {
        let name = plugin.get_name();
        Step::Clone { remote: plugin.get_location(), destination: self.plugin_path(name.as_str()) }
    }

    /// Whether a setup action went well.
    pub fn run_setup(outcome: Outcome) -> (r: bool)
        ensures
            r == succeeded(outcome),
    {
        match outcome {
            Outcome::Exited(code) => code == 0,
            _ => false,
        }
    }

    /// The setup action that is to be run after a step: `backend` says how the
    /// step went, `present` whether a setup action stands in the plugin's
    /// directory.
    pub fn setup_action(step: &Step, backend: Outcome, present: bool) -> (setup: Option<String>)
        ensures
            match setup_after(step@, backend, present) {
                Some(path) => setup matches Some(found) && found@ == path,
                None => setup is None,
            },
    {
        if !Self::run_setup(backend) || !present {
            return None;
        }
        step.setup_path()
    }

    /// Brings the ledger up to date after the step for the plugin called
    /// `name` has been taken, and gives the plugin's status. `backend` says
    /// how the step went; `setup` says how the setup action went, where one
    /// was run. For a step that is skipped, neither is looked at.
    pub fn complete(
        ledger: &mut Ledger,
        name: &str,
        step: &Step,
        backend: Outcome,
        setup: Option<Outcome>,
    ) -> (status: Status)
        ensures
            status == status_after(step@, backend, setup),
            final(ledger)@ == ledger_after(old(ledger)@, name@, step@, backend),
    {
        let went_well = Self::run_setup(backend);
        match step {
            Step::Skip(status) => *status,
            Step::Copy { overwrite, .. } => {
                if !went_well {
                    Status::BackendFailure(backend)
                } else if *overwrite {
                    Status::Done
                } else {
                    ledger.record(name);
                    Self::setup_status(setup)
                }
            },
            Step::Clone { .. } => {
                if !went_well {
                    Status::BackendFailure(backend)
                } else {
                    ledger.record(name);
                    Self::setup_status(setup)
                }
            },
            Step::Remove { .. } => {
                if !went_well {
                    Status::BackendFailure(backend)
                } else {
                    ledger.remove(name);
                    Status::Done
                }
            },
            _ => {
                if !went_well {
                    Status::BackendFailure(backend)
                } else {
                    Status::Done
                }
            },
        }
    }

    /// The status of a plugin that is in place, by its setup action.
    fn setup_status(setup: Option<Outcome>) -> (status: Status)
        ensures
            status == (match setup {
                Some(outcome) => if succeeded(outcome) {
                    Status::Done
                } else {
                    Status::SetupFailed(outcome)
                },
                None => Status::Done,
            }),
    {
        match setup {
            Some(outcome) => if Self::run_setup(outcome) {
                Status::Done
            } else {
                Status::SetupFailed(outcome)
            },
            None => Status::Done,
        }
    }

    /// The names that an upgrade is for: those of `names` or, where `names`
    /// is empty, those of the ledger; of these, the ones that the registry
    /// knows, in their order.
    pub fn upgrade(&self, names: &Vec<String>, ledger: &Ledger) -> (targets: Vec<String>)
        ensures
            texts(targets@) == upgrade_targets(self@.plugins, texts(names@), ledger@),
    {
        if names.len() == 0 {
            let installed = ledger.all();
            self.upgrade_all(&installed)
        } else {
            self.upgrade_all(names)
        }
    }

    /// The names among `plugins` that the registry knows, in their order.
    pub fn upgrade_all(&self, plugins: &Vec<String>) -> (targets: Vec<String>)
        ensures
            texts(targets@) == known(self@.plugins, texts(plugins@)),
    {
        let mut targets: Vec<String> = Vec::new();
        let mut i: usize = 0;
        let ghost all = texts(plugins@);
        while i < plugins.len()
            invariant
                0 <= i <= plugins.len(),
                all == texts(plugins@),
                texts(targets@) == known(self@.plugins, all.take(i as int)),
            decreases plugins.len() - i,
        {
            proof {
                assert(all.take(i + 1).drop_last() =~= all.take(i as int));
            }
            if self.plugins.contains_key(plugins[i].as_str()) {
                targets.push(plugins[i].clone());
            }
            i = i + 1;
        }
        assert(all.take(i as int) =~= all);
        targets
    }

    /// The step that upgrades the plugin called `name`.
    pub fn upgrade_plugin(&self, name: &str, seen: Seen) -> (step: Step)
        ensures
            step@ == upgrade_step(self@, name@, seen),
    {
        match self.plugins.get(name) {
            None => Step::Skip(Status::PluginNotFound),
            Some(plugin) => match plugin.get_plugin_type() {
                PluginType::Local => self.upgrade_local_plugin(plugin, seen),
                PluginType::Repo => self.upgrade_git_plugin(plugin),
                PluginType::Collection => Step::Skip(Status::WrongType),
            },
        }
    }

    /// The step that upgrades a local plugin.
    pub fn upgrade_local_plugin(&self, plugin: &Plugin, seen: Seen) -> (step: Step)
        ensures
            step@ == upgrade_local(self@.plugin_folder_location, plugin@, seen),
    {
        let name = plugin.get_name();
        if !seen.source_is_dir {
            Step::Skip(Status::SourceMissing)
        } else if seen.destination_is_dir && name.as_str().unicode_len() > 0 {
            Step::Copy {
                source: plugin.get_location(),
                destination: self.plugin_path(name.as_str()),
                overwrite: true,
            }
        } else {
            Step::Skip(Status::NotInstalled)
        }
    }

    /// The step that upgrades a plugin from a repository.
    pub fn upgrade_git_plugin(&self, plugin: &Plugin) -> (step: Step)
        ensures
            step@ == upgrade_git(self@.plugin_folder_location, plugin@),
    {
        let name = plugin.get_name();
        Step::Pull { destination: self.plugin_path(name.as_str()) }
    }

    /// The step that uninstalls the plugin called `name`.
    pub fn uninstall(&self, name: &str, seen: Seen) -> (step: Step)
        ensures
            step@ == uninstall_step(self@, name@, seen),
    {
        match self.plugins.get(name) {
            None => Step::Skip(Status::PluginNotFound),
            Some(plugin) => {
                if seen.destination_is_dir {
                    let own = plugin.get_name();
                    Step::Remove { destination: self.plugin_path(own.as_str()) }
                } else {
                    Step::Skip(Status::NotInstalled)
                }
            },
        }
    }

    /// The catalogs of the manager: the first catalog, then those at
    /// `repo_files`.
    pub fn catalogs(&self, repo_files: &Vec<String>) -> (catalogs: Vec<String>)
        ensures
            texts(catalogs@) == seq![self@.official_repo_location] + texts(repo_files@),
    {
        let mut catalogs: Vec<String> = Vec::new();
        catalogs.push(self.official_repo_location.clone());
        let mut i: usize = 0;
        let ghost first = seq![self@.official_repo_location];
        while i < repo_files.len()
            invariant
                0 <= i <= repo_files.len(),
                texts(catalogs@) =~= first + texts(repo_files@).take(i as int),
            decreases repo_files.len() - i,
        {
            let ghost held = texts(catalogs@);
            catalogs.push(repo_files[i].clone());
            assert(texts(catalogs@) =~= held.push(repo_files[i as int]@));
            i = i + 1;
        }
        catalogs
    }

    /// The catalogs that an update is for: the first catalog, then those at
    /// `repo_files`.
    pub fn update(&self, repo_files: &Vec<String>) -> (catalogs: Vec<String>)
        ensures
            texts(catalogs@) == seq![self@.official_repo_location] + texts(repo_files@),
    {
        self.catalogs(repo_files)
    }

    /// The step that updates the catalog at `location`, which holds `text`.
    pub fn update_repo(location: &str, text: &str) -> (step: Step)
        ensures
            step@ == update_step(location@, text@),
    {
        match Self::get_remote_from_config(text) {
            None => Step::Skip(Status::NoRemote),
            Some(url) => Step::Fetch { url, destination: location.to_owned() },
        }
    }

    /// The remote from which a catalog text is updated: the value of the
    /// first line with the key `remote`.
    pub fn get_remote_from_config(text: &str) -> (remote: Option<String>)
        ensures
            match remote_from(text@) {
                Some(url) => remote matches Some(found) && found@ == url,
                None => remote is None,
            },
    {
        let chars = chars_of(text);
        let spans = line_spans(&chars);
        let ghost all = lines(text@);
        let mut i: usize = 0;
        assert(all.skip(0) =~= all);
        while i < spans.len()
            invariant
                chars@ == text@,
                all == lines(text@),
                span_texts(chars@, spans@) == all,
                spans_within(spans@, chars@.len()),
                0 <= i <= spans.len(),
                first_remote(all) == first_remote(all.skip(i as int)),
            decreases spans.len() - i,
        {
            let (from, to) = spans[i];
            proof {
                assert(all.skip(i as int).drop_first() =~= all.skip(i + 1));
            }
            match side_ranges(&chars, from, to, '=') {
                None => {},
                Some((key, value)) => {
                    if range_is(&chars, key.0, key.1, "remote") {
                        return Some(piece(text, value.0, value.1));
                    }
                },
            }
            i = i + 1;
        }
        None
    }
}

} // verus!
