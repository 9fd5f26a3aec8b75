use rpi_mesh_plugin_manager::config::{parse_config, PathKind};
use rpi_mesh_plugin_manager::ledger::Ledger;
use rpi_mesh_plugin_manager::plugin::{Plugin, PluginType};
use rpi_mesh_plugin_manager::plugin_manager::{Outcome, PluginManager, Seen, Status, Step};
use rpi_mesh_plugin_manager::resolver::{CatalogSource, ResolveError};

const CATALOG: &str = "[a]\nenabled = true\ntype = local\nlocation = /src/a\n\n[g]\nenabled = true\ntype = repo\nlocation = https://example/g.git\n\n[off]\ntype = local\nlocation = /src/off\n";

fn source(location: &str, text: &str) -> CatalogSource {
    CatalogSource { location: location.to_string(), text: text.to_string() }
}

fn names(list: &[&str]) -> Vec<String> {
    list.iter().map(|n| n.to_string()).collect()
}

fn manager_of(catalog: &str) -> PluginManager {
    let mut manager = PluginManager::new();
    manager.cache_repos(&vec![], &vec![source("plugins.repo", catalog)]).unwrap();
    manager
}

fn seen(source_is_dir: bool, destination_is_dir: bool) -> Seen {
    Seen { source_is_dir, destination_is_dir }
}

/// What a step asks for, as one line.
fn call(step: &Step) -> String {
    match step {
        Step::Skip(status) => format!("skip {:?}", status),
        Step::Copy { source, destination, overwrite } => format!("copy {} -> {} overwrite={}", source, destination, overwrite),
        Step::Clone { remote, destination } => format!("clone {} -> {}", remote, destination),
        Step::Pull { destination } => format!("pull {}", destination),
        Step::Remove { destination } => format!("remove {}", destination),
        Step::Fetch { url, destination } => format!("fetch {} -> {}", url, destination),
    }
}

/// A world that records what it is asked to do and answers as it is told.
struct World {
    directories: Vec<String>,
    answer: Outcome,
    calls: Vec<String>,
}

impl World {
    fn new(directories: &[&str], answer: Outcome) -> World {
        World { directories: names(directories), answer, calls: Vec::new() }
    }

    fn is_dir(&self, path: &str) -> bool {
        self.directories.iter().any(|d| d == path)
    }

    fn look(&self, manager: &PluginManager, name: &str) -> Seen {
        let location = manager.plugins().get(name).map(|p| p.get_location()).unwrap_or_default();
        Seen {
            source_is_dir: self.is_dir(&location),
            destination_is_dir: self.is_dir(&manager.plugin_path(name)),
        }
    }

    fn perform(&mut self, step: &Step) -> Outcome {
        if let Step::Skip(_) = step {
            return Outcome::Failed;
        }
        self.calls.push(call(step));
        if self.answer == Outcome::Exited(0) {
            match step {
                Step::Copy { destination, .. } | Step::Clone { destination, .. } => {
                    if !self.is_dir(destination) {
                        self.directories.push(destination.clone());
                    }
                }
                Step::Remove { destination } => self.directories.retain(|d| d != destination),
                _ => {}
            }
        }
        self.answer
    }

    fn install(&mut self, manager: &PluginManager, ledger: &mut Ledger, name: &str) -> Status {
        let step = manager.install(name, self.look(manager, name));
        let outcome = self.perform(&step);
        PluginManager::complete(ledger, name, &step, outcome, None)
    }

    fn upgrade(&mut self, manager: &PluginManager, ledger: &mut Ledger, name: &str) -> Status {
        let step = manager.upgrade_plugin(name, self.look(manager, name));
        let outcome = self.perform(&step);
        PluginManager::complete(ledger, name, &step, outcome, None)
    }

    fn uninstall(&mut self, manager: &PluginManager, ledger: &mut Ledger, name: &str) -> Status {
        let step = manager.uninstall(name, self.look(manager, name));
        let outcome = self.perform(&step);
        PluginManager::complete(ledger, name, &step, outcome, None)
    }
}

#[test]
fn end_to_end_install_of_a_local_plugin() {
    let manager = manager_of("[a]\nenabled = true\ntype = local\nlocation = /src/a\n");
    assert_eq!(manager.plugins().len(), 1);
    let a = manager.plugins().get("a").unwrap();
    assert_eq!((a.get_plugin_type(), a.get_location()), (PluginType::Local, "/src/a".to_string()));
    let mut world = World::new(&["/src/a", "plugins"], Outcome::Exited(0));
    let mut ledger = Ledger::new();
    assert_eq!(world.install(&manager, &mut ledger, "a"), Status::Done);
    assert_eq!(world.calls, names(&["copy /src/a -> plugins/a overwrite=false"]));
    assert_eq!(ledger.all(), names(&["a"]));
    assert!(ledger.contains("a"));
}

#[test]
fn install_on_a_present_destination_copies_nothing_and_records_nothing() {
    let manager = manager_of(CATALOG);
    let mut world = World::new(&["/src/a", "plugins", "plugins/a"], Outcome::Exited(0));
    let mut ledger = Ledger::from_text("a\n");
    assert_eq!(world.install(&manager, &mut ledger, "a"), Status::AlreadyInstalled);
    assert_eq!(world.calls, names(&[]));
    assert_eq!(ledger.all(), names(&["a"]));
}

#[test]
fn install_twice_copies_once_and_records_once() {
    let manager = manager_of(CATALOG);
    let mut world = World::new(&["/src/a"], Outcome::Exited(0));
    let mut ledger = Ledger::new();
    assert_eq!(world.install(&manager, &mut ledger, "a"), Status::Done);
    assert_eq!(world.install(&manager, &mut ledger, "a"), Status::AlreadyInstalled);
    assert_eq!(world.calls.len(), 1);
    assert_eq!(ledger.all(), names(&["a"]));
}

#[test]
fn install_steps() {
    let manager = manager_of(CATALOG);
    assert_eq!(call(&manager.install("a", seen(true, false))), "copy /src/a -> plugins/a overwrite=false");
    assert_eq!(call(&manager.install("a", seen(true, true))), "skip AlreadyInstalled");
    assert_eq!(call(&manager.install("a", seen(false, false))), "skip SourceMissing");
    assert_eq!(call(&manager.install("a", seen(false, true))), "skip SourceMissing");
    assert_eq!(call(&manager.install("g", seen(false, false))), "clone https://example/g.git -> plugins/g");
    assert_eq!(call(&manager.install("g", seen(true, true))), "clone https://example/g.git -> plugins/g");
    assert_eq!(call(&manager.install("off", seen(true, false))), "skip PluginNotFound");
    assert_eq!(call(&manager.install("nobody", seen(true, false))), "skip PluginNotFound");
}

#[test]
fn install_steps_of_a_plugin_by_its_type() {
    let manager = manager_of(CATALOG);
    let local = Plugin::new("l".to_string(), true, PluginType::Local, "/src/l".to_string());
    let repo = Plugin::new("r".to_string(), true, PluginType::Repo, "https://example/r.git".to_string());
    assert_eq!(call(&manager.install_local_plugin(&local, seen(true, false))), "copy /src/l -> plugins/l overwrite=false");
    assert_eq!(call(&manager.install_git_plugin(&repo)), "clone https://example/r.git -> plugins/r");
    assert_eq!(call(&manager.upgrade_local_plugin(&local, seen(true, true))), "copy /src/l -> plugins/l overwrite=true");
    assert_eq!(call(&manager.upgrade_git_plugin(&repo)), "pull plugins/r");
}

#[test]
fn a_failing_backend_records_nothing_and_the_batch_goes_on() {
    let manager = manager_of(CATALOG);
    let mut ledger = Ledger::new();
    let mut world = World::new(&["/src/a"], Outcome::Exited(128));
    assert_eq!(world.install(&manager, &mut ledger, "g"), Status::BackendFailure(Outcome::Exited(128)));
    assert_eq!(ledger.all(), names(&[]));
    world.answer = Outcome::Exited(0);
    assert_eq!(world.install(&manager, &mut ledger, "a"), Status::Done);
    assert_eq!(ledger.all(), names(&["a"]));
    world.answer = Outcome::Killed;
    assert_eq!(world.install(&manager, &mut ledger, "g"), Status::BackendFailure(Outcome::Killed));
    world.answer = Outcome::Failed;
    assert_eq!(world.install(&manager, &mut ledger, "g"), Status::BackendFailure(Outcome::Failed));
    assert_eq!(ledger.all(), names(&["a"]));
    assert_eq!(world.calls.len(), 4);
}

#[test]
fn setup_action_runs_after_a_first_installation_that_went_well() {
    let manager = manager_of(CATALOG);
    let copy = manager.install("a", seen(true, false));
    let clone = manager.install("g", seen(false, false));
    let again = manager.upgrade_plugin("a", seen(true, true));
    let pull = manager.upgrade_plugin("g", seen(true, true));
    let ok = Outcome::Exited(0);
    assert_eq!(PluginManager::setup_action(&copy, ok, true), Some("plugins/a/setup.sh".to_string()));
    assert_eq!(PluginManager::setup_action(&clone, ok, true), Some("plugins/g/setup.sh".to_string()));
    assert_eq!(PluginManager::setup_action(&copy, ok, false), None);
    assert_eq!(PluginManager::setup_action(&copy, Outcome::Exited(1), true), None);
    assert_eq!(PluginManager::setup_action(&clone, Outcome::Failed, true), None);
    assert_eq!(PluginManager::setup_action(&again, ok, true), None);
    assert_eq!(PluginManager::setup_action(&pull, ok, true), None);
    assert_eq!(PluginManager::setup_action(&Step::Skip(Status::AlreadyInstalled), ok, true), None);
}

#[test]
fn a_failing_setup_action_is_reported_and_the_plugin_stays_recorded() {
    let manager = manager_of(CATALOG);
    let step = manager.install("a", seen(true, false));
    let mut ledger = Ledger::new();
    let status = PluginManager::complete(&mut ledger, "a", &step, Outcome::Exited(0), Some(Outcome::Exited(3)));
    assert_eq!(status, Status::SetupFailed(Outcome::Exited(3)));
    assert_eq!(ledger.all(), names(&["a"]));
    let status = PluginManager::complete(&mut ledger, "g", &manager.install("g", seen(false, false)), Outcome::Exited(0), Some(Outcome::Exited(0)));
    assert_eq!(status, Status::Done);
    assert_eq!(ledger.all(), names(&["a", "g"]));
}

#[test]
fn run_setup_goes_well_only_with_exit_code_zero() {
    assert!(PluginManager::run_setup(Outcome::Exited(0)));
    assert!(!PluginManager::run_setup(Outcome::Exited(1)));
    assert!(!PluginManager::run_setup(Outcome::Exited(-1)));
    assert!(!PluginManager::run_setup(Outcome::Killed));
    assert!(!PluginManager::run_setup(Outcome::TimedOut));
    assert!(!PluginManager::run_setup(Outcome::Failed));
}

#[test]
fn complete_of_a_skipped_step_looks_at_nothing() {
    let mut ledger = Ledger::from_text("a\n");
    for status in [Status::AlreadyInstalled, Status::NotInstalled, Status::PluginNotFound, Status::SourceMissing, Status::WrongType, Status::NoRemote] {
        let got = PluginManager::complete(&mut ledger, "a", &Step::Skip(status), Outcome::Exited(0), Some(Outcome::Exited(1)));
        assert_eq!(got, status);
    }
    assert_eq!(ledger.all(), names(&["a"]));
}

#[test]
fn upgrade_without_names_is_for_the_ledger_names_that_the_registry_knows() {
    let manager = manager_of(CATALOG);
    let ledger = Ledger::from_text("g\ngone\na\noff\ng\n");
    assert_eq!(manager.upgrade(&names(&[]), &ledger), names(&["g", "a", "g"]));
    assert_eq!(manager.upgrade(&names(&[]), &Ledger::new()), names(&[]));
    assert_eq!(manager.upgrade_all(&names(&["x", "a", "y"])), names(&["a"]));
}

#[test]
fn upgrade_with_names_is_for_those_that_the_registry_knows() {
    let manager = manager_of(CATALOG);
    let ledger = Ledger::from_text("g\n");
    assert_eq!(manager.upgrade(&names(&["a", "nobody", "off", "g"]), &ledger), names(&["a", "g"]));
    assert_eq!(manager.upgrade(&names(&["nobody"]), &ledger), names(&[]));
}

#[test]
fn upgrade_steps() {
    let manager = manager_of(CATALOG);
    assert_eq!(call(&manager.upgrade_plugin("a", seen(true, true))), "copy /src/a -> plugins/a overwrite=true");
    assert_eq!(call(&manager.upgrade_plugin("a", seen(true, false))), "skip NotInstalled");
    assert_eq!(call(&manager.upgrade_plugin("a", seen(false, true))), "skip SourceMissing");
    assert_eq!(call(&manager.upgrade_plugin("g", seen(false, false))), "pull plugins/g");
    assert_eq!(call(&manager.upgrade_plugin("nobody", seen(true, true))), "skip PluginNotFound");
}

#[test]
fn upgrade_of_a_local_plugin_without_name_is_not_installed() {
    let manager = manager_of("[]\nenabled = true\ntype = local\nlocation = /src/none\n");
    assert!(manager.plugins().contains_key(""));
    assert_eq!(call(&manager.upgrade_plugin("", seen(true, true))), "skip NotInstalled");
}

#[test]
fn upgrade_all_end_to_end() {
    let manager = manager_of(CATALOG);
    let mut ledger = Ledger::from_text("a\ngone\ng\n");
    let mut world = World::new(&["/src/a", "plugins/a", "plugins/g"], Outcome::Exited(0));
    let targets = manager.upgrade(&names(&[]), &ledger);
    let mut statuses = Vec::new();
    for name in &targets {
        statuses.push(world.upgrade(&manager, &mut ledger, name));
    }
    assert_eq!(statuses, vec![Status::Done, Status::Done]);
    assert_eq!(world.calls, names(&["copy /src/a -> plugins/a overwrite=true", "pull plugins/g"]));
    assert_eq!(ledger.all(), names(&["a", "gone", "g"]));
}

#[test]
fn uninstall_steps() {
    let manager = manager_of(CATALOG);
    assert_eq!(call(&manager.uninstall("a", seen(false, true))), "remove plugins/a");
    assert_eq!(call(&manager.uninstall("g", seen(true, true))), "remove plugins/g");
    assert_eq!(call(&manager.uninstall("a", seen(true, false))), "skip NotInstalled");
    assert_eq!(call(&manager.uninstall("nobody", seen(true, true))), "skip PluginNotFound");
}

#[test]
fn uninstall_end_to_end() {
    let manager = manager_of(CATALOG);
    let mut ledger = Ledger::new();
    let mut world = World::new(&["/src/a"], Outcome::Exited(0));
    assert_eq!(world.install(&manager, &mut ledger, "a"), Status::Done);
    assert_eq!(world.install(&manager, &mut ledger, "g"), Status::Done);
    assert_eq!(ledger.all(), names(&["a", "g"]));
    assert_eq!(world.uninstall(&manager, &mut ledger, "a"), Status::Done);
    assert_eq!(ledger.all(), names(&["g"]));
    assert!(!world.is_dir("plugins/a"));
    assert_eq!(world.uninstall(&manager, &mut ledger, "a"), Status::NotInstalled);
    assert_eq!(ledger.all(), names(&["g"]));
    world.answer = Outcome::Failed;
    assert_eq!(world.uninstall(&manager, &mut ledger, "g"), Status::BackendFailure(Outcome::Failed));
    assert_eq!(ledger.all(), names(&["g"]));
}

#[test]
fn uninstall_of_a_plugin_that_the_ledger_does_not_hold_leaves_the_ledger() {
    let manager = manager_of(CATALOG);
    let mut ledger = Ledger::from_text("g\n");
    let step = manager.uninstall("a", seen(true, true));
    assert_eq!(PluginManager::complete(&mut ledger, "a", &step, Outcome::Exited(0), None), Status::Done);
    assert_eq!(ledger.all(), names(&["g"]));
}

#[test]
fn plugin_path_joins_folder_and_name() {
    let mut manager = PluginManager::new();
    assert_eq!(manager.plugin_path("a"), "plugins/a");
    assert_eq!(manager.plugin_path(""), "plugins/");
    manager.read_config(&parse_config("plugin_folder_location: /opt/p\n"), &vec![PathKind::Directory]);
    assert_eq!(manager.plugin_path("a b"), "/opt/p/a b");
    manager.cache_repos(&vec![], &vec![source("plugins.repo", CATALOG)]).unwrap();
    assert_eq!(call(&manager.install("a", seen(true, false))), "copy /src/a -> /opt/p/a overwrite=false");
}

#[test]
fn cache_repos_resolves_the_first_catalog_and_then_the_others() {
    let sources = vec![
        source("plugins.repo", "[x]\nenabled = true\nlocation = official\n[c]\ntype = collection\nlocation = nested\n"),
        source("repos/one", "[x]\nenabled = true\ntype = local\nlocation = /one\n"),
        source("repos/two", "[y]\nenabled = true\nlocation = two\n"),
        source("nested", "[n]\nenabled = true\nlocation = nested-n\n"),
    ];
    let mut manager = PluginManager::new();
    manager.cache_repos(&names(&["repos/one", "repos/two"]), &sources).unwrap();
    assert_eq!(manager.plugins().len(), 3);
    assert_eq!(manager.plugins().get("x").unwrap().get_location(), "/one");
    assert_eq!(manager.plugins().get("y").unwrap().get_location(), "two");
    assert_eq!(manager.plugins().get("n").unwrap().get_location(), "nested-n");
    assert!(manager.plugins().get("c").is_none());
}

#[test]
fn cache_repos_leaves_the_registry_where_resolution_fails() {
    let mut manager = manager_of(CATALOG);
    let sources = vec![source("plugins.repo", "[z]\nenabled = true\n[c]\ntype = collection\nlocation = plugins.repo\n")];
    assert!(matches!(manager.cache_repos(&vec![], &sources), Err(ResolveError::CyclicCollectionReference(_))));
    assert!(matches!(manager.cache_repos(&names(&["repos/none"]), &vec![source("plugins.repo", "")]), Err(ResolveError::CatalogUnreadable(_))));
    assert_eq!(manager.plugins().len(), 2);
    assert!(manager.plugins().contains_key("a"));
    assert!(!manager.plugins().contains_key("z"));
}

#[test]
fn load_into_plugins_and_read_repos_offer_to_the_registry() {
    let sources = vec![source("other.repo", "[b]\nenabled = true\ntype = repo\nlocation = https://example/b.git\n")];
    let mut manager = PluginManager::new();
    manager.load_into_plugins("[c]\nenabled = true\ntype = collection\nlocation = other.repo\n[a]\nenabled = true\nlocation = one\n", &sources).unwrap();
    assert_eq!(manager.plugins().len(), 2);
    assert!(manager.plugins().contains_key("b"));
    assert!(!manager.plugins().contains_key("c"));
    manager.load_into_plugins("[a]\nenabled = true\nlocation = two\n", &sources).unwrap();
    assert_eq!(manager.plugins().get("a").unwrap().get_location(), "two");
    assert_eq!(manager.plugins().len(), 2);
    let mut manager = PluginManager::new();
    manager.read_repos("other.repo", &sources).unwrap();
    assert_eq!(manager.plugins().len(), 1);
    assert!(matches!(manager.read_repos("missing", &sources), Err(ResolveError::CatalogUnreadable(_))));
    assert!(matches!(manager.load_into_plugins("[c]\ntype = collection\nlocation = missing\n", &sources), Err(ResolveError::CatalogUnreadable(_))));
    assert_eq!(manager.plugins().len(), 1);
}

#[test]
fn list_writes_the_blocks_in_the_order_of_the_registry() {
    let manager = manager_of("[a]\nenabled = true\ntype = local\nlocation = /src/a\n[g]\nenabled = true\nlocation = https://example/g.git\n[a]\nenabled = true\ntype = local\nlocation = /src/a2\n");
    assert_eq!(
        manager.list(),
        "[a]\nenabled=true\ntype=local\nlocation=/src/a2\n\n[g]\nenabled=true\ntype=repo\nlocation=https://example/g.git\n\n"
    );
    let again = manager_of(&manager.list());
    assert_eq!(again.list(), manager.list());
}

#[test]
fn update_is_for_the_first_catalog_and_then_the_others() {
    let manager = PluginManager::new();
    assert_eq!(manager.update(&names(&[])), names(&["plugins.repo"]));
    assert_eq!(manager.update(&names(&["repos/b", "repos/a"])), names(&["plugins.repo", "repos/b", "repos/a"]));
}

#[test]
fn get_remote_from_config_takes_the_first_remote() {
    assert_eq!(PluginManager::get_remote_from_config("remote = https://example/catalog\n[a]\n"), Some("https://example/catalog".to_string()));
    assert_eq!(PluginManager::get_remote_from_config("[a]\nenabled = true\n  remote=https://one?x=1&y=2  \nremote = https://two\n"), Some("https://one?x=1&y=2".to_string()));
    assert_eq!(PluginManager::get_remote_from_config("remote\nremote: https://x\nremotes = y\n# remote = z\n"), None);
    assert_eq!(PluginManager::get_remote_from_config("a remote place\nlocation = remote\n"), None);
    assert_eq!(PluginManager::get_remote_from_config(""), None);
    assert_eq!(PluginManager::get_remote_from_config("remote =\n"), Some("".to_string()));
}

#[test]
fn update_repo_fetches_where_the_catalog_names_a_remote() {
    assert_eq!(call(&PluginManager::update_repo("plugins.repo", "remote = https://example/catalog\n[a]\n")), "fetch https://example/catalog -> plugins.repo");
    assert_eq!(call(&PluginManager::update_repo("repos/x", "[a]\nenabled = true\n")), "skip NoRemote");
    let mut ledger = Ledger::from_text("a\n");
    let step = PluginManager::update_repo("plugins.repo", "remote = https://example/catalog\n");
    assert_eq!(PluginManager::complete(&mut ledger, "", &step, Outcome::Exited(0), None), Status::Done);
    assert_eq!(PluginManager::complete(&mut ledger, "", &step, Outcome::Failed, None), Status::BackendFailure(Outcome::Failed));
    assert_eq!(ledger.all(), names(&["a"]));
}
