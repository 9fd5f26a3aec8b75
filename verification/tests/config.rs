use rpi_mesh_plugin_manager::config::{parse_config, ConfigEntry, ConfigKey, PathKind};
use rpi_mesh_plugin_manager::plugin_manager::PluginManager;

fn pairs(entries: &[ConfigEntry]) -> Vec<(ConfigKey, String)> {
    entries.iter().map(|e| (e.key, e.value.clone())).collect()
}

fn places(manager: &PluginManager) -> [String; 5] {
    [
        manager.config_location(),
        manager.official_repo_location(),
        manager.repo_folder_location(),
        manager.installed_cache_location(),
        manager.plugin_folder_location(),
    ]
}

#[test]
fn parse_config_reads_the_four_known_keys() {
    let entries = parse_config(
        "installed_cache_location: /var/installed\nofficial_repo_location: /etc/plugins.repo\nrepo_folder_location: /etc/repos\nplugin_folder_location: /opt/plugins\n",
    );
    assert_eq!(
        pairs(&entries),
        vec![
            (ConfigKey::InstalledCache, "/var/installed".to_string()),
            (ConfigKey::OfficialRepo, "/etc/plugins.repo".to_string()),
            (ConfigKey::RepoFolder, "/etc/repos".to_string()),
            (ConfigKey::PluginFolder, "/opt/plugins".to_string()),
        ]
    );
}

#[test]
fn parse_config_passes_over_other_lines() {
    let entries = parse_config("# comment\n\nunknown: x\nplugin_folder_location\nplugin_folder_location = /x\n  plugin_folder_location  :   /opt/plugins  \r\n");
    assert_eq!(pairs(&entries), vec![(ConfigKey::PluginFolder, "/opt/plugins".to_string())]);
    assert_eq!(parse_config("").len(), 0);
}

#[test]
fn parse_config_takes_the_value_up_to_the_next_colon() {
    let entries = parse_config("official_repo_location: a : b\nrepo_folder_location:\nplugin_folder_location::x\n");
    assert_eq!(
        pairs(&entries),
        vec![
            (ConfigKey::OfficialRepo, "a".to_string()),
            (ConfigKey::RepoFolder, "".to_string()),
            (ConfigKey::PluginFolder, "".to_string()),
        ]
    );
}

#[test]
fn config_keys_want_files_and_directories() {
    assert_eq!(ConfigKey::InstalledCache.wanted(), PathKind::File);
    assert_eq!(ConfigKey::OfficialRepo.wanted(), PathKind::File);
    assert_eq!(ConfigKey::RepoFolder.wanted(), PathKind::Directory);
    assert_eq!(ConfigKey::PluginFolder.wanted(), PathKind::Directory);
}

#[test]
fn manager_starts_at_the_usual_places() {
    let manager = PluginManager::new();
    assert_eq!(
        places(&manager),
        ["config.conf", "plugins.repo", "repos", ".installed", "plugins"].map(String::from)
    );
    assert_eq!(manager.plugins().len(), 0);
    assert_eq!(manager.list(), "");
}

#[test]
fn read_config_moves_a_place_where_the_value_names_what_is_wanted() {
    let mut manager = PluginManager::new();
    let entries = parse_config(
        "installed_cache_location: /var/installed\nofficial_repo_location: /etc/plugins.repo\nrepo_folder_location: /etc/repos\nplugin_folder_location: /opt/plugins\n",
    );
    manager.read_config(
        &entries,
        &vec![PathKind::File, PathKind::File, PathKind::Directory, PathKind::Directory],
    );
    assert_eq!(
        places(&manager),
        ["config.conf", "/etc/plugins.repo", "/etc/repos", "/var/installed", "/opt/plugins"].map(String::from)
    );
}

#[test]
fn read_config_leaves_a_place_where_the_value_names_something_else() {
    let mut manager = PluginManager::new();
    let entries = parse_config(
        "installed_cache_location: /var/installed\nofficial_repo_location: /etc/plugins.repo\nrepo_folder_location: /etc/repos\nplugin_folder_location: /opt/plugins\n",
    );
    manager.read_config(
        &entries,
        &vec![PathKind::Directory, PathKind::Missing, PathKind::File, PathKind::Missing],
    );
    assert_eq!(
        places(&manager),
        ["config.conf", "plugins.repo", "repos", ".installed", "plugins"].map(String::from)
    );
}

#[test]
fn read_config_takes_an_entry_without_kind_as_naming_nothing() {
    let mut manager = PluginManager::new();
    let entries = parse_config("plugin_folder_location: /one\nplugin_folder_location: /two\nplugin_folder_location: /three\n");
    manager.read_config(&entries, &vec![PathKind::Directory, PathKind::Directory]);
    assert_eq!(manager.plugin_folder_location(), "/two");
    manager.read_config(&entries, &vec![]);
    assert_eq!(manager.plugin_folder_location(), "/two");
    manager.read_config(&vec![], &vec![PathKind::Directory]);
    assert_eq!(manager.plugin_folder_location(), "/two");
}
