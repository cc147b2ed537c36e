//! The manifest operations: module and platform bookkeeping, duplicate and
//! existence checks, and the plugin-root guard.

use godot_rust_cli::manifest::{add_module_to_config, add_platform, add_target,
    create_initial_config, is_module_in_config, is_module_in_project_toml,
    remove_module_from_config_if_exists, remove_platform, remove_target, Config, Error};

fn fresh(name: &str, project: &str, is_plugin: bool) -> Config {
    create_initial_config(name.to_string(), project.to_string(), is_plugin)
}

#[test]
fn initial_config_is_empty() {
    let config = fresh("Foo", "Bar", false);
    assert_eq!(config.name, "Foo");
    assert_eq!(config.godot_project_name, "Bar");
    assert!(!config.is_plugin);
    assert_eq!(config.modules.len(), 0);
    assert_eq!(config.targets.len(), 0);
}

#[test]
fn create_and_destroy_module_restores_module_list() {
    let mut config = fresh("Foo", "Bar", false);
    assert!(add_module_to_config("Player", &mut config).is_ok());
    assert_eq!(config.modules, vec!["Player".to_string()]);
    assert!(is_module_in_config("Player", &config));
    assert!(remove_module_from_config_if_exists("Player", &mut config).is_ok());
    assert_eq!(config.modules.len(), 0);
    assert!(!is_module_in_config("Player", &config));
}

#[test]
fn duplicate_module_is_refused() {
    let mut config = fresh("Foo", "Bar", false);
    assert!(add_module_to_config("Player", &mut config).is_ok());
    assert_eq!(
        add_module_to_config("Player", &mut config),
        Err(Error::AlreadyExists)
    );
    assert_eq!(config.modules.len(), 1);
}

#[test]
fn module_duplicate_detection_is_case_sensitive() {
    // the duplicate rule for modules: exact, case-sensitive name equality
    let mut config = fresh("Foo", "Bar", false);
    assert!(add_module_to_config("Player", &mut config).is_ok());
    assert!(add_module_to_config("player", &mut config).is_ok());
    assert_eq!(config.modules, vec!["Player".to_string(), "player".to_string()]);
    assert_eq!(
        remove_module_from_config_if_exists("PLAYER", &mut config),
        Err(Error::NotFound)
    );
    assert!(remove_module_from_config_if_exists("player", &mut config).is_ok());
    assert_eq!(config.modules, vec!["Player".to_string()]);
}

#[test]
fn removing_absent_module_fails_not_found() {
    let mut config = fresh("Foo", "Bar", false);
    assert_eq!(
        remove_module_from_config_if_exists("Ghost", &mut config),
        Err(Error::NotFound)
    );
}

#[test]
fn plugin_root_module_is_never_tracked() {
    let mut config = fresh("Directory Browser", "platformer", true);
    // the root module: its snake form equals the library name's
    assert!(add_module_to_config("DirectoryBrowser", &mut config).is_ok());
    assert_eq!(config.modules.len(), 0);
    // and an attempt to remove it by name fails
    assert_eq!(
        remove_module_from_config_if_exists("DirectoryBrowser", &mut config),
        Err(Error::NotFound)
    );
    // an ordinary module is tracked as usual
    assert!(add_module_to_config("Explorer", &mut config).is_ok());
    assert_eq!(config.modules, vec!["Explorer".to_string()]);
}

#[test]
fn platform_add_and_remove_platform() {
    let mut config = fresh("PlatformerModules", "platformer", false);
    assert!(add_platform("Linux", &mut config).is_ok());
    assert_eq!(config.targets.len(), 1);
    assert_eq!(config.targets[0].0, "linux");
    assert_eq!(config.targets[0].1, "x86_64-unknown-linux-gnu");
    assert!(remove_platform("linux", &mut config).is_ok());
    assert_eq!(config.targets.len(), 0);
}

#[test]
fn adding_platform_twice_fails_already_exists() {
    let mut config = fresh("PlatformerModules", "platformer", false);
    assert!(add_platform("linux", &mut config).is_ok());
    assert_eq!(add_platform("linux", &mut config), Err(Error::AlreadyExists));
    assert_eq!(config.targets.len(), 1);
}

#[test]
fn platform_names_are_case_normalized() {
    let mut config = fresh("PlatformerModules", "platformer", false);
    assert!(add_platform("Windows", &mut config).is_ok());
    assert_eq!(add_platform("windows", &mut config), Err(Error::AlreadyExists));
    assert!(remove_platform("WINDOWS", &mut config).is_ok());
    assert_eq!(config.targets.len(), 0);
}

#[test]
fn unknown_platform_fails_not_found() {
    let mut config = fresh("PlatformerModules", "platformer", false);
    assert_eq!(add_platform("solaris", &mut config), Err(Error::NotFound));
    assert_eq!(remove_platform("solaris", &mut config), Err(Error::NotFound));
}

#[test]
fn add_and_remove_target() {
    let mut config = fresh("PlatformerModules", "platformer", false);
    assert!(add_target("x86_64-pc-windows-gnu", false, &mut config).is_ok());
    assert_eq!(
        config.targets,
        vec![("Windows.64".to_string(), "x86_64-pc-windows-gnu".to_string())]
    );
    // a second target for the same platform needs the overwrite flag
    assert_eq!(
        add_target("x86_64-pc-windows-gnu", false, &mut config),
        Err(Error::AlreadyExists)
    );
    assert!(add_target("x86_64-pc-windows-gnu", true, &mut config).is_ok());
    assert_eq!(config.targets.len(), 1);
    // a target for another platform gets its own entry
    assert!(add_target("i686-pc-windows-gnu", false, &mut config).is_ok());
    assert_eq!(
        config.targets,
        vec![
            ("Windows.64".to_string(), "x86_64-pc-windows-gnu".to_string()),
            ("Windows.32".to_string(), "i686-pc-windows-gnu".to_string()),
        ]
    );
    assert!(remove_target("Windows.32", &mut config).is_ok());
    assert_eq!(remove_target("Windows.32", &mut config), Err(Error::NotFound));
}

#[test]
fn unsupported_target_fails_not_found() {
    let mut config = fresh("PlatformerModules", "platformer", false);
    assert_eq!(
        add_target("mips-unknown-linux-gnu", false, &mut config),
        Err(Error::NotFound)
    );
}

#[test]
fn module_lookup_in_plain_list() {
    let modules = vec!["Player".to_string(), "Enemy".to_string()];
    assert!(is_module_in_project_toml(&modules, "Enemy"));
    assert!(!is_module_in_project_toml(&modules, "Level"));
}

#[test]
fn error_messages() {
    assert_eq!(Error::NotFound.message(), "the referenced item doesn't exist");
    assert_eq!(
        Error::AlreadyExists.message(),
        "an item with the same name already exists"
    );
}
