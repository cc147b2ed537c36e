//! The entry-point editor: inserting and removing module declaration and
//! registration lines, and the round trip between the two.

use godot_rust_cli::entrypoint::{add_module_to_lib, create_initial_lib_file,
    remove_module_from_lib_file};
use godot_rust_cli::manifest::{add_module_to_config, create_initial_config};
use godot_rust_cli::text::{join_lines, split_lines};

const INITIAL: &str = "use gdnative::prelude::*;\nfn init(handle: InitHandle) {\n}\ngodot_init!(init);";

#[test]
fn initial_lib_file_contents() {
    assert_eq!(create_initial_lib_file(), INITIAL);
}

#[test]
fn first_module_inserts_declaration_and_registration() {
    let config = create_initial_config("PlatformerModules".to_string(), "platformer".to_string(), false);
    let with_player = add_module_to_lib("Player", &config, INITIAL);
    assert_eq!(
        with_player,
        "mod player;\nuse gdnative::prelude::*;\nfn init(handle: InitHandle) {\nhandle.add_class::<player::Player>();\n}\ngodot_init!(init);"
    );
}

#[test]
fn second_module_goes_after_the_first() {
    let mut config = create_initial_config("PlatformerModules".to_string(), "platformer".to_string(), false);
    let with_player = add_module_to_lib("Player", &config, INITIAL);
    add_module_to_config("Player", &mut config).unwrap();
    let with_both = add_module_to_lib("Enemy", &config, &with_player);
    assert_eq!(
        with_both,
        "mod player;\nmod enemy;\nuse gdnative::prelude::*;\nfn init(handle: InitHandle) {\nhandle.add_class::<player::Player>();\nhandle.add_class::<enemy::Enemy>();\n}\ngodot_init!(init);"
    );
}

#[test]
fn each_module_registers_after_the_last_registration() {
    let mut config = create_initial_config("PlatformerModules".to_string(), "platformer".to_string(), false);
    let mut text = create_initial_lib_file();
    for name in ["Player", "Enemy", "Level"] {
        text = add_module_to_lib(name, &config, &text);
        add_module_to_config(name, &mut config).unwrap();
    }
    assert_eq!(
        text,
        "mod player;\nmod enemy;\nmod level;\nuse gdnative::prelude::*;\nfn init(handle: InitHandle) {\nhandle.add_class::<player::Player>();\nhandle.add_class::<enemy::Enemy>();\nhandle.add_class::<level::Level>();\n}\ngodot_init!(init);"
    );
    // destroying the three in any order restores the initial source
    text = remove_module_from_lib_file("Enemy", &text);
    text = remove_module_from_lib_file("Level", &text);
    text = remove_module_from_lib_file("Player", &text);
    assert_eq!(text, INITIAL);
}

#[test]
fn create_then_destroy_restores_the_text() {
    let config = create_initial_config("PlatformerModules".to_string(), "platformer".to_string(), false);
    let with_player = add_module_to_lib("Player", &config, INITIAL);
    let restored = remove_module_from_lib_file("Player", &with_player);
    assert_eq!(restored, INITIAL);
}

#[test]
fn destroy_removes_indented_lines_too() {
    let text = "mod player;\nuse gdnative::prelude::*;\nfn init(handle: InitHandle) {\n    handle.add_class::<player::Player>();\n}\ngodot_init!(init);";
    let removed = remove_module_from_lib_file("Player", text);
    assert_eq!(removed, INITIAL);
}

#[test]
fn destroy_leaves_hand_edited_lines_alone() {
    // a line that no longer matches exactly silently stays
    let text = "mod player; // keep me\nuse gdnative::prelude::*;\nfn init(handle: InitHandle) {\n}\ngodot_init!(init);";
    let removed = remove_module_from_lib_file("Player", text);
    assert_eq!(removed, text);
}

#[test]
fn plugin_modules_register_as_tool_classes() {
    let config = create_initial_config("Directory Browser".to_string(), "platformer".to_string(), true);
    let with_root = add_module_to_lib("Directory Browser", &config, INITIAL);
    assert_eq!(
        with_root,
        "mod directory_browser;\nuse gdnative::prelude::*;\nfn init(handle: InitHandle) {\nhandle.add_tool_class::<directory_browser::DirectoryBrowser>();\n}\ngodot_init!(init);"
    );
    // the root module is not tracked, so the next module still counts as the
    // first and lands right after the initialization function's opening
    let with_explorer = add_module_to_lib("Explorer", &config, &with_root);
    assert_eq!(
        with_explorer,
        "mod directory_browser;\nmod explorer;\nuse gdnative::prelude::*;\nfn init(handle: InitHandle) {\nhandle.add_tool_class::<explorer::Explorer>();\nhandle.add_tool_class::<directory_browser::DirectoryBrowser>();\n}\ngodot_init!(init);"
    );
}

#[test]
fn plugin_destroy_module_restores_plugin_text() {
    let config = create_initial_config("Directory Browser".to_string(), "platformer".to_string(), true);
    let with_root = add_module_to_lib("Directory Browser", &config, INITIAL);
    let with_explorer = add_module_to_lib("Explorer", &config, &with_root);
    let destroyed = remove_module_from_lib_file("Explorer", &with_explorer);
    assert_eq!(destroyed, with_root);
}

#[test]
fn multi_word_names_are_case_converted() {
    let config = create_initial_config("PlatformerModules".to_string(), "platformer".to_string(), false);
    let text = add_module_to_lib("PlayerCharacter", &config, INITIAL);
    assert!(text.contains("mod player_character;"));
    assert!(text.contains("handle.add_class::<player_character::PlayerCharacter>();"));
}

#[test]
fn split_and_join_lines_round_trip() {
    let text = "one\n\nthree\n";
    let lines = split_lines(text);
    assert_eq!(lines, vec!["one".to_string(), "".to_string(), "three".to_string(), "".to_string()]);
    assert_eq!(join_lines(&lines), text);
}
