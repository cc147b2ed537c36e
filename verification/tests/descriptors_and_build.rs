//! The generated descriptor files, the build placement rules, the path
//! computations and the watch debounce decision.

use godot_rust_cli::build_utils::{build_for_platform, get_dynamic_library_ext,
    get_dynamic_library_filename, get_godot_project_bin_path, BuildCommand};
use godot_rust_cli::cargo_config::CargoConfig;
use godot_rust_cli::cross::{add_docker_image_to_cross_config, get_docker_image_name,
    get_dockerfile_name, Cross};
use godot_rust_cli::definitions::{add_gdnative_dep, create_cargo_lib};
use godot_rust_cli::gdnlib::Gdnlib;
use godot_rust_cli::gdns_file::GdnsFile;
use godot_rust_cli::manifest::Error;
use godot_rust_cli::paths::{get_absolute_path, get_gdnlib_resource_path, get_gdns_directory,
    get_gdns_file_name, get_module_file_path, get_path_to_gdnlib_file};
use godot_rust_cli::platforms::{get_native_platform, get_platform_toolchain, get_target_platform};
use godot_rust_cli::plugin_config::PluginConfig;
use godot_rust_cli::templates::module_source;
use godot_rust_cli::watch::should_rebuild;

#[test]
fn gdns_file_text() {
    let gdns = GdnsFile::new("Player", "gdnative/platformer_modules");
    assert_eq!(
        gdns.to_string(),
        "[gd_resource type=\"NativeScript\" load_steps=2 format=2]\n\n[ext_resource path=\"res://gdnative/platformer_modules.gdnlib\" type=\"GDNativeLibrary\" id=1]\n\n[resource]\n\nresource_name = \"Player\"\nclass_name = \"Player\"\nlibrary = ExtResource( 1 )\n"
    );
}

#[test]
fn gdnlib_entries_for_a_plain_project() {
    let gdnlib = Gdnlib::new("platformer_modules", false);
    let text = gdnlib.to_string();
    assert!(text.contains("\"OSX.64\" = \"res://gdnative/bin/macos/libplatformer_modules.dylib\""));
    assert!(text.contains("\"Windows.64\" = \"res://gdnative/bin/windows/platformer_modules.dll\""));
    assert!(text.contains("\"X11.64\" = \"res://gdnative/bin/linux/libplatformer_modules.so\""));
    assert!(text.contains(
        "\"Android.arm64-v8a\" = \"res://gdnative/bin/android/aarch64-linux-android/libplatformer_modules.so\""
    ));
    assert!(text.contains(
        "\"Android.x86_64\" = \"res://gdnative/bin/android/x86_64-linux-android/libplatformer_modules.so\""
    ));
    assert!(text.contains("symbol_prefix = \"godot_\""));
    assert!(text.contains("singleton = false"));
    assert!(text.contains("load_once = true"));
    assert!(text.contains("reloadable = true"));
    assert!(text.contains("\"X11.64\" = []"));
}

#[test]
fn gdnlib_entries_for_a_plugin_project() {
    let gdnlib = Gdnlib::new("directory_browser", true);
    let text = gdnlib.to_string();
    assert!(text.contains(
        "\"Windows.64\" = \"res://addons/directory_browser/gdnative/bin/windows/directory_browser.dll\""
    ));
    assert!(text.contains(
        "\"OSX.64\" = \"res://addons/directory_browser/gdnative/bin/macos/libdirectory_browser.dylib\""
    ));
    assert!(text.contains(
        "\"X11.64\" = \"res://addons/directory_browser/gdnative/bin/linux/libdirectory_browser.so\""
    ));
}

#[test]
fn full_gdnlib_text() {
    let gdnlib = Gdnlib::new("m", false);
    assert_eq!(
        gdnlib.to_string(),
        "[general]\n\nsingleton = false\nload_once = true\nsymbol_prefix = \"godot_\"\nreloadable = true\n\n[entry]\n\n\"OSX.64\" = \"res://gdnative/bin/macos/libm.dylib\"\n\"Windows.64\" = \"res://gdnative/bin/windows/m.dll\"\n\"X11.64\" = \"res://gdnative/bin/linux/libm.so\"\n\"Android.arm64-v8a\" = \"res://gdnative/bin/android/aarch64-linux-android/libm.so\"\n\"Android.x86_64\" = \"res://gdnative/bin/android/x86_64-linux-android/libm.so\"\n\n[dependencies]\n\n\"OSX.64\" = []\n\"Windows.64\" = []\n\"X11.64\" = []\n\"Android.arm64-v8a\" = []\n\"Android.x86_64\" = []\n"
    );
}

#[test]
fn plugin_config_text() {
    let cfg = PluginConfig::new("Directory Browser", "directory_browser.gdns");
    assert_eq!(
        cfg.to_string(),
        "[plugin]\nname = \"Directory Browser\"\ndescription = \"\"\nauthor = \"\"\nversion = \"1.0\"\nscript = \"directory_browser.gdns\"\n"
    );
}

#[test]
fn cargo_config_text() {
    let cfg = CargoConfig::new("/home/user/platformer");
    assert_eq!(
        cfg.to_string(),
        "[env]\nGODOT_RUST_CLI_PROJECT_PATH = \"/home/user/platformer\"\n"
    );
}

#[test]
fn cargo_defaults() {
    assert_eq!(create_cargo_lib().crate_type, vec!["cdylib".to_string()]);
    assert_eq!(add_gdnative_dep(), "0.9.1");
}

#[test]
fn native_build_never_takes_the_cross_path() {
    let plan = build_for_platform("platformer_modules", "linux", "linux", false, false).unwrap();
    assert!(matches!(plan.command, BuildCommand::Native));
    assert_eq!(
        plan.dynamic_library_file_path,
        "target/x86_64-unknown-linux-gnu/debug/libplatformer_modules.so"
    );
    assert_eq!(plan.godot_project_bin_path, "gdnative/bin/linux");
}

#[test]
fn cross_build_carries_the_resolved_triple() {
    let plan = build_for_platform("platformer_modules", "windows", "linux", true, false).unwrap();
    match plan.command {
        BuildCommand::Cross(triple) => assert_eq!(triple, "x86_64-pc-windows-gnu"),
        BuildCommand::Native => panic!("a foreign platform must cross-compile"),
    }
    assert_eq!(
        plan.dynamic_library_file_path,
        "target/x86_64-pc-windows-gnu/release/platformer_modules.dll"
    );
    assert_eq!(plan.godot_project_bin_path, "gdnative/bin/windows");
}

#[test]
fn plugin_binaries_land_under_the_addon_directory() {
    let plan = build_for_platform("directory_browser", "macos", "linux", false, true).unwrap();
    assert_eq!(
        plan.godot_project_bin_path,
        "addons/directory_browser/gdnative/bin/macos"
    );
    assert_eq!(
        plan.dynamic_library_file_path,
        "target/x86_64-apple-darwin/debug/libdirectory_browser.dylib"
    );
}

#[test]
fn destination_path_is_deterministic() {
    let a = get_godot_project_bin_path("m", "linux", true);
    let b = get_godot_project_bin_path("m", "linux", true);
    assert_eq!(a, b);
    assert_eq!(a, "addons/m/gdnative/bin/linux");
}

#[test]
fn unknown_platform_cannot_be_built() {
    assert_eq!(
        build_for_platform("m", "solaris", "linux", false, false).unwrap_err(),
        Error::NotFound
    );
}

#[test]
fn dynamic_library_naming() {
    assert_eq!(get_dynamic_library_ext("windows"), "dll");
    assert_eq!(get_dynamic_library_ext("macos"), "dylib");
    assert_eq!(get_dynamic_library_ext("linux"), "so");
    assert_eq!(get_dynamic_library_filename("m", "windows"), "m.dll");
    assert_eq!(get_dynamic_library_filename("m", "linux"), "libm.so");
}

#[test]
fn platform_tables() {
    assert_eq!(get_platform_toolchain("linux"), Some("x86_64-unknown-linux-gnu"));
    assert_eq!(get_platform_toolchain("android.arm"), Some("aarch64-linux-android"));
    assert_eq!(get_platform_toolchain("beos"), None);
    assert_eq!(get_target_platform("aarch64-linux-android"), Some("Android.arm64-v8a"));
    assert_eq!(get_target_platform("riscv64gc-unknown-linux-gnu"), None);
    assert_eq!(get_native_platform("linux", "x86_64"), "X11.x64");
    assert_eq!(get_native_platform("windows", "x86"), "Windows.x32");
    assert_eq!(get_native_platform("macos", "x86_64"), "OSX.x64");
}

#[test]
fn absolute_paths() {
    assert_eq!(get_absolute_path("/already/abs", "/cwd"), "/already/abs");
    assert_eq!(get_absolute_path("rel/path", "/cwd"), "/cwd/rel/path");
}

#[test]
fn artifact_paths() {
    assert_eq!(get_path_to_gdnlib_file("m", false), "gdnative/m.gdnlib");
    assert_eq!(get_path_to_gdnlib_file("m", true), "addons/m/gdnative/m.gdnlib");
    assert_eq!(get_gdns_directory("m", false), "gdnative");
    assert_eq!(get_gdns_directory("m", true), "addons/m/gdnative");
    assert_eq!(get_gdnlib_resource_path("m", false), "gdnative/m");
    assert_eq!(get_gdnlib_resource_path("m", true), "addons/m/gdnative/m");
    assert_eq!(get_gdns_file_name("player"), "player.gdns");
    assert_eq!(get_module_file_path("player"), "src/player.rs");
}

#[test]
fn docker_images_and_cross_config() {
    assert_eq!(get_docker_image_name("windows"), Some("godot-rust-cli-platform-windows:v1"));
    assert_eq!(get_docker_image_name("linux"), None);
    assert_eq!(get_dockerfile_name("windows"), Some("Dockerfile.x86_64-pc-windows-gnu"));
    assert_eq!(get_dockerfile_name("linux"), None);

    let mut cross = Cross::new();
    assert_eq!(cross.to_string(), "");
    add_docker_image_to_cross_config("linux", &mut cross);
    assert_eq!(cross.to_string(), "");
    add_docker_image_to_cross_config("windows", &mut cross);
    assert_eq!(
        cross.to_string(),
        "[target.x86_64-pc-windows-gnu]\nimage = \"godot-rust-cli-platform-windows:v1\"\n"
    );
}

#[test]
fn module_source_templates() {
    let plain = module_source("Player", false);
    assert!(plain.contains("use gdnative::api::Node2D;"));
    assert!(plain.contains("pub struct Player;"));
    assert!(plain.contains("impl Player {"));
    assert!(plain.contains("Player {}"));
    let plugin = module_source("Explorer", true);
    assert!(plugin.contains("use gdnative::api::EditorPlugin;"));
    assert!(plugin.contains("#[user_data(user_data::LocalCellData<Explorer>)]"));
    assert!(plugin.contains("pub struct Explorer;"));
    assert!(plugin.contains("impl Explorer {"));
}

#[test]
fn rebuild_only_on_fresh_writes() {
    // a write in the same second as the previous rebuild's completion is
    // rejected; a later write rebuilds; other events never do
    assert!(!should_rebuild(true, 0));
    assert!(should_rebuild(true, 3));
    assert!(!should_rebuild(false, 0));
    assert!(!should_rebuild(false, 3));
}
