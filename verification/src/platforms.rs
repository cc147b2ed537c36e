//! The fixed tables behind platform handling: which platforms can be built
//! for and with which toolchain triple, which toolchain targets are accepted
//! and which Godot platform each corresponds to, and the name of the
//! invoking machine's platform.

use vstd::prelude::*;
use vstd::string::*;

use crate::text::str_eq;

verus! {

/// The toolchain triple a platform is cross-compiled with, or `None` for a
/// platform the tool does not support.
pub open spec fn spec_toolchain(platform: Seq<char>) -> Option<Seq<char>> {
    if platform == "android.arm"@ {
        Some("aarch64-linux-android"@)
    } else if platform == "android"@ {
        Some("x86_64-linux-android"@)
    } else if platform == "windows"@ {
        Some("x86_64-pc-windows-gnu"@)
    } else if platform == "linux"@ {
        Some("x86_64-unknown-linux-gnu"@)
    } else if platform == "macos"@ {
        Some("x86_64-apple-darwin"@)
    } else {
        None
    }
}

/// Resolves a platform name to its toolchain triple.
pub fn get_platform_toolchain(platform: &str) -> (r: Option<&'static str>)
    ensures
        match r {
            Some(t) => spec_toolchain(platform@) == Some(t@),
            None => spec_toolchain(platform@) is None,
        },
{
    if str_eq(platform, "android.arm") {
        Some("aarch64-linux-android")
    } else if str_eq(platform, "android") {
        Some("x86_64-linux-android")
    } else if str_eq(platform, "windows") {
        Some("x86_64-pc-windows-gnu")
    } else if str_eq(platform, "linux") {
        Some("x86_64-unknown-linux-gnu")
    } else if str_eq(platform, "macos") {
        Some("x86_64-apple-darwin")
    } else {
        None
    }
}

/// The Godot platform a toolchain target corresponds to, or `None` for a
/// target the tool does not support.
pub open spec fn spec_target_platform(target: Seq<char>) -> Option<Seq<char>> {
    if target == "armv7-linux-androideabi"@ {
        Some("Android.armeabi-v7a"@)
    } else if target == "aarch64-linux-android"@ {
        Some("Android.arm64-v8a"@)
    } else if target == "i686-linux-android"@ {
        Some("Android.x86"@)
    } else if target == "x86_64-linux-android"@ {
        Some("Android.x86_64"@)
    } else if target == "x86_64-pc-windows-gnu"@ {
        Some("Windows.64"@)
    } else if target == "i686-pc-windows-gnu"@ {
        Some("Windows.32"@)
    } else if target == "x86_64-unknown-linux-gnu"@ {
        Some("Linux.64"@)
    } else if target == "i686-unknown-linux-gnu"@ {
        Some("Linux.32"@)
    } else {
        None
    }
}

/// Resolves a toolchain target to the Godot platform it serves.
pub fn get_target_platform(target: &str) -> (r: Option<&'static str>)
    ensures
        match r {
            Some(p) => spec_target_platform(target@) == Some(p@),
            None => spec_target_platform(target@) is None,
        },
{
    if str_eq(target, "armv7-linux-androideabi") {
        Some("Android.armeabi-v7a")
    } else if str_eq(target, "aarch64-linux-android") {
        Some("Android.arm64-v8a")
    } else if str_eq(target, "i686-linux-android") {
        Some("Android.x86")
    } else if str_eq(target, "x86_64-linux-android") {
        Some("Android.x86_64")
    } else if str_eq(target, "x86_64-pc-windows-gnu") {
        Some("Windows.64")
    } else if str_eq(target, "i686-pc-windows-gnu") {
        Some("Windows.32")
    } else if str_eq(target, "x86_64-unknown-linux-gnu") {
        Some("Linux.64")
    } else if str_eq(target, "i686-unknown-linux-gnu") {
        Some("Linux.32")
    } else {
        None
    }
}

/// The `OS.arch` identifier Godot uses for a machine, from the operating
/// system and architecture names the standard library reports.
pub open spec fn spec_native_platform(os: Seq<char>, arch: Seq<char>) -> Seq<char> {
    let os_part: Seq<char> = if os == "windows"@ {
        "Windows"@
    } else if os == "macos"@ {
        "OSX"@
    } else {
        "X11"@
    };
    let arch_part: Seq<char> = if arch == "x86"@ {
        "x32"@
    } else {
        "x64"@
    };
    os_part + "."@ + arch_part
}

/// Returns the Godot platform identifier of the machine whose operating
/// system and architecture names are given.
pub fn get_native_platform(os: &str, arch: &str) -> (r: String)
    ensures
        r@ == spec_native_platform(os@, arch@),
{
    let mut r = if str_eq(os, "windows") {
        "Windows".to_owned()
    } else if str_eq(os, "macos") {
        "OSX".to_owned()
    } else {
        "X11".to_owned()
    };
    r.append(".");
    if str_eq(arch, "x86") {
        r.append("x32");
    } else {
        r.append("x64");
    }
    r
}

} // verus!
