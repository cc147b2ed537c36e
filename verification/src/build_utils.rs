//! Build placement: which command builds a platform's dynamic library, what
//! the produced binary is called, where it is read from and where it is
//! copied to. Everything here is a pure function of the library name, the
//! platform, the invoking machine's platform and the build flags; running
//! the commands and copying the files is the caller's business.

use vstd::prelude::*;
use vstd::string::*;

use crate::manifest::Error;
use crate::platforms::{get_platform_toolchain, spec_toolchain};
use crate::text::str_eq;

verus! {

/// How a platform's library is built: with the local toolchain, or with the
/// cross-compilation tool and the platform's toolchain triple.
#[derive(Debug)]
pub enum BuildCommand {
    Native,
    Cross(String),
}

/// Everything the caller needs to run one platform's build and place its
/// product.
#[derive(Debug)]
pub struct BuildPlan {
    /// The command to run.
    pub command: BuildCommand,
    /// Where the built dynamic library lies, relative to the library root.
    pub dynamic_library_file_path: String,
    /// Where it is copied to, relative to the Godot project root.
    pub godot_project_bin_path: String,
}

/// The platform-specific file-name prefix of a dynamic library.
pub open spec fn spec_library_prefix(platform: Seq<char>) -> Seq<char> {
    if platform == "windows"@ {
        Seq::empty()
    } else {
        "lib"@
    }
}

/// The platform-specific file-name extension of a dynamic library.
pub open spec fn spec_library_ext(platform: Seq<char>) -> Seq<char> {
    if platform == "windows"@ {
        "dll"@
    } else if platform == "macos"@ {
        "dylib"@
    } else {
        "so"@
    }
}

/// The file name of the dynamic library built for a platform.
pub open spec fn spec_library_filename(name: Seq<char>, platform: Seq<char>) -> Seq<char> {
    spec_library_prefix(platform) + name + "."@ + spec_library_ext(platform)
}

/// The subdirectory a build's product lands in.
pub open spec fn spec_profile_dir(is_release: bool) -> Seq<char> {
    if is_release {
        "release"@
    } else {
        "debug"@
    }
}

/// Where the built dynamic library lies, relative to the library root.
pub open spec fn spec_library_file_path(
    name: Seq<char>,
    platform: Seq<char>,
    is_release: bool,
) -> Seq<char> {
    "target/"@ + spec_toolchain(platform)->0 + "/"@ + spec_profile_dir(is_release) + "/"@
        + spec_library_filename(name, platform)
}

/// Where a platform's binaries live in the Godot project: under the
/// library's addon directory for a plugin, under a flat binary tree
/// otherwise. A pure function of the library name, the platform, and whether
/// the project is a plugin.
pub open spec fn spec_bin_path(name: Seq<char>, platform: Seq<char>, is_plugin: bool) -> Seq<
    char,
> {
    if is_plugin {
        "addons/"@ + name + "/gdnative/bin/"@ + platform
    } else {
        "gdnative/bin/"@ + platform
    }
}

/// Returns the file-name extension of a dynamic library on the given
/// platform.
pub fn get_dynamic_library_ext(platform: &str) -> (ext: &'static str)
    ensures
        ext@ == spec_library_ext(platform@),
{
    if str_eq(platform, "windows") {
        "dll"
    } else if str_eq(platform, "macos") {
        "dylib"
    } else {
        "so"
    }
}

/// Builds the file name of the dynamic library built for a platform.
pub fn get_dynamic_library_filename(rust_library_name: &str, platform: &str) -> (r: String)
    ensures
        r@ == spec_library_filename(rust_library_name@, platform@),
{
    let mut r = if str_eq(platform, "windows") {
        String::new()
    } else {
        "lib".to_owned()
    };
    r.append(rust_library_name);
    r.append(".");
    r.append(get_dynamic_library_ext(platform));
    proof {
        assert(r@ =~= spec_library_filename(rust_library_name@, platform@));
    }
    r
}

/// Builds the directory the built binaries of a platform are copied to,
/// relative to the Godot project root.
pub fn get_godot_project_bin_path(rust_library_name: &str, platform: &str, is_plugin: bool) -> (r:
    String)
    ensures
        r@ == spec_bin_path(rust_library_name@, platform@, is_plugin),
{
    if is_plugin {
        let mut r = "addons/".to_owned();
        r.append(rust_library_name);
        r.append("/gdnative/bin/");
        r.append(platform);
        r
    } else {
        let mut r = "gdnative/bin/".to_owned();
        r.append(platform);
        r
    }
}

/// Resolves one platform's build: the toolchain decides where the binary
/// lies; the command is the local one exactly when the platform is the
/// invoking machine's, and the cross-compilation tool with the platform's
/// triple otherwise. An unsupported platform fails with
/// [`Error::NotFound`], and only such a platform does.
pub fn build_for_platform(
    rust_library_name: &str,
    platform: &str,
    native_platform: &str,
    is_release: bool,
    is_plugin: bool,
) -> (r: Result<BuildPlan, Error>)
    ensures
        r is Err <==> spec_toolchain(platform@) is None,
        r is Err ==> r->Err_0 == Error::NotFound,
        r is Ok ==> {
            let plan = r->Ok_0;
            &&& (plan.command is Native <==> platform@ == native_platform@)
            &&& (plan.command is Cross ==> plan.command->0@ == spec_toolchain(platform@)->0)
            &&& plan.dynamic_library_file_path@ == spec_library_file_path(rust_library_name@,
                platform@, is_release)
            &&& plan.godot_project_bin_path@ == spec_bin_path(rust_library_name@, platform@,
                is_plugin)
        },
{
    let toolchain = match get_platform_toolchain(platform) {
        None => {
            return Err(Error::NotFound);
        },
        Some(t) => t,
    };
    let mut source = "target/".to_owned();
    source.append(toolchain);
    source.append("/");
    if is_release {
        source.append("release");
    } else {
        source.append("debug");
    }
    source.append("/");
    let filename = get_dynamic_library_filename(rust_library_name, platform);
    source.append(filename.as_str());
    proof {
        assert(source@ =~= spec_library_file_path(rust_library_name@, platform@, is_release));
    }
    let command = if str_eq(platform, native_platform) {
        BuildCommand::Native
    } else {
        BuildCommand::Cross(toolchain.to_owned())
    };
    let dest = get_godot_project_bin_path(rust_library_name, platform, is_plugin);
    Ok(BuildPlan { command, dynamic_library_file_path: source, godot_project_bin_path: dest })
}

/// Law: a build for the invoking machine's own platform never takes the
/// cross-compilation path, and a build for any other platform always does,
/// with that platform's toolchain triple. Stated over the contract of
/// [`build_for_platform`]: its plan's command is `Native` exactly when the
/// platform equals the native one, and otherwise carries
/// `spec_toolchain(platform)`.
pub proof fn lemma_build_strategy(plan: BuildPlan, platform: Seq<char>, native: Seq<char>)
    requires
        plan.command is Native <==> platform == native,
        plan.command is Cross ==> plan.command->0@ == spec_toolchain(platform)->0,
    ensures
        platform == native ==> !(plan.command is Cross),
        platform != native ==> plan.command is Cross && plan.command->0@ == spec_toolchain(
            platform,
        )->0,
{
}

/// Law: the destination path is a pure function of the library name, the
/// platform and the plugin flag; equal inputs give equal paths.
pub proof fn lemma_bin_path_deterministic(
    name1: Seq<char>,
    platform1: Seq<char>,
    is_plugin1: bool,
    name2: Seq<char>,
    platform2: Seq<char>,
    is_plugin2: bool,
)
    requires
        name1 == name2,
        platform1 == platform2,
        is_plugin1 == is_plugin2,
    ensures
        spec_bin_path(name1, platform1, is_plugin1) == spec_bin_path(name2, platform2, is_plugin2),
{
}

} // verus!
