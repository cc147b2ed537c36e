//! Project-relative artifact locations, and the one absolute-path decision
//! the tool makes without touching the disk: a path that is already absolute
//! is kept, a relative one is resolved against the current directory.

use vstd::prelude::*;
use vstd::string::*;

verus! {

/// Whether a path is absolute: it starts with a path separator.
pub open spec fn spec_is_absolute(path: Seq<char>) -> bool {
    path.len() > 0 && path[0] == '/'
}

/// The absolute form of a path: itself when it is already absolute, the
/// current directory with the path appended otherwise.
pub open spec fn spec_absolute_path(path: Seq<char>, current_dir: Seq<char>) -> Seq<char> {
    if spec_is_absolute(path) {
        path
    } else {
        current_dir + "/"@ + path
    }
}

/// Returns the absolute form of `path`, resolving a relative one against
/// `current_dir`. Canonicalizing the result against the file system is the
/// caller's business.
pub fn get_absolute_path(path: &str, current_dir: &str) -> (r: String)
    ensures
        r@ == spec_absolute_path(path@, current_dir@),
{
    proof {
        reveal_strlit("/");
    }
    let len = path.unicode_len();
    if len > 0 && path.get_char(0) == '/' {
        path.to_owned()
    } else {
        let mut r = current_dir.to_owned();
        r.append("/");
        r.append(path);
        r
    }
}

/// Where the library's descriptor file lives, relative to the Godot project
/// root: under the addon directory for a plugin, under the flat `gdnative`
/// directory otherwise.
pub open spec fn spec_gdnlib_file_path(name: Seq<char>, is_plugin: bool) -> Seq<char> {
    if is_plugin {
        "addons/"@ + name + "/gdnative/"@ + name + ".gdnlib"@
    } else {
        "gdnative/"@ + name + ".gdnlib"@
    }
}

/// Returns the path of the library's descriptor file, relative to the Godot
/// project root.
pub fn get_path_to_gdnlib_file(library_name_snake_case: &str, is_plugin: bool) -> (r: String)
    ensures
        r@ == spec_gdnlib_file_path(library_name_snake_case@, is_plugin),
{
    let mut r = if is_plugin {
        let mut p = "addons/".to_owned();
        p.append(library_name_snake_case);
        p.append("/gdnative/");
        p
    } else {
        "gdnative/".to_owned()
    };
    r.append(library_name_snake_case);
    r.append(".gdnlib");
    proof {
        assert(r@ =~= spec_gdnlib_file_path(library_name_snake_case@, is_plugin));
    }
    r
}

/// The directory a module's script descriptor goes into, relative to the
/// Godot project root.
pub open spec fn spec_gdns_directory(name: Seq<char>, is_plugin: bool) -> Seq<char> {
    if is_plugin {
        "addons/"@ + name + "/gdnative"@
    } else {
        "gdnative"@
    }
}

/// Returns the directory a module's script descriptor goes into, relative to
/// the Godot project root.
pub fn get_gdns_directory(library_name_snake_case: &str, is_plugin: bool) -> (r: String)
    ensures
        r@ == spec_gdns_directory(library_name_snake_case@, is_plugin),
{
    if is_plugin {
        let mut p = "addons/".to_owned();
        p.append(library_name_snake_case);
        p.append("/gdnative");
        proof {
            assert(p@ =~= spec_gdns_directory(library_name_snake_case@, is_plugin));
        }
        p
    } else {
        "gdnative".to_owned()
    }
}

/// The engine-resource path of the library descriptor a module's script
/// references, without its extension.
pub open spec fn spec_gdnlib_resource_path(name: Seq<char>, is_plugin: bool) -> Seq<char> {
    if is_plugin {
        "addons/"@ + name + "/gdnative/"@ + name
    } else {
        "gdnative/"@ + name
    }
}

/// Returns the engine-resource path of the library descriptor a module's
/// script references, without its extension.
pub fn get_gdnlib_resource_path(library_name_snake_case: &str, is_plugin: bool) -> (r: String)
    ensures
        r@ == spec_gdnlib_resource_path(library_name_snake_case@, is_plugin),
{
    let mut r = if is_plugin {
        let mut p = "addons/".to_owned();
        p.append(library_name_snake_case);
        p.append("/gdnative/");
        p
    } else {
        "gdnative/".to_owned()
    };
    r.append(library_name_snake_case);
    proof {
        assert(r@ =~= spec_gdnlib_resource_path(library_name_snake_case@, is_plugin));
    }
    r
}

/// The file name of a module's script descriptor.
pub open spec fn spec_gdns_file_name(snake: Seq<char>) -> Seq<char> {
    snake + ".gdns"@
}

/// Returns the file name of a module's script descriptor.
pub fn get_gdns_file_name(module_name_snake_case: &str) -> (r: String)
    ensures
        r@ == spec_gdns_file_name(module_name_snake_case@),
{
    let mut r = module_name_snake_case.to_owned();
    r.append(".gdns");
    r
}

/// The path of a module's source file, relative to the library root.
pub open spec fn spec_module_file_path(snake: Seq<char>) -> Seq<char> {
    "src/"@ + snake + ".rs"@
}

/// Returns the path of a module's source file, relative to the library root.
pub fn get_module_file_path(module_name_snake_case: &str) -> (r: String)
    ensures
        r@ == spec_module_file_path(module_name_snake_case@),
{
    let mut r = "src/".to_owned();
    r.append(module_name_snake_case);
    r.append(".rs");
    r
}

} // verus!
