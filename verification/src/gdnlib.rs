//! The shared library descriptor: the engine-readable file that maps each
//! well-known platform to the dynamic library it loads. It is written once
//! at project creation, pre-populated for three desktop and two mobile
//! platforms whether or not they are ever built.

use vstd::prelude::*;
use vstd::string::*;

verus! {

/// The structure of the library descriptor file.
pub struct Gdnlib {
    /// The fields under the `[general]` tag.
    pub general: GdnlibGeneral,
    /// The platform-to-binary-path entries.
    pub entry: Vec<(String, String)>,
    /// The per-platform dependency lists.
    pub dependencies: Vec<(String, Vec<String>)>,
}

/// The fields of the library descriptor under the `[general]` tag.
pub struct GdnlibGeneral {
    pub singleton: bool,
    pub load_once: bool,
    pub symbol_prefix: String,
    pub reloadable: bool,
}

/// The engine-resource base under which the binaries live: the library's
/// addon directory for a plugin, the project root otherwise.
pub open spec fn spec_gdnlib_base(name: Seq<char>, is_plugin: bool) -> Seq<char> {
    if is_plugin {
        "res://addons/"@ + name
    } else {
        "res:/"@
    }
}

/// The five platform-to-binary-path entries a fresh descriptor holds, in the
/// order they are written.
pub open spec fn spec_gdnlib_entries(name: Seq<char>, is_plugin: bool) -> Seq<
    (Seq<char>, Seq<char>),
> {
    let base = spec_gdnlib_base(name, is_plugin);
    seq![
        ("OSX.64"@, base + "/gdnative/bin/macos/lib"@ + name + ".dylib"@),
        ("Windows.64"@, base + "/gdnative/bin/windows/"@ + name + ".dll"@),
        ("X11.64"@, base + "/gdnative/bin/linux/lib"@ + name + ".so"@),
        ("Android.arm64-v8a"@, base + "/gdnative/bin/android/aarch64-linux-android/lib"@ + name
            + ".so"@),
        ("Android.x86_64"@, base + "/gdnative/bin/android/x86_64-linux-android/lib"@ + name
            + ".so"@),
    ]
}

/// The entries as character sequences.
pub open spec fn entries_view(entry: Seq<(String, String)>) -> Seq<(Seq<char>, Seq<char>)> {
    entry.map_values(|p: (String, String)| (p.0@, p.1@))
}

/// The dependency lists as character sequences.
pub open spec fn deps_view(deps: Seq<(String, Vec<String>)>) -> Seq<(Seq<char>, Seq<Seq<char>>)> {
    deps.map_values(|p: (String, Vec<String>)| (p.0@, p.1@.map_values(|s: String| s@)))
}

/// Builds the entries and the empty dependency lists a fresh library
/// descriptor holds.
pub fn get_entries_and_dependencies_to_add_to_gdnlib(
    library_name_snake_case: &str,
    is_plugin: bool,
) -> (r: (Vec<(String, String)>, Vec<(String, Vec<String>)>))
    ensures
        entries_view(r.0@) == spec_gdnlib_entries(library_name_snake_case@, is_plugin),
        deps_view(r.1@).len() == spec_gdnlib_entries(library_name_snake_case@, is_plugin).len(),
        forall|i: int|
            0 <= i < deps_view(r.1@).len() ==> #[trigger] deps_view(r.1@)[i].0
                == spec_gdnlib_entries(library_name_snake_case@, is_plugin)[i].0 && deps_view(
                r.1@,
            )[i].1.len() == 0,
{
    let base = if is_plugin {
        let mut b = "res://addons/".to_owned();
        b.append(library_name_snake_case);
        b
    } else {
        "res:/".to_owned()
    };

    let mut osx = base.clone();
    osx.append("/gdnative/bin/macos/lib");
    osx.append(library_name_snake_case);
    osx.append(".dylib");

    let mut windows = base.clone();
    windows.append("/gdnative/bin/windows/");
    windows.append(library_name_snake_case);
    windows.append(".dll");

    let mut linux = base.clone();
    linux.append("/gdnative/bin/linux/lib");
    linux.append(library_name_snake_case);
    linux.append(".so");

    let mut android_arm = base.clone();
    android_arm.append("/gdnative/bin/android/aarch64-linux-android/lib");
    android_arm.append(library_name_snake_case);
    android_arm.append(".so");

    let mut android_64 = base.clone();
    android_64.append("/gdnative/bin/android/x86_64-linux-android/lib");
    android_64.append(library_name_snake_case);
    android_64.append(".so");

    let mut entries: Vec<(String, String)> = Vec::new();
    entries.push(("OSX.64".to_owned(), osx));
    entries.push(("Windows.64".to_owned(), windows));
    entries.push(("X11.64".to_owned(), linux));
    entries.push(("Android.arm64-v8a".to_owned(), android_arm));
    entries.push(("Android.x86_64".to_owned(), android_64));

    let mut deps: Vec<(String, Vec<String>)> = Vec::new();
    deps.push(("OSX.64".to_owned(), Vec::new()));
    deps.push(("Windows.64".to_owned(), Vec::new()));
    deps.push(("X11.64".to_owned(), Vec::new()));
    deps.push(("Android.arm64-v8a".to_owned(), Vec::new()));
    deps.push(("Android.x86_64".to_owned(), Vec::new()));

    proof {
        assert(entries_view(entries@) =~~= spec_gdnlib_entries(library_name_snake_case@,
            is_plugin));
        assert(forall|i: int|
            0 <= i < deps_view(deps@).len() ==> #[trigger] deps_view(deps@)[i].0
                == spec_gdnlib_entries(library_name_snake_case@, is_plugin)[i].0 && deps_view(
                deps@,
            )[i].1.len() == 0);
    }
    (entries, deps)
}

impl Gdnlib {
    /// Creates a fresh library descriptor: load-once, reloadable, with the
    /// engine's symbol prefix, and one entry per well-known platform.
    pub fn new(rust_library_name_normalized: &str, is_plugin: bool) -> (r: Gdnlib)
        ensures
            r.general.singleton == false,
            r.general.load_once == true,
            r.general.symbol_prefix@ == "godot_"@,
            r.general.reloadable == true,
            entries_view(r.entry@) == spec_gdnlib_entries(rust_library_name_normalized@,
                is_plugin),
            deps_view(r.dependencies@).len() == spec_gdnlib_entries(
                rust_library_name_normalized@,
                is_plugin,
            ).len(),
            forall|i: int|
                0 <= i < deps_view(r.dependencies@).len() ==> #[trigger] deps_view(
                    r.dependencies@,
                )[i].0 == spec_gdnlib_entries(rust_library_name_normalized@, is_plugin)[i].0
                    && deps_view(r.dependencies@)[i].1.len() == 0,
    {
        let (entries, deps) = get_entries_and_dependencies_to_add_to_gdnlib(
            rust_library_name_normalized,
            is_plugin,
        );
        Gdnlib {
            general: GdnlibGeneral {
                singleton: false,
                load_once: true,
                symbol_prefix: "godot_".to_owned(),
                reloadable: true,
            },
            entry: entries,
            dependencies: deps,
        }
    }

    /// Returns the descriptor as the text the engine reads.
    pub fn to_string(&self) -> (r: String)
        ensures
            r@ == spec_gdnlib_text(
                self.general.singleton,
                self.general.load_once,
                self.general.symbol_prefix@,
                self.general.reloadable,
                entries_view(self.entry@),
                deps_view(self.dependencies@),
            ),
    {
        let mut r = "[general]\n\nsingleton = ".to_owned();
        r.append(bool_str(self.general.singleton));
        r.append("\nload_once = ");
        r.append(bool_str(self.general.load_once));
        r.append("\nsymbol_prefix = \"");
        r.append(self.general.symbol_prefix.as_str());
        r.append("\"\nreloadable = ");
        r.append(bool_str(self.general.reloadable));
        r.append("\n\n[entry]\n\n");
        let entry_lines = build_entry_lines(&self.entry);
        r.append(entry_lines.as_str());
        r.append("\n[dependencies]\n\n");
        let dep_lines = build_dep_lines(&self.dependencies);
        r.append(dep_lines.as_str());
        proof {
            assert(r@ =~= spec_gdnlib_text(
                self.general.singleton,
                self.general.load_once,
                self.general.symbol_prefix@,
                self.general.reloadable,
                entries_view(self.entry@),
                deps_view(self.dependencies@),
            ));
        }
        r
    }
}

/// The lowercase keyword of a boolean.
pub open spec fn spec_bool_text(b: bool) -> Seq<char> {
    if b {
        "true"@
    } else {
        "false"@
    }
}

/// Returns the lowercase keyword of a boolean.
fn bool_str(b: bool) -> (r: &'static str)
    ensures
        r@ == spec_bool_text(b),
{
    if b {
        "true"
    } else {
        "false"
    }
}

/// One `"key" = "value"` line per entry.
pub open spec fn spec_entry_lines(entries: Seq<(Seq<char>, Seq<char>)>) -> Seq<char>
    decreases entries.len(),
{
    if entries.len() == 0 {
        Seq::empty()
    } else {
        "\""@ + entries[0].0 + "\" = \""@ + entries[0].1 + "\"\n"@ + spec_entry_lines(
            entries.drop_first(),
        )
    }
}

/// A quoted, comma-separated list of strings.
pub open spec fn spec_string_list(items: Seq<Seq<char>>) -> Seq<char>
    decreases items.len(),
{
    if items.len() == 0 {
        Seq::empty()
    } else {
        "\""@ + items[0] + "\""@ + spec_string_list_rest(items.drop_first())
    }
}

/// The tail of a quoted list: each item with a leading separator.
pub open spec fn spec_string_list_rest(items: Seq<Seq<char>>) -> Seq<char>
    decreases items.len(),
{
    if items.len() == 0 {
        Seq::empty()
    } else {
        ", \""@ + items[0] + "\""@ + spec_string_list_rest(items.drop_first())
    }
}

/// One `"key" = [list]` line per dependency entry.
pub open spec fn spec_dep_lines(deps: Seq<(Seq<char>, Seq<Seq<char>>)>) -> Seq<char>
    decreases deps.len(),
{
    if deps.len() == 0 {
        Seq::empty()
    } else {
        "\""@ + deps[0].0 + "\" = ["@ + spec_string_list(deps[0].1) + "]\n"@ + spec_dep_lines(
            deps.drop_first(),
        )
    }
}

/// The descriptor text: the general flags, then the entry map, then the
/// dependency map.
pub open spec fn spec_gdnlib_text(
    singleton: bool,
    load_once: bool,
    symbol_prefix: Seq<char>,
    reloadable: bool,
    entries: Seq<(Seq<char>, Seq<char>)>,
    deps: Seq<(Seq<char>, Seq<Seq<char>>)>,
) -> Seq<char> {
    "[general]\n\nsingleton = "@ + spec_bool_text(singleton) + "\nload_once = "@ + spec_bool_text(
        load_once,
    ) + "\nsymbol_prefix = \""@ + symbol_prefix + "\"\nreloadable = "@ + spec_bool_text(reloadable)
        + "\n\n[entry]\n\n"@ + spec_entry_lines(entries) + "\n[dependencies]\n\n"@
        + spec_dep_lines(deps)
}

/// Builds the entry lines of the descriptor.
#[verifier::loop_isolation(false)]
fn build_entry_lines(entries: &Vec<(String, String)>) -> (r: String)
    ensures
        r@ == spec_entry_lines(entries_view(entries@)),
{
    let ghost ev = entries_view(entries@);
    let mut r = String::new();
    proof {
        assert(ev.skip(0) =~= ev);
        assert(r@ + spec_entry_lines(ev) =~= spec_entry_lines(ev));
    }
    let mut i: usize = 0;
    while i < entries.len()
        invariant
            i <= ev.len(),
            r@ + spec_entry_lines(ev.skip(i as int)) == spec_entry_lines(ev),
        decreases ev.len() - i,
    {
        proof {
            assert(ev[i as int] == (entries@[i as int].0@, entries@[i as int].1@));
            assert(ev.skip(i as int)[0] == ev[i as int]);
            assert(ev.skip(i as int).drop_first() =~= ev.skip(i + 1));
        }
        r.append("\"");
        r.append(entries[i].0.as_str());
        r.append("\" = \"");
        r.append(entries[i].1.as_str());
        r.append("\"\n");
        i = i + 1;
    }
    proof {
        assert(ev.skip(ev.len() as int) =~= Seq::<(Seq<char>, Seq<char>)>::empty());
        assert(r@ + spec_entry_lines(ev.skip(ev.len() as int)) =~= r@);
    }
    r
}

/// Builds the quoted list of one dependency entry.
#[verifier::loop_isolation(false)]
fn build_string_list(items: &Vec<String>) -> (r: String)
    ensures
        r@ == spec_string_list(items@.map_values(|s: String| s@)),
{
    let ghost iv = items@.map_values(|s: String| s@);
    let mut r = String::new();
    if items.len() == 0 {
        return r;
    }
    proof {
        assert(iv[0] == items@[0]@);
    }
    r.append("\"");
    r.append(items[0].as_str());
    r.append("\"");
    let mut i: usize = 1;
    while i < items.len()
        invariant
            1 <= i <= iv.len(),
            r@ + spec_string_list_rest(iv.skip(i as int)) == spec_string_list(iv),
        decreases iv.len() - i,
    {
        proof {
            assert(iv[i as int] == items@[i as int]@);
            assert(iv.skip(i as int)[0] == iv[i as int]);
            assert(iv.skip(i as int).drop_first() =~= iv.skip(i + 1));
        }
        r.append(", \"");
        r.append(items[i].as_str());
        r.append("\"");
        i = i + 1;
    }
    proof {
        assert(iv.skip(iv.len() as int) =~= Seq::<Seq<char>>::empty());
        assert(r@ + spec_string_list_rest(iv.skip(iv.len() as int)) =~= r@);
    }
    r
}

/// Builds the dependency lines of the descriptor.
#[verifier::loop_isolation(false)]
fn build_dep_lines(deps: &Vec<(String, Vec<String>)>) -> (r: String)
    ensures
        r@ == spec_dep_lines(deps_view(deps@)),
{
    let ghost dv = deps_view(deps@);
    let mut r = String::new();
    proof {
        assert(dv.skip(0) =~= dv);
        assert(r@ + spec_dep_lines(dv) =~= spec_dep_lines(dv));
    }
    let mut i: usize = 0;
    while i < deps.len()
        invariant
            i <= dv.len(),
            r@ + spec_dep_lines(dv.skip(i as int)) == spec_dep_lines(dv),
        decreases dv.len() - i,
    {
        proof {
            assert(dv[i as int] == (deps@[i as int].0@, deps@[i as int].1@.map_values(
                |s: String| s@,
            )));
            assert(dv.skip(i as int)[0] == dv[i as int]);
            assert(dv.skip(i as int).drop_first() =~= dv.skip(i + 1));
        }
        r.append("\"");
        r.append(deps[i].0.as_str());
        r.append("\" = [");
        let list = build_string_list(&deps[i].1);
        r.append(list.as_str());
        r.append("]\n");
        i = i + 1;
    }
    proof {
        assert(dv.skip(dv.len() as int) =~= Seq::<(Seq<char>, Seq<Seq<char>>)>::empty());
        assert(r@ + spec_dep_lines(dv.skip(dv.len() as int)) =~= r@);
    }
    r
}

} // verus!
