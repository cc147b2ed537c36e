//! The project manifest: the single persisted record of the library's
//! identity, its engine project, its modules and its platform targets, with
//! the add/remove operations and their duplicate and existence checks.
//! Loading and saving the record is the caller's business; every operation
//! here is a pure mutation with an exact contract.

use vstd::prelude::*;
use vstd::string::*;

use crate::names::{lower_of, snake_of, to_lowercase, to_snake_case};
use crate::platforms::{get_platform_toolchain, get_target_platform, spec_target_platform,
    spec_toolchain};
use crate::text::str_eq;

verus! {

/// A structural failure of a manifest operation.
#[derive(Clone, Copy, Debug, PartialEq, Eq, Structural)]
pub enum Error {
    /// The referenced module, platform or target is absent.
    NotFound,
    /// The module, platform or target is already present.
    AlreadyExists,
}

impl Error {
    /// The message the command-line front end prints for this failure.
    pub fn message(&self) -> (m: String)
        ensures
            *self is NotFound ==> m@ == "the referenced item doesn't exist"@,
            *self is AlreadyExists ==> m@ == "an item with the same name already exists"@,
    {
        match self {
            Error::NotFound => "the referenced item doesn't exist".to_owned(),
            Error::AlreadyExists => "an item with the same name already exists".to_owned(),
        }
    }
}

/// The persisted project manifest.
pub struct Config {
    /// The name of the library, as the user gave it.
    pub name: String,
    /// The name of the directory of the Godot project.
    pub godot_project_name: String,
    /// Indicates whether the library is for a plugin or not.
    pub is_plugin: bool,
    /// The platform-to-toolchain pairs the library is built for.
    pub targets: Vec<(String, String)>,
    /// The modules created and destroyed through the command-line tool.
    pub modules: Vec<String>,
}

impl Config {
    /// The module names as character sequences.
    pub open spec fn modules_view(&self) -> Seq<Seq<char>> {
        self.modules@.map_values(|s: String| s@)
    }

    /// The platform-to-toolchain pairs as character sequences.
    pub open spec fn targets_view(&self) -> Seq<(Seq<char>, Seq<char>)> {
        self.targets@.map_values(|p: (String, String)| (p.0@, p.1@))
    }

    /// Module names are unique, and for a plugin the implicit root module
    /// (the one whose snake form equals the library name's) is never listed.
    pub open spec fn modules_wf(&self) -> bool {
        &&& forall|i: int, j: int|
            0 <= i < j < self.modules_view().len() ==> self.modules_view()[i]
                != self.modules_view()[j]
        &&& self.is_plugin ==> forall|i: int|
            0 <= i < self.modules_view().len() ==> snake_of(#[trigger] self.modules_view()[i])
                != snake_of(self.name@)
    }

    /// Platform keys are unique.
    pub open spec fn targets_wf(&self) -> bool {
        forall|i: int, j: int|
            0 <= i < j < self.targets_view().len() ==> (#[trigger] self.targets_view()[i]).0
                != (#[trigger] self.targets_view()[j]).0
    }
}

/// Index of the first module equal to `name`, or `-1`.
pub open spec fn first_module_index(mods: Seq<Seq<char>>, name: Seq<char>, i: int) -> int
    decreases mods.len() - i when 0 <= i <= mods.len()
{
    if i >= mods.len() {
        -1
    } else if mods[i] == name {
        i
    } else {
        first_module_index(mods, name, i + 1)
    }
}

/// Whether some module equals `name`.
pub open spec fn spec_module_present(mods: Seq<Seq<char>>, name: Seq<char>) -> bool {
    exists|i: int| 0 <= i < mods.len() && mods[i] == name
}

pub proof fn lemma_first_module_index(mods: Seq<Seq<char>>, name: Seq<char>, i: int)
    requires
        0 <= i <= mods.len(),
    ensures
        first_module_index(mods, name, i) == -1 || first_module_index(mods, name, i) >= 0,
        first_module_index(mods, name, i) == -1 ==> forall|k: int|
            i <= k < mods.len() ==> mods[k] != name,
        first_module_index(mods, name, i) >= 0 ==> i <= first_module_index(mods, name, i)
            < mods.len() && mods[first_module_index(mods, name, i)] == name && forall|k: int|
            i <= k < first_module_index(mods, name, i) ==> mods[k] != name,
    decreases mods.len() - i,
{
    if i < mods.len() && mods[i] != name {
        lemma_first_module_index(mods, name, i + 1);
    }
}

/// Index of the first target entry whose platform key equals `key`, or `-1`.
pub open spec fn first_target_index(ts: Seq<(Seq<char>, Seq<char>)>, key: Seq<char>, i: int) -> int
    decreases ts.len() - i when 0 <= i <= ts.len()
{
    if i >= ts.len() {
        -1
    } else if ts[i].0 == key {
        i
    } else {
        first_target_index(ts, key, i + 1)
    }
}

/// Whether some target entry has platform key `key`.
pub open spec fn spec_target_present(ts: Seq<(Seq<char>, Seq<char>)>, key: Seq<char>) -> bool {
    exists|i: int| 0 <= i < ts.len() && (#[trigger] ts[i]).0 == key
}

pub proof fn lemma_first_target_index(ts: Seq<(Seq<char>, Seq<char>)>, key: Seq<char>, i: int)
    requires
        0 <= i <= ts.len(),
    ensures
        first_target_index(ts, key, i) == -1 || first_target_index(ts, key, i) >= 0,
        first_target_index(ts, key, i) == -1 ==> forall|k: int|
            i <= k < ts.len() ==> (#[trigger] ts[k]).0 != key,
        first_target_index(ts, key, i) >= 0 ==> i <= first_target_index(ts, key, i) < ts.len()
            && ts[first_target_index(ts, key, i)].0 == key && forall|k: int|
            i <= k < first_target_index(ts, key, i) ==> (#[trigger] ts[k]).0 != key,
    decreases ts.len() - i,
{
    if i < ts.len() && ts[i].0 != key {
        lemma_first_target_index(ts, key, i + 1);
    }
}

/// Law: recording a module that the manifest does not yet track and then
/// removing it restores the module list exactly. The recording appends the
/// name (the ensures of [`add_module_to_config`]); the removal drops the
/// first occurrence, which is the appended one (the ensures of
/// [`remove_module_from_config_if_exists`]).
pub proof fn lemma_add_remove_module_round_trip(mods: Seq<Seq<char>>, name: Seq<char>)
    requires
        !spec_module_present(mods, name),
    ensures
        first_module_index(mods.push(name), name, 0) == mods.len(),
        mods.push(name).remove(mods.len() as int) == mods,
{
    let pushed = mods.push(name);
    lemma_first_module_index(pushed, name, 0);
    let i = first_module_index(pushed, name, 0);
    assert(pushed[mods.len() as int] == name);
    if i == -1 {
        assert(pushed[mods.len() as int] != name);
    }
    if 0 <= i < mods.len() as int {
        assert(pushed[i] == mods[i]);
        assert(spec_module_present(mods, name));
    }
    assert(pushed.remove(mods.len() as int) =~~= mods);
}

/// Law: under the manifest's well-formedness, the implicit plugin-root
/// module is never listed, so an attempt to remove it — by any name whose
/// snake form is the library name's — finds nothing, and
/// [`remove_module_from_config_if_exists`] then fails with
/// [`Error::NotFound`].
pub proof fn lemma_plugin_root_cannot_be_removed(config: Config, name: Seq<char>)
    requires
        config.modules_wf(),
        config.is_plugin,
        snake_of(name) == snake_of(config.name@),
    ensures
        !spec_module_present(config.modules_view(), name),
{
    if spec_module_present(config.modules_view(), name) {
        let i: int = choose|i: int|
            0 <= i < config.modules_view().len() && config.modules_view()[i] == name;
        assert(snake_of(config.modules_view()[i]) != snake_of(config.name@));
    }
}

/// Creates the manifest a fresh project starts with: no modules, no targets.
pub fn create_initial_config(library_name: String, godot_project_name: String, is_plugin: bool)
    -> (config: Config)
    ensures
        config.name == library_name,
        config.godot_project_name == godot_project_name,
        config.is_plugin == is_plugin,
        config.modules_view() =~= Seq::<Seq<char>>::empty(),
        config.targets_view() =~= Seq::<(Seq<char>, Seq<char>)>::empty(),
        config.modules_wf(),
        config.targets_wf(),
{
    let config = Config {
        name: library_name,
        godot_project_name,
        is_plugin,
        targets: Vec::new(),
        modules: Vec::new(),
    };
    proof {
        assert(config.modules_view() =~= Seq::<Seq<char>>::empty());
        assert(config.targets_view() =~= Seq::<(Seq<char>, Seq<char>)>::empty());
    }
    config
}

/// Says whether a module of exactly this name is tracked by the manifest.
#[verifier::loop_isolation(false)]
pub fn is_module_in_config(module_name: &str, config: &Config) -> (present: bool)
    ensures
        present == spec_module_present(config.modules_view(), module_name@),
{
    let mut i: usize = 0;
    while i < config.modules.len()
        invariant
            i <= config.modules@.len(),
            forall|k: int| 0 <= k < i ==> #[trigger] config.modules_view()[k] != module_name@,
        decreases config.modules@.len() - i,
    {
        proof {
            assert(config.modules_view()[i as int] == config.modules@[i as int]@);
        }
        if str_eq(config.modules[i].as_str(), module_name) {
            return true;
        }
        i = i + 1;
    }
    false
}

/// Says whether `module_name` occurs in `modules`, by exact string equality.
#[verifier::loop_isolation(false)]
pub fn is_module_in_project_toml(modules: &Vec<String>, module_name: &str) -> (present: bool)
    ensures
        present == spec_module_present(modules@.map_values(|s: String| s@), module_name@),
{
    let ghost views = modules@.map_values(|s: String| s@);
    let mut idx: usize = 0;
    while idx < modules.len()
        invariant
            idx <= modules@.len(),
            views == modules@.map_values(|s: String| s@),
            forall|k: int| 0 <= k < idx ==> #[trigger] views[k] != module_name@,
        decreases modules@.len() - idx,
    {
        proof {
            assert(views[idx as int] == modules@[idx as int]@);
        }
        if str_eq(modules[idx].as_str(), module_name) {
            return true;
        }
        idx = idx + 1;
    }
    false
}

/// Records a module in the manifest. Adding the implicit plugin-root module
/// (for a plugin, a name whose snake form equals the library name's) is a
/// no-op rather than an error; a duplicate name is refused.
#[verifier::loop_isolation(false)]
pub fn add_module_to_config(module_name: &str, config: &mut Config) -> (r: Result<(), Error>)
    ensures
        final(config).name == old(config).name,
        final(config).godot_project_name == old(config).godot_project_name,
        final(config).is_plugin == old(config).is_plugin,
        final(config).targets == old(config).targets,
        old(config).is_plugin && snake_of(module_name@) == snake_of(old(config).name@) ==> r
            is Ok && final(config).modules == old(config).modules,
        !(old(config).is_plugin && snake_of(module_name@) == snake_of(old(config).name@))
            ==> {
            &&& r is Err <==> spec_module_present(old(config).modules_view(), module_name@)
            &&& r is Err ==> r->Err_0 == Error::AlreadyExists && final(config).modules == old(
                config,
            ).modules
            &&& r is Ok ==> final(config).modules_view() == old(config).modules_view().push(
                module_name@,
            )
        },
        old(config).modules_wf() ==> final(config).modules_wf(),
{
    if config.is_plugin {
        let config_name_snake = to_snake_case(config.name.as_str());
        let module_name_snake = to_snake_case(module_name);
        if str_eq(module_name_snake.as_str(), config_name_snake.as_str()) {
            return Ok(());
        }
    }
    if is_module_in_config(module_name, config) {
        return Err(Error::AlreadyExists);
    }
    let ghost old_views = config.modules_view();
    config.modules.push(module_name.to_owned());
    proof {
        assert(config.modules_view() =~= old_views.push(module_name@));
        if old(config).modules_wf() {
            assert forall|i: int, j: int|
                0 <= i < j < config.modules_view().len() implies config.modules_view()[i]
                != config.modules_view()[j] by {
                if j == old_views.len() as int {
                    assert(!spec_module_present(old_views, module_name@));
                    assert(old_views[i] != module_name@);
                }
            }
        }
    }
    Ok(())
}

/// Removes a module from the manifest, failing with [`Error::NotFound`] when
/// no module of exactly this name is tracked. Only the first occurrence is
/// removed; under [`Config::modules_wf`] there is at most one.
#[verifier::loop_isolation(false)]
pub fn remove_module_from_config_if_exists(module_name: &str, config: &mut Config) -> (r: Result<
    (),
    Error,
>)
    ensures
        final(config).name == old(config).name,
        final(config).godot_project_name == old(config).godot_project_name,
        final(config).is_plugin == old(config).is_plugin,
        final(config).targets == old(config).targets,
        r is Err <==> !spec_module_present(old(config).modules_view(), module_name@),
        r is Err ==> r->Err_0 == Error::NotFound && final(config).modules == old(config).modules,
        r is Ok ==> {
            let i = first_module_index(old(config).modules_view(), module_name@, 0);
            &&& i >= 0
            &&& final(config).modules_view() == old(config).modules_view().remove(i)
        },
        old(config).modules_wf() ==> final(config).modules_wf(),
{
    let ghost c0 = *config;
    let ghost old_views = config.modules_view();
    let mut i: usize = 0;
    while i < config.modules.len()
        invariant
            *config == c0,
            i <= c0.modules@.len(),
            old_views == c0.modules_view(),
            forall|k: int| 0 <= k < i ==> #[trigger] old_views[k] != module_name@,
        decreases c0.modules@.len() - i,
    {
        proof {
            assert(old_views[i as int] == config.modules@[i as int]@);
        }
        if str_eq(config.modules[i].as_str(), module_name) {
            proof {
                assert(old_views[i as int] == module_name@);
                lemma_first_module_index(old_views, module_name@, 0);
                let fmi: int = first_module_index(old_views, module_name@, 0);
                if 0 <= fmi && fmi < i as int {
                    assert(old_views[fmi] != module_name@);
                }
                assert(fmi == i as int);
            }
            config.modules.remove(i);
            proof {
                old_views.remove_ensures(i as int);
                assert(config.modules_view() =~= old_views.remove(i as int)) by {
                    assert(forall|k: int|
                        0 <= k < config.modules@.len() ==> #[trigger] config.modules_view()[k]
                            == config.modules@[k]@);
                }
                if c0.modules_wf() {
                    assert(config.modules_wf()) by {
                        assert(forall|k: int|
                            0 <= k < config.modules_view().len()
                                ==> #[trigger] config.modules_view()[k] == if k < i as int {
                                old_views[k]
                            } else {
                                old_views[k + 1]
                            });
                    }
                }
            }
            return Ok(());
        }
        i = i + 1;
    }
    Err(Error::NotFound)
}

/// Adds a platform to the manifest's target table, keyed by its lowercased
/// name and paired with its toolchain triple. An unknown platform fails with
/// [`Error::NotFound`]; a platform already present fails with
/// [`Error::AlreadyExists`].
#[verifier::loop_isolation(false)]
pub fn add_platform(platform: &str, config: &mut Config) -> (r: Result<(), Error>)
    ensures
        final(config).name == old(config).name,
        final(config).godot_project_name == old(config).godot_project_name,
        final(config).is_plugin == old(config).is_plugin,
        final(config).modules == old(config).modules,
        spec_toolchain(lower_of(platform@)) is None ==> r == Result::<(), Error>::Err(
            Error::NotFound,
        ) && final(config).targets == old(config).targets,
        spec_toolchain(lower_of(platform@)) is Some ==> {
            &&& r is Err <==> spec_target_present(old(config).targets_view(), lower_of(platform@))
            &&& r is Err ==> r->Err_0 == Error::AlreadyExists && final(config).targets == old(
                config,
            ).targets
            &&& r is Ok ==> final(config).targets_view() == old(config).targets_view().push(
                (lower_of(platform@), spec_toolchain(lower_of(platform@))->0),
            )
        },
        old(config).targets_wf() ==> final(config).targets_wf(),
{
    let normalized = to_lowercase(platform);
    let toolchain = match get_platform_toolchain(normalized.as_str()) {
        None => {
            return Err(Error::NotFound);
        },
        Some(t) => t,
    };
    let ghost c0 = *config;
    let ghost old_targets = config.targets_view();
    let mut i: usize = 0;
    while i < config.targets.len()
        invariant
            *config == c0,
            i <= c0.targets@.len(),
            old_targets == c0.targets_view(),
            normalized@ == lower_of(platform@),
            forall|k: int| 0 <= k < i ==> (#[trigger] old_targets[k]).0 != lower_of(platform@),
        decreases c0.targets@.len() - i,
    {
        proof {
            assert(old_targets[i as int] == (config.targets@[i as int].0@, config.targets@[
                i as int].1@));
        }
        if str_eq(config.targets[i].0.as_str(), normalized.as_str()) {
            return Err(Error::AlreadyExists);
        }
        i = i + 1;
    }
    config.targets.push((normalized, toolchain.to_owned()));
    proof {
        assert(config.targets_view() =~= old_targets.push(
            (lower_of(platform@), spec_toolchain(lower_of(platform@))->0),
        ));
        if c0.targets_wf() {
            assert forall|x: int, y: int|
                0 <= x < y < config.targets_view().len() implies (
            #[trigger] config.targets_view()[x]).0 != (#[trigger] config.targets_view()[y]).0 by {
                if y == old_targets.len() as int {
                    assert(old_targets[x].0 != lower_of(platform@));
                }
            }
        }
    }
    Ok(())
}

/// Removes a platform from the manifest's target table, failing with
/// [`Error::NotFound`] when its lowercased name is not a key there.
#[verifier::loop_isolation(false)]
pub fn remove_platform(platform: &str, config: &mut Config) -> (r: Result<(), Error>)
    ensures
        final(config).name == old(config).name,
        final(config).godot_project_name == old(config).godot_project_name,
        final(config).is_plugin == old(config).is_plugin,
        final(config).modules == old(config).modules,
        r is Err <==> !spec_target_present(old(config).targets_view(), lower_of(platform@)),
        r is Err ==> r->Err_0 == Error::NotFound && final(config).targets == old(config).targets,
        r is Ok ==> {
            let i = first_target_index(old(config).targets_view(), lower_of(platform@), 0);
            &&& i >= 0
            &&& final(config).targets_view() == old(config).targets_view().remove(i)
        },
        old(config).targets_wf() ==> final(config).targets_wf(),
{
    let normalized = to_lowercase(platform);
    let ghost c0 = *config;
    let ghost old_targets = config.targets_view();
    let mut i: usize = 0;
    while i < config.targets.len()
        invariant
            *config == c0,
            i <= c0.targets@.len(),
            old_targets == c0.targets_view(),
            normalized@ == lower_of(platform@),
            forall|k: int| 0 <= k < i ==> (#[trigger] old_targets[k]).0 != lower_of(platform@),
        decreases c0.targets@.len() - i,
    {
        proof {
            assert(old_targets[i as int] == (config.targets@[i as int].0@, config.targets@[
                i as int].1@));
        }
        if str_eq(config.targets[i].0.as_str(), normalized.as_str()) {
            proof {
                assert(old_targets[i as int].0 == lower_of(platform@));
                lemma_first_target_index(old_targets, lower_of(platform@), 0);
                let fti: int = first_target_index(old_targets, lower_of(platform@), 0);
                if fti >= 0 && fti < i as int {
                    assert(old_targets[fti].0 != lower_of(platform@));
                }
                assert(fti == i as int);
            }
            config.targets.remove(i);
            proof {
                old_targets.remove_ensures(i as int);
                assert(config.targets_view() =~= old_targets.remove(i as int)) by {
                    assert(forall|k: int|
                        0 <= k < config.targets@.len() ==> #[trigger] config.targets_view()[k]
                            == (config.targets@[k].0@, config.targets@[k].1@));
                }
                if c0.targets_wf() {
                    assert(config.targets_wf()) by {
                        assert(forall|k: int|
                            0 <= k < config.targets_view().len()
                                ==> #[trigger] config.targets_view()[k] == if k < i as int {
                                old_targets[k]
                            } else {
                                old_targets[k + 1]
                            });
                    }
                }
            }
            return Ok(());
        }
        i = i + 1;
    }
    Err(Error::NotFound)
}

/// Records a build target in the manifest, keyed by the Godot platform the
/// target corresponds to. An unsupported target fails with
/// [`Error::NotFound`]; a platform already holding a target fails with
/// [`Error::AlreadyExists`] unless `overwrite_existing_target` is set, in
/// which case its entry is replaced.
#[verifier::loop_isolation(false)]
pub fn add_target(target: &str, overwrite_existing_target: bool, config: &mut Config) -> (r: Result<
    (),
    Error,
>)
    ensures
        final(config).name == old(config).name,
        final(config).godot_project_name == old(config).godot_project_name,
        final(config).is_plugin == old(config).is_plugin,
        final(config).modules == old(config).modules,
        spec_target_platform(target@) is None ==> r == Result::<(), Error>::Err(Error::NotFound)
            && final(config).targets == old(config).targets,
        spec_target_platform(target@) is Some ==> {
            let key = spec_target_platform(target@)->0;
            let i = first_target_index(old(config).targets_view(), key, 0);
            &&& (r is Err <==> i >= 0 && !overwrite_existing_target)
            &&& r is Err ==> r->Err_0 == Error::AlreadyExists && final(config).targets == old(
                config,
            ).targets
            &&& (r is Ok && i >= 0 ==> final(config).targets_view() == old(
                config,
            ).targets_view().update(i, (key, target@)))
            &&& (r is Ok && i < 0 ==> final(config).targets_view() == old(
                config,
            ).targets_view().push((key, target@)))
        },
{
    let platform = match get_target_platform(target) {
        None => {
            return Err(Error::NotFound);
        },
        Some(p) => p,
    };
    let ghost key = spec_target_platform(target@)->0;
    let ghost c0 = *config;
    let ghost old_targets = config.targets_view();
    let mut i: usize = 0;
    while i < config.targets.len()
        invariant
            *config == c0,
            i <= c0.targets@.len(),
            old_targets == c0.targets_view(),
            platform@ == key,
            forall|k: int| 0 <= k < i ==> (#[trigger] old_targets[k]).0 != key,
        decreases c0.targets@.len() - i,
    {
        proof {
            assert(old_targets[i as int] == (config.targets@[i as int].0@, config.targets@[
                i as int].1@));
        }
        if str_eq(config.targets[i].0.as_str(), platform) {
            proof {
                assert(old_targets[i as int].0 == key);
                lemma_first_target_index(old_targets, key, 0);
                let fti: int = first_target_index(old_targets, key, 0);
                if fti >= 0 && fti < i as int {
                    assert(old_targets[fti].0 != key);
                }
                assert(fti == i as int);
            }
            if !overwrite_existing_target {
                return Err(Error::AlreadyExists);
            }
            let entry = (platform.to_owned(), target.to_owned());
            config.targets.set(i, entry);
            proof {
                assert(config.targets_view() =~= old_targets.update(i as int, (key, target@)));
            }
            return Ok(());
        }
        i = i + 1;
    }
    proof {
        lemma_first_target_index(old_targets, key, 0);
        if first_target_index(old_targets, key, 0) >= 0 {
            assert(old_targets[first_target_index(old_targets, key, 0)].0 == key);
        }
    }
    config.targets.push((platform.to_owned(), target.to_owned()));
    proof {
        assert(config.targets_view() =~= old_targets.push((key, target@)));
    }
    Ok(())
}

/// Removes the target entry of the given platform, failing with
/// [`Error::NotFound`] when the platform holds no target.
#[verifier::loop_isolation(false)]
pub fn remove_target(name: &str, config: &mut Config) -> (r: Result<(), Error>)
    ensures
        final(config).name == old(config).name,
        final(config).godot_project_name == old(config).godot_project_name,
        final(config).is_plugin == old(config).is_plugin,
        final(config).modules == old(config).modules,
        r is Err <==> !spec_target_present(old(config).targets_view(), name@),
        r is Err ==> r->Err_0 == Error::NotFound && final(config).targets == old(config).targets,
        r is Ok ==> {
            let i = first_target_index(old(config).targets_view(), name@, 0);
            &&& i >= 0
            &&& final(config).targets_view() == old(config).targets_view().remove(i)
        },
{
    let ghost c0 = *config;
    let ghost old_targets = config.targets_view();
    let mut i: usize = 0;
    while i < config.targets.len()
        invariant
            *config == c0,
            i <= c0.targets@.len(),
            old_targets == c0.targets_view(),
            forall|k: int| 0 <= k < i ==> (#[trigger] old_targets[k]).0 != name@,
        decreases c0.targets@.len() - i,
    {
        proof {
            assert(old_targets[i as int] == (config.targets@[i as int].0@, config.targets@[
                i as int].1@));
        }
        if str_eq(config.targets[i].0.as_str(), name) {
            proof {
                assert(old_targets[i as int].0 == name@);
                lemma_first_target_index(old_targets, name@, 0);
                let fti: int = first_target_index(old_targets, name@, 0);
                if fti >= 0 && fti < i as int {
                    assert(old_targets[fti].0 != name@);
                }
                assert(fti == i as int);
            }
            config.targets.remove(i);
            proof {
                old_targets.remove_ensures(i as int);
                assert(config.targets_view() =~= old_targets.remove(i as int)) by {
                    assert(forall|k: int|
                        0 <= k < config.targets@.len() ==> #[trigger] config.targets_view()[k]
                            == (config.targets@[k].0@, config.targets@[k].1@));
                }
            }
            return Ok(());
        }
        i = i + 1;
    }
    Err(Error::NotFound)
}

} // verus!
