//! The managed library's cargo configuration file, which hands the Godot
//! project's location to build scripts as an environment variable.

use vstd::prelude::*;
use vstd::string::*;

verus! {

/// The structure of the managed library's cargo configuration file.
pub struct CargoConfig {
    /// The fields under the `[env]` section.
    pub env: ConfigEnv,
}

/// The fields of the `[env]` section in the configuration file.
pub struct ConfigEnv {
    /// The path to the Godot project.
    pub godot_project_path: String,
}

/// The configuration text for a Godot project path.
pub open spec fn spec_cargo_config_text(godot_project_path: Seq<char>) -> Seq<char> {
    "[env]\nGODOT_RUST_CLI_PROJECT_PATH = \""@ + godot_project_path + "\"\n"@
}

impl CargoConfig {
    /// Creates a new configuration pointing at the given Godot project.
    pub fn new(godot_project_path: &str) -> (r: CargoConfig)
        ensures
            r.env.godot_project_path@ == godot_project_path@,
    {
        CargoConfig { env: ConfigEnv { godot_project_path: godot_project_path.to_owned() } }
    }

    /// Returns the configuration as the text cargo reads.
    pub fn to_string(&self) -> (r: String)
        ensures
            r@ == spec_cargo_config_text(self.env.godot_project_path@),
    {
        let mut r = "[env]\nGODOT_RUST_CLI_PROJECT_PATH = \"".to_owned();
        r.append(self.env.godot_project_path.as_str());
        r.append("\"\n");
        proof {
            assert(r@ =~= spec_cargo_config_text(self.env.godot_project_path@));
        }
        r
    }
}

} // verus!
