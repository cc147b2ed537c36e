//! The plugin configuration file a Godot plugin carries: its name, a few
//! descriptive fields, and the script the engine loads.

use vstd::prelude::*;
use vstd::string::*;

verus! {

/// The structure of a Godot project's plugin configuration file.
pub struct PluginConfig {
    /// The fields under the `[plugin]` tag.
    pub plugin: PluginConfigPlugin,
}

/// The fields of the plugin configuration under the `[plugin]` tag.
pub struct PluginConfigPlugin {
    pub name: String,
    pub description: String,
    pub author: String,
    pub version: String,
    pub script: String,
}

/// The configuration text for the given field values.
pub open spec fn spec_plugin_config_text(
    name: Seq<char>,
    description: Seq<char>,
    author: Seq<char>,
    version: Seq<char>,
    script: Seq<char>,
) -> Seq<char> {
    "[plugin]\nname = \""@ + name + "\"\ndescription = \""@ + description + "\"\nauthor = \""@
        + author + "\"\nversion = \""@ + version + "\"\nscript = \""@ + script + "\"\n"@
}

impl PluginConfig {
    /// Creates a plugin configuration with the provided name and script and
    /// the default descriptive fields.
    pub fn new(name: &str, script_path: &str) -> (r: PluginConfig)
        ensures
            r.plugin.name@ == name@,
            r.plugin.description@ == Seq::<char>::empty(),
            r.plugin.author@ == Seq::<char>::empty(),
            r.plugin.version@ == "1.0"@,
            r.plugin.script@ == script_path@,
    {
        proof {
            reveal_strlit("");
        }
        PluginConfig {
            plugin: PluginConfigPlugin {
                name: name.to_owned(),
                description: "".to_owned(),
                author: "".to_owned(),
                version: "1.0".to_owned(),
                script: script_path.to_owned(),
            },
        }
    }

    /// Returns the configuration as the text the engine reads.
    pub fn to_string(&self) -> (r: String)
        ensures
            r@ == spec_plugin_config_text(
                self.plugin.name@,
                self.plugin.description@,
                self.plugin.author@,
                self.plugin.version@,
                self.plugin.script@,
            ),
    {
        let mut r = "[plugin]\nname = \"".to_owned();
        r.append(self.plugin.name.as_str());
        r.append("\"\ndescription = \"");
        r.append(self.plugin.description.as_str());
        r.append("\"\nauthor = \"");
        r.append(self.plugin.author.as_str());
        r.append("\"\nversion = \"");
        r.append(self.plugin.version.as_str());
        r.append("\"\nscript = \"");
        r.append(self.plugin.script.as_str());
        r.append("\"\n");
        proof {
            assert(r@ =~= spec_plugin_config_text(
                self.plugin.name@,
                self.plugin.description@,
                self.plugin.author@,
                self.plugin.version@,
                self.plugin.script@,
            ));
        }
        r
    }
}

} // verus!
