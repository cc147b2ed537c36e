//! The source text generated for a new module: an engine-facing script class
//! in its declaration form, either as an ordinary scene node or as an editor
//! plugin's tool class.

use vstd::prelude::*;
use vstd::string::*;

verus! {

/// The source of an ordinary module: a node class with the given declaration
/// name.
pub open spec fn spec_module_source(pascal: Seq<char>) -> Seq<char> {
    "use gdnative::api::Node2D;\nuse gdnative::prelude::*;\n\n#[inherit(Node2D)]\n#[derive(NativeClass)]\npub struct "@
        + pascal + ";\n\n#[methods]\nimpl "@ + pascal
        + " {\n    fn new(_owner: &Node2D) -> Self {\n        "@ + pascal
        + " {}\n    }\n\n    #[export]\n    fn _ready(&mut self, _owner: &Node2D) {\n        godot_print!(\"Hello world!\");\n    }\n}\n"@
}

/// The source of a plugin module: an editor-plugin tool class with the given
/// declaration name.
pub open spec fn spec_plugin_module_source(pascal: Seq<char>) -> Seq<char> {
    "use gdnative::api::EditorPlugin;\nuse gdnative::nativescript::user_data;\n\n#[derive(gdnative::NativeClass)]\n#[inherit(EditorPlugin)]\n#[user_data(user_data::LocalCellData<"@
        + pascal + ">)]\npub struct "@ + pascal + ";\n\n#[gdnative::methods]\nimpl "@ + pascal
        + " {\n    fn new(_owner: &EditorPlugin) -> Self {\n        "@ + pascal
        + "\n    }\n\n    #[export]\n    fn _ready(&self, _owner: &EditorPlugin) {\n        gdnative::godot_print!(\"hello, world.\");\n    }\n}\n"@
}

/// Returns the initial source of a module, with the declaration-form name
/// filled in: a plugin library gets a tool class, an ordinary library a node
/// class.
pub fn module_source(module_name_pascal_case: &str, is_plugin: bool) -> (r: String)
    ensures
        is_plugin ==> r@ == spec_plugin_module_source(module_name_pascal_case@),
        !is_plugin ==> r@ == spec_module_source(module_name_pascal_case@),
{
    if is_plugin {
        let mut r =
            "use gdnative::api::EditorPlugin;\nuse gdnative::nativescript::user_data;\n\n#[derive(gdnative::NativeClass)]\n#[inherit(EditorPlugin)]\n#[user_data(user_data::LocalCellData<".to_owned();
        r.append(module_name_pascal_case);
        r.append(">)]\npub struct ");
        r.append(module_name_pascal_case);
        r.append(";\n\n#[gdnative::methods]\nimpl ");
        r.append(module_name_pascal_case);
        r.append(" {\n    fn new(_owner: &EditorPlugin) -> Self {\n        ");
        r.append(module_name_pascal_case);
        r.append(
            "\n    }\n\n    #[export]\n    fn _ready(&self, _owner: &EditorPlugin) {\n        gdnative::godot_print!(\"hello, world.\");\n    }\n}\n",
        );
        proof {
            assert(r@ =~= spec_plugin_module_source(module_name_pascal_case@));
        }
        r
    } else {
        let mut r =
            "use gdnative::api::Node2D;\nuse gdnative::prelude::*;\n\n#[inherit(Node2D)]\n#[derive(NativeClass)]\npub struct ".to_owned();
        r.append(module_name_pascal_case);
        r.append(";\n\n#[methods]\nimpl ");
        r.append(module_name_pascal_case);
        r.append(" {\n    fn new(_owner: &Node2D) -> Self {\n        ");
        r.append(module_name_pascal_case);
        r.append(
            " {}\n    }\n\n    #[export]\n    fn _ready(&mut self, _owner: &Node2D) {\n        godot_print!(\"Hello world!\");\n    }\n}\n",
        );
        proof {
            assert(r@ =~= spec_module_source(module_name_pascal_case@));
        }
        r
    }
}

} // verus!
