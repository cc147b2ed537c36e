//! The per-module script descriptor: the engine-readable file that names a
//! module's class and points at the shared library descriptor.

use vstd::prelude::*;
use vstd::string::*;

verus! {

/// The structure of a script descriptor file.
pub struct GdnsFile {
    /// The name of the script, in its declaration form.
    pub name: String,
    /// The path to the library descriptor, without its extension.
    pub gdnlib_path: String,
}

/// The descriptor text for a script of this name referencing this library
/// descriptor.
pub open spec fn spec_gdns_text(name: Seq<char>, gdnlib_path: Seq<char>) -> Seq<char> {
    "[gd_resource type=\"NativeScript\" load_steps=2 format=2]\n\n[ext_resource path=\"res://"@
        + gdnlib_path
        + ".gdnlib\" type=\"GDNativeLibrary\" id=1]\n\n[resource]\n\nresource_name = \""@ + name
        + "\"\nclass_name = \""@ + name + "\"\nlibrary = ExtResource( 1 )\n"@
}

impl GdnsFile {
    /// Creates a new script descriptor with the provided properties.
    pub fn new(name: &str, gdnlib_path: &str) -> (r: GdnsFile)
        ensures
            r.name@ == name@,
            r.gdnlib_path@ == gdnlib_path@,
    {
        GdnsFile { name: name.to_owned(), gdnlib_path: gdnlib_path.to_owned() }
    }

    /// Returns the descriptor as the text the engine reads.
    pub fn to_string(&self) -> (r: String)
        ensures
            r@ == spec_gdns_text(self.name@, self.gdnlib_path@),
    {
        let mut r =
            "[gd_resource type=\"NativeScript\" load_steps=2 format=2]\n\n[ext_resource path=\"res://".to_owned();
        r.append(self.gdnlib_path.as_str());
        r.append(
            ".gdnlib\" type=\"GDNativeLibrary\" id=1]\n\n[resource]\n\nresource_name = \"",
        );
        r.append(self.name.as_str());
        r.append("\"\nclass_name = \"");
        r.append(self.name.as_str());
        r.append("\"\nlibrary = ExtResource( 1 )\n");
        proof {
            assert(r@ =~= spec_gdns_text(self.name@, self.gdnlib_path@));
        }
        r
    }
}

} // verus!
