//! The shape of the managed library's own package manifest: the fields the
//! tool reads and rewrites, and the defaults it fills in when a fresh
//! package lacks them.

use vstd::prelude::*;
use vstd::string::*;

verus! {

/// The structure of the managed library's package manifest.
pub struct CargoToml {
    /// The fields under the `[package]` tag.
    pub package: CargoPackage,
    /// The fields under the `[lib]` tag; a fresh package lacks them and
    /// [`create_cargo_lib`] supplies the default.
    pub lib: CargoLib,
    /// The fields under the `[dependencies]` tag.
    pub dependencies: CargoDependencies,
}

/// The fields of the package manifest under the `[package]` tag.
pub struct CargoPackage {
    pub name: String,
    pub version: String,
    pub authors: Vec<String>,
    pub edition: String,
}

/// The fields of the package manifest under the `[lib]` tag.
pub struct CargoLib {
    pub crate_type: Vec<String>,
}

/// The fields of the package manifest under the `[dependencies]` tag.
pub struct CargoDependencies {
    pub gdnative: String,
}

/// Returns the default `[lib]` contents: the one crate type a dynamic
/// library for the engine needs.
pub fn create_cargo_lib() -> (r: CargoLib)
    ensures
        r.crate_type@.len() == 1,
        r.crate_type@[0]@ == "cdylib"@,
{
    let mut crate_type: Vec<String> = Vec::new();
    crate_type.push("cdylib".to_owned());
    CargoLib { crate_type }
}

/// Returns the engine-binding dependency version a fresh package manifest is
/// given.
pub fn add_gdnative_dep() -> (r: String)
    ensures
        r@ == "0.9.1"@,
{
    "0.9.1".to_owned()
}

} // verus!
