//! The cross-compilation configuration: which container image builds each
//! platform, and the configuration file the cross-compilation tool reads.
//! Building and removing the images is the caller's business.

use vstd::prelude::*;
use vstd::string::*;

use crate::text::str_eq;

verus! {

/// The structure of the cross-compilation configuration file.
pub struct Cross {
    /// The image override for the windows target, when one is set.
    pub windows: Option<CrossImage>,
}

/// One image definition in the cross-compilation configuration.
pub struct CrossImage {
    /// The name and tag of the image to use over the default one.
    pub image: String,
}

/// The name and tag of the container image that builds a platform, or `None`
/// for a platform built without one.
pub open spec fn spec_docker_image_name(platform: Seq<char>) -> Option<Seq<char>> {
    if platform == "windows"@ {
        Some("godot-rust-cli-platform-windows:v1"@)
    } else {
        None
    }
}

/// Returns the name of the container image used for the provided platform.
pub fn get_docker_image_name(platform: &str) -> (r: Option<&'static str>)
    ensures
        match r {
            Some(n) => spec_docker_image_name(platform@) == Some(n@),
            None => spec_docker_image_name(platform@) is None,
        },
{
    if str_eq(platform, "windows") {
        Some("godot-rust-cli-platform-windows:v1")
    } else {
        None
    }
}

/// The file name of the container recipe that builds a platform's image, or
/// `None` for a platform built without one.
pub open spec fn spec_dockerfile_name(platform: Seq<char>) -> Option<Seq<char>> {
    if platform == "windows"@ {
        Some("Dockerfile.x86_64-pc-windows-gnu"@)
    } else {
        None
    }
}

/// Returns the file name of the container recipe for the provided platform.
pub fn get_dockerfile_name(platform: &str) -> (r: Option<&'static str>)
    ensures
        match r {
            Some(n) => spec_dockerfile_name(platform@) == Some(n@),
            None => spec_dockerfile_name(platform@) is None,
        },
{
    if str_eq(platform, "windows") {
        Some("Dockerfile.x86_64-pc-windows-gnu")
    } else {
        None
    }
}

/// Sets the image override a platform needs in the cross-compilation
/// configuration; a platform without one leaves the configuration unchanged.
pub fn add_docker_image_to_cross_config(platform: &str, cross_config: &mut Cross)
    ensures
        spec_docker_image_name(platform@) is Some ==> final(cross_config).windows is Some
            && (final(cross_config).windows->0).image@ == spec_docker_image_name(platform@)->0,
        spec_docker_image_name(platform@) is None ==> *final(cross_config) == *old(cross_config),
{
    match get_docker_image_name(platform) {
        Some(image) => {
            cross_config.windows = Some(CrossImage { image: image.to_owned() });
        },
        None => (),
    }
}

/// The configuration text the cross-compilation tool reads: nothing for an
/// empty configuration, the windows target's image override otherwise.
pub open spec fn spec_cross_config_text(windows_image: Option<Seq<char>>) -> Seq<char> {
    match windows_image {
        None => Seq::empty(),
        Some(image) => "[target.x86_64-pc-windows-gnu]\nimage = \""@ + image + "\"\n"@,
    }
}

impl Cross {
    /// Creates the initial configuration, with no overrides.
    pub fn new() -> (r: Cross)
        ensures
            r.windows is None,
    {
        Cross { windows: None }
    }

    /// Returns the configuration as the text the cross-compilation tool
    /// reads.
    pub fn to_string(&self) -> (r: String)
        ensures
            r@ == spec_cross_config_text(
                if self.windows is Some {
                    Some((self.windows->0).image@)
                } else {
                    None
                },
            ),
    {
        match &self.windows {
            None => String::new(),
            Some(w) => {
                let mut r = "[target.x86_64-pc-windows-gnu]\nimage = \"".to_owned();
                r.append(w.image.as_str());
                r.append("\"\n");
                proof {
                    assert(r@ =~= "[target.x86_64-pc-windows-gnu]\nimage = \""@ + w.image@
                        + "\"\n"@);
                }
                r
            },
        }
    }
}

} // verus!
