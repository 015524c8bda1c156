//! Container image recipes for a game server.

use vstd::prelude::*;
use crate::text::{replace_char, replace_all};

verus! {

/// The mark that stands for the Java version in the recipe template.
pub const PLACEHOLDER: char = '\u{FFFD}';

/// The recipe template; every `PLACEHOLDER` in it is filled in with the Java
/// version.
pub const DOCKERFILE: &'static str = "FROM eclipse-temurin:\u{FFFD}-jre-alpine\n\nWORKDIR /srv/minecraft\nCOPY dockerfs .\n\nEXPOSE 25565 25575\nENTRYPOINT [ \"./run.sh\" ]";

/// The recipe for an image that runs the server on the Java version that
/// `version` spells out: the template with `version` in place of every
/// placeholder.
pub fn dockerfile_for(version: &str) -> (r: String)
    ensures
        r@ == replace_char(DOCKERFILE@, PLACEHOLDER, version@),
{
    replace_all(DOCKERFILE, PLACEHOLDER, version)
}

/// The recipe for an image that runs the server on the given Java version,
/// whatever its type: the recipe for the text that the version prints as.
pub fn generate_dockerfile<V: core::fmt::Display>(java_version: V) -> (r: String)
    ensures
        exists|version: String|
            vstd::string::to_string_from_display_ensures::<V>(&java_version, version) && r@
                == replace_char(DOCKERFILE@, PLACEHOLDER, version@),
{
    let version = java_version.to_string();
    dockerfile_for(version.as_str())
}

} // verus!
