use vstd::prelude::*;

verus! {

/// The release number of this program.
pub const VERSION: &'static str = "0.3.0";

/// The program name with its release number.
pub const VERSION_STRING: &'static str = "nwipe 0.3.0 (Rust Edition)";

/// The copyright line shown beside the version.
pub const COPYRIGHT: &'static str =
    "Copyright (C) 2025 Sebastiaan Koetsier, based on work by Darik Horn and Andy Beverley";

/// The program name with its release number.
pub fn version_string() -> (r: String)
    ensures
        r@ == VERSION_STRING@,
{
    VERSION_STRING.to_owned()
}

/// The copyright line.
pub fn copyright_string() -> (r: String)
    ensures
        r@ == COPYRIGHT@,
{
    COPYRIGHT.to_owned()
}

/// The version string and the copyright line, one per line.
pub fn version_info() -> (r: String)
    ensures
        r@ == VERSION_STRING@ + "\n"@ + COPYRIGHT@,
{
    let mut s = VERSION_STRING.to_owned();
    s.append("\n");
    s.append(COPYRIGHT);
    s
}

} // verus!
