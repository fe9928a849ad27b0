//! Naming of the engine library that the lolite worker process loads.
use crate::platform::{library_file_name, Platform};
use vstd::prelude::*;

verus! {

/// `lolite.dll` on Windows, `liblolite.dylib` on macOS, `liblolite.so`
/// elsewhere.
pub fn default_library_name(platform: Platform) -> (r: String)
    ensures
        r@ == library_file_name(platform, "lolite.dll"@, "liblolite.dylib"@, "liblolite.so"@),
{
    match platform {
        Platform::Windows => "lolite.dll".to_string(),
        Platform::MacOs => "liblolite.dylib".to_string(),
        Platform::Other => "liblolite.so".to_string(),
    }
}

} // verus!
