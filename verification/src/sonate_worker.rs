//! Naming of the engine library that the sonate worker process loads.
use crate::platform::{library_file_name, Platform};
use vstd::prelude::*;

verus! {

/// `sonate.dll` on Windows, `libsonate.dylib` on macOS, `libsonate.so`
/// elsewhere.
pub fn default_library_name(platform: Platform) -> (r: String)
    ensures
        r@ == library_file_name(platform, "sonate.dll"@, "libsonate.dylib"@, "libsonate.so"@),
{
    match platform {
        Platform::Windows => "sonate.dll".to_string(),
        Platform::MacOs => "libsonate.dylib".to_string(),
        Platform::Other => "libsonate.so".to_string(),
    }
}

} // verus!
