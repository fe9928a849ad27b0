//! Platform-dependent choices: the rendering backend and the library names.
use vstd::prelude::*;

verus! {

/// The operating system a build targets.
#[derive(Clone, Copy, Debug, PartialEq, Eq, Structural)]
pub enum Platform {
    Windows,
    MacOs,
    Other,
}

/// The rendering backends.
#[derive(Clone, Copy, Debug, PartialEq, Eq, Structural)]
pub enum BackendType {
    D3D12,
    Metal,
}

impl BackendType {
    /// The backend of a platform: Direct3D 12 on Windows, Metal on macOS;
    /// other platforms have none.
    pub fn default(platform: Platform) -> (r: Option<BackendType>)
        ensures
            r == match platform {
                Platform::Windows => Some(BackendType::D3D12),
                Platform::MacOs => Some(BackendType::Metal),
                Platform::Other => None::<BackendType>,
            },
    {
        match platform {
            Platform::Windows => Some(BackendType::D3D12),
            Platform::MacOs => Some(BackendType::Metal),
            Platform::Other => None,
        }
    }

    /// A human-readable name.
    pub fn name(&self) -> (r: &'static str)
        ensures
            r@ == match *self {
                BackendType::D3D12 => "Direct3D 12"@,
                BackendType::Metal => "Metal"@,
            },
    {
        match self {
            BackendType::D3D12 => "Direct3D 12",
            BackendType::Metal => "Metal",
        }
    }
}

/// The file name of a dynamic library on a platform, given its Windows,
/// macOS and other spellings.
pub open spec fn library_file_name(platform: Platform, windows: Seq<char>, macos: Seq<char>, other: Seq<char>) -> Seq<char> {
    match platform {
        Platform::Windows => windows,
        Platform::MacOs => macos,
        Platform::Other => other,
    }
}

} // verus!
