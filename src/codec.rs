use vstd::prelude::*;

use crate::binary::BinaryError;

verus! {

/// Version of the JSON clip format that this library reads and writes.
pub const FORMAT_VERSION: u32 = 2;

/// Why a clip could not be loaded.
#[derive(Debug, Clone, PartialEq, Eq)]
pub enum LoadError {
    /// The JSON text names a format version other than the current one.
    UnsupportedVersion { found: u32 },
    /// The JSON text is not a clip; the message says where and why.
    Malformed { message: String },
    /// The binary buffer's length is not the one its header calls for.
    Binary(BinaryError),
}

/// The format version assumed when a JSON clip names none.
pub fn default_version() -> (r: u32)
    ensures
        r == FORMAT_VERSION,
{
    FORMAT_VERSION
}

/// Accepts the current format version and rejects every other one.
pub fn check_version(version: u32) -> (r: Result<(), LoadError>)
    ensures
        version == FORMAT_VERSION ==> r is Ok,
        version != FORMAT_VERSION ==> r == Err::<(), LoadError>(
            LoadError::UnsupportedVersion { found: version },
        ),
{
    if version == FORMAT_VERSION {
        Ok(())
    } else {
        Err(LoadError::UnsupportedVersion { found: version })
    }
}

} // verus!
