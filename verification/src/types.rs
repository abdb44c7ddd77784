use vstd::prelude::*;

verus! {

/// Version of the LMS contract interface.
///
/// Keeping this as a type of its own makes the version part of the
/// contract's interface rather than exposing a magic integer.
#[derive(Clone, Copy, Debug, PartialEq, Eq, Structural)]
pub enum LmsVersion {
    V1,
}

/// The bytes an interface version is stored as.
pub open spec fn version_bytes(version: LmsVersion) -> Seq<u8> {
    match version {
        LmsVersion::V1 => seq![1u8],
    }
}

/// Encodes an interface version for storage.
pub fn encode_version(version: LmsVersion) -> (out: Vec<u8>)
    ensures
        out@ == version_bytes(version),
{
    let mut out: Vec<u8> = Vec::new();
    match version {
        LmsVersion::V1 => out.push(1u8),
    }
    assert(out@ =~= version_bytes(version));
    out
}

} // verus!
