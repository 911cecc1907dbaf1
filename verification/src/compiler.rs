//! What the protobuf compiler tells of itself, as the `protoc` crate reads
//! it.

use vstd::prelude::*;

use crate::steps::{Event, EventView};

verus! {

#[verifier::external_type_specification]
#[verifier::external_body]
pub struct ExVersion(protoc::Version);

/// What `protoc::Version::is_3` answers for `version`: whether the compiler
/// is of major version 3, which the crate reads off the version that the
/// compiler printed.
pub uninterp spec fn tells_major_three(version: protoc::Version) -> bool;

/// `protoc::Version::is_3`: the crate's answer to whether the compiler is of
/// major version 3, for which it looks whether the version that the compiler
/// printed begins with `3`. The answer depends on the version alone, and is
/// known here by its name only.
#[verifier::external_body]
fn is_major_three(version: &protoc::Version) -> (r: bool)
    ensures
        r == tells_major_three(*version),
{
    version.is_3()
}

/// The report of a version that the compiler has told: it says of the
/// version what the `protoc` crate answers of it. What follows from either
/// answer is for [`Builder::advance`](crate::builder::Builder::advance).
pub fn version_read(version: &protoc::Version) -> (event: Event)
    ensures
        event@ == (EventView::VersionRead { major_is_three: tells_major_three(*version) }),
{
    Event::VersionRead { major_is_three: is_major_three(version) }
}

} // verus!
