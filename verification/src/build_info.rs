//! Build metadata.
use vstd::prelude::*;

verus! {

/// What is known of the build of this library.
#[derive(Debug, Clone, Copy, PartialEq, Eq)]
pub struct BuildInfo {
    pub package: &'static str,
    pub version: &'static str,
    pub git_sha: &'static str,
    pub git_tag: &'static str,
    pub build_timestamp: &'static str,
}

/// The build metadata of this library. Commit, tag and build time are not recorded in
/// the library; they read `unknown`, `none` and `unknown`.
pub fn build_info() -> (info: BuildInfo)
    ensures
        info.package@ == "cncore"@,
        info.version@ == "0.1.0"@,
        info.git_sha@ == "unknown"@,
        info.git_tag@ == "none"@,
        info.build_timestamp@ == "unknown"@,
{
    BuildInfo {
        package: "cncore",
        version: "0.1.0",
        git_sha: "unknown",
        git_tag: "none",
        build_timestamp: "unknown",
    }
}

} // verus!
