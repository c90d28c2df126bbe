//! `weaver --version`: build provenance and its one-line rendering.

use vstd::prelude::*;
use crate::types::message::BUS_PROTOCOL_VERSION_STR;

verus! {

/// Build provenance of the binary.
#[derive(Debug)]
pub struct VersionInfo {
    pub name: &'static str,
    pub version: &'static str,
    pub commit: &'static str,
    pub dirty: bool,
    pub built_at: &'static str,
    pub profile: &'static str,
    pub rustc: &'static str,
    pub bus_protocol: &'static str,
}

/// `debug` for a debug build flag of `"true"`, else `release`.
pub fn profile_label(debug_flag: &str) -> (r: &'static str)
    ensures
        r@ == if debug_flag@ == "true"@ { "debug"@ } else { "release"@ },
{
    if crate::text::str_eq(debug_flag, "true") {
        "debug"
    } else {
        "release"
    }
}

impl VersionInfo {
    /// Provenance from the build's raw values; `dirty_flag` and
    /// `debug_flag` are the strings `"true"` or `"false"`.
    pub fn from_build(
        version: &'static str,
        commit: &'static str,
        dirty_flag: &str,
        built_at: &'static str,
        debug_flag: &str,
        rustc: &'static str,
    ) -> (v: Self)
        ensures
            v.name@ == "weaver"@,
            v.version == version,
            v.commit == commit,
            v.dirty == (dirty_flag@ == "true"@),
            v.built_at == built_at,
            v.profile@ == if debug_flag@ == "true"@ { "debug"@ } else { "release"@ },
            v.rustc == rustc,
            v.bus_protocol == BUS_PROTOCOL_VERSION_STR,
    {
        VersionInfo {
            name: "weaver",
            version,
            commit,
            dirty: crate::text::str_eq(dirty_flag, "true"),
            built_at,
            profile: profile_label(debug_flag),
            rustc,
            bus_protocol: BUS_PROTOCOL_VERSION_STR,
        }
    }
}

/// `<name> <version> (commit <sha>[, dirty])`.
pub open spec fn spec_version_line(info: VersionInfo) -> Seq<char> {
    info.name@ + " "@ + info.version@ + " (commit "@ + info.commit@ + (if info.dirty { ", dirty"@ } else { ""@ })
        + ")"@
}

/// The single-line version string.
pub fn version_line(info: &VersionInfo) -> (s: String)
    ensures
        s@ == spec_version_line(*info),
{
    let mut s = String::from_str(info.name);
    s.append(" ");
    s.append(info.version);
    s.append(" (commit ");
    s.append(info.commit);
    s.append(if info.dirty { ", dirty" } else { "" });
    s.append(")");
    s
}

} // verus!
