//! The platform visual-effect compatibility table: a pure lookup deciding
//! whether a named effect is supported on a given operating system, version,
//! and optional build number. A negative answer is not an error; the caller
//! simply requests no effect.

use crate::text::{
    parse_u64, parse_u64_spec, parse_version, starts_with, str_eq, str_starts_with, version_num,
};
use vstd::prelude::*;

verus! {

/// No build information counts as new enough; a build string counts only if
/// it is a decimal number at least `min`.
pub open spec fn build_at_least(build: Option<Seq<char>>, min: u64) -> bool {
    match build {
        None => true,
        Some(b) => match parse_u64_spec(b) {
            Some(n) => n >= min,
            None => false,
        },
    }
}

/// The version string reads as a (major, minor) pair at least
/// (`major`, `minor`); a string that is no version number never qualifies.
pub open spec fn version_at_least(v: Seq<char>, major: u64, minor: u64) -> bool {
    match version_num(v) {
        Some(p) => p.0 > major || (p.0 == major && p.1 >= minor),
        None => false,
    }
}

/// The compatibility rule.
/// - Windows acrylic: version 10 needs build 1803 or newer (or no build
///   information); version 11 always supports it.
/// - Windows mica: version 11 only, build 22000 or newer (or no build
///   information).
/// - macOS vibrancy: version 10.10 or newer.
/// - Any other pair of system and effect: unsupported.
pub open spec fn effect_supported(
    effect: Seq<char>,
    os_name: Seq<char>,
    os_version: Seq<char>,
    os_build: Option<Seq<char>>,
) -> bool {
    if os_name == "Windows"@ && effect == "acrylic"@ {
        if starts_with(os_version, "10"@) {
            build_at_least(os_build, 1803)
        } else {
            starts_with(os_version, "11"@)
        }
    } else if os_name == "Windows"@ && effect == "mica"@ {
        starts_with(os_version, "11"@) && build_at_least(os_build, 22000)
    } else if os_name == "macOS"@ && effect == "vibrancy"@ {
        version_at_least(os_version, 10, 10)
    } else {
        false
    }
}

fn build_ok(build: Option<&str>, min: u64) -> (r: bool)
    ensures
        r == build_at_least(build.deep_view(), min),
{
    match build {
        None => true,
        Some(b) => match parse_u64(b) {
            Some(n) => n >= min,
            None => false,
        },
    }
}

/// Decide whether the named visual effect can be applied on the given
/// operating system, version string, and optional build string, following the
/// compatibility rule of `effect_supported`.
pub fn can_apply_effect(effect: &str, os_name: &str, os_version: &str, os_build: Option<&str>) -> (r:
    bool)
    ensures
        r == effect_supported(effect@, os_name@, os_version@, os_build.deep_view()),
{
    if str_eq(os_name, "Windows") && str_eq(effect, "acrylic") {
        if str_starts_with(os_version, "10") {
            build_ok(os_build, 1803)
        } else {
            str_starts_with(os_version, "11")
        }
    } else if str_eq(os_name, "Windows") && str_eq(effect, "mica") {
        if str_starts_with(os_version, "11") {
            build_ok(os_build, 22000)
        } else {
            false
        }
    } else if str_eq(os_name, "macOS") && str_eq(effect, "vibrancy") {
        match parse_version(os_version) {
            Some(p) => p.0 > 10 || (p.0 == 10 && p.1 >= 10),
            None => false,
        }
    } else {
        false
    }
}

} // verus!
