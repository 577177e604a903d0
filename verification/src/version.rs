//! Migration versions: the MAJOR.MINOR.PATCH triple parsed from the file
//! name of a versioned migration. Parsing is delegated to the semver crate;
//! the migration file-name grammar admits only plain triples, so a version
//! carrying pre-release or build metadata is treated as unparsable.
use vstd::prelude::*;

verus! {

/// A parsed semantic version: major, minor and patch.
#[derive(Clone, Copy, PartialEq, Eq, Structural, Debug)]
pub struct Version {
    pub major: u64,
    pub minor: u64,
    pub patch: u64,
}

/// What semver::Version::parse returns for a string: the three numeric
/// components together with the pre-release and build metadata texts, or
/// nothing when the string is not a valid semantic version.
pub uninterp spec fn semver_of(s: Seq<char>) -> Option<(u64, u64, u64, Seq<char>, Seq<char>)>;

/// Relies on semver::Version::parse: whether a string is a valid semantic
/// version and, if so, its numeric components and its pre-release and build
/// metadata texts; a pure function of the characters alone.
#[verifier::external_body]
pub(crate) fn parse_semver(s: &str) -> (r: Option<(u64, u64, u64, String, String)>)
    ensures
        match r {
            Some(p) => semver_of(s@) == Some((p.0, p.1, p.2, p.3@, p.4@)),
            None => semver_of(s@) is None,
        },
{
    match semver::Version::parse(s) {
        Ok(v) => Some(
            (v.major, v.minor, v.patch, v.pre.as_str().to_string(), v.build.as_str().to_string()),
        ),
        Err(_) => None,
    }
}

/// The version a string denotes in the migration file-name grammar: a plain
/// MAJOR.MINOR.PATCH semantic version, with no pre-release and no build
/// metadata.
pub open spec fn spec_parse_version(s: Seq<char>) -> Option<Version> {
    match semver_of(s) {
        Some(p) => if p.3.len() == 0 && p.4.len() == 0 {
            Some(Version { major: p.0, minor: p.1, patch: p.2 })
        } else {
            None
        },
        None => None,
    }
}

/// Parses a version string of the migration file-name grammar.
pub fn parse_version(s: &str) -> (r: Option<Version>)
    ensures
        r == spec_parse_version(s@),
{
    match parse_semver(s) {
        Some(p) => {
            if p.3.as_str().is_empty() && p.4.as_str().is_empty() {
                Some(Version { major: p.0, minor: p.1, patch: p.2 })
            } else {
                None
            }
        },
        None => None,
    }
}

/// The order on versions: by major, then minor, then patch.
pub open spec fn spec_version_le(a: Version, b: Version) -> bool {
    if a.major != b.major {
        a.major < b.major
    } else if a.minor != b.minor {
        a.minor < b.minor
    } else {
        a.patch <= b.patch
    }
}

/// Compares two versions in the order by major, then minor, then patch.
pub fn version_le(a: &Version, b: &Version) -> (r: bool)
    ensures
        r == spec_version_le(*a, *b),
{
    if a.major != b.major {
        a.major < b.major
    } else if a.minor != b.minor {
        a.minor < b.minor
    } else {
        a.patch <= b.patch
    }
}

} // verus!
