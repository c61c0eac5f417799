use vstd::prelude::*;

verus! {

/// A semantic version as the install logic reads it.
#[derive(Clone, Copy, Debug, PartialEq, Eq, Structural, Hash)]
pub struct Version {
    pub major: u64,
    pub minor: u64,
    pub patch: u64,
}

/// Versions are ordered by (major, minor, patch), lexicographically.
pub open spec fn ver_le(a: Version, b: Version) -> bool {
    a.major < b.major || (a.major == b.major && (a.minor < b.minor || (a.minor == b.minor
        && a.patch <= b.patch)))
}

/// `v` is the highest version of `known` that `req` admits.
pub open spec fn is_highest(known: Set<Version>, req: Requirement, v: Version) -> bool {
    &&& known.contains(v)
    &&& req.admits_spec(v)
    &&& forall|w: Version| known.contains(w) && req.admits_spec(w) ==> ver_le(w, v)
}

/// Some version of `known` is admitted by `req`.
pub open spec fn any_admitted(known: Set<Version>, req: Requirement) -> bool {
    exists|w: Version| known.contains(w) && req.admits_spec(w)
}

/// True iff `text` is a version requirement that semver accepts.
pub uninterp spec fn req_parses(text: Seq<char>) -> bool;

/// True iff the requirement written `text` admits the version with these parts.
pub uninterp spec fn req_matches(text: Seq<char>, major: u64, minor: u64, patch: u64) -> bool;

/// Relies on `semver::VersionReq::parse`, which accepts or refuses the text
/// alone, and on `semver::VersionReq::matches` for the parsed requirement:
/// `None` when the text is refused, else whether it admits the version.
#[verifier::external_body]
fn requirement_matches(text: &str, v: Version) -> (r: Option<bool>)
    ensures
        r is Some == req_parses(text@),
        r matches Some(b) ==> b == req_matches(text@, v.major, v.minor, v.patch),
{
    match semver::VersionReq::parse(text) {
        Ok(req) => Some(req.matches(&semver::Version::new(v.major, v.minor, v.patch))),
        Err(_) => None,
    }
}

impl Version {
    pub fn new(major: u64, minor: u64, patch: u64) -> (r: Version)
        ensures
            r == (Version { major, minor, patch }),
    {
        Version { major, minor, patch }
    }

    /// Whether `self` orders at or before `other`.
    pub fn le(&self, other: &Version) -> (r: bool)
        ensures
            r == ver_le(*self, *other),
    {
        self.major < other.major || (self.major == other.major && (self.minor < other.minor || (
        self.minor == other.minor && self.patch <= other.patch)))
    }
}

/// A version requirement; an absent requirement admits every version.
#[derive(Clone, Debug)]
pub struct Requirement {
    text: Option<String>,
}

/// Why a requirement text was refused.
#[derive(Clone, Copy, Debug, PartialEq, Eq, Structural)]
pub enum RequirementError {
    Invalid,
}

impl Requirement {
    /// The requirement text, if one was given.
    pub closed spec fn text_spec(&self) -> Option<Seq<char>> {
        match self.text {
            Some(t) => Some(t@),
            None => None,
        }
    }

    pub open spec fn wf(&self) -> bool {
        match self.text_spec() {
            Some(t) => req_parses(t),
            None => true,
        }
    }

    /// Whether the requirement admits `v`; a text that does not parse admits nothing.
    pub open spec fn admits_spec(&self, v: Version) -> bool {
        match self.text_spec() {
            Some(t) => req_parses(t) && req_matches(t, v.major, v.minor, v.patch),
            None => true,
        }
    }

    /// The requirement that admits every version.
    pub fn any() -> (r: Requirement)
        ensures
            r.wf(),
            r.text_spec() is None,
            forall|v: Version| r.admits_spec(v),
    {
        Requirement { text: None }
    }

    /// Reads a requirement such as `~1.2` or `>=1.0, <2.0`.
    pub fn parse(text: &str) -> (r: Result<Requirement, RequirementError>)
        ensures
            r.is_ok() == req_parses(text@),
            r matches Ok(q) ==> q.wf() && q.text_spec() == Some(text@),
    {
        if requirement_matches(text, Version::new(0, 0, 0)).is_some() {
            Ok(Requirement { text: Some(text.to_string()) })
        } else {
            Err(RequirementError::Invalid)
        }
    }

    /// Normalises an optional requirement text: absent means "any version".
    pub fn from_option(text: Option<&str>) -> (r: Result<Requirement, RequirementError>)
        ensures
            text is None ==> (r matches Ok(q) && q.text_spec() is None && q.wf()),
            text matches Some(t) ==> r.is_ok() == req_parses(t@),
            text matches Some(t) ==> (r matches Ok(q) ==> q.wf() && q.text_spec() == Some(t@)),
    {
        match text {
            None => Ok(Requirement::any()),
            Some(t) => Requirement::parse(t),
        }
    }

    /// Whether the requirement admits `v`.
    pub fn admits(&self, v: &Version) -> (r: bool)
        ensures
            r == self.admits_spec(*v),
    {
        match &self.text {
            None => true,
            Some(t) => match requirement_matches(t.as_str(), *v) {
                Some(b) => b,
                None => false,
            },
        }
    }
}

} // verus!
