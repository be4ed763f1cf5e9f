//! Semantic versions. A version is held as its three numbers and the texts
//! of its pre-release and build identifiers; reading a version from text and
//! ordering identifiers are left to the `semver` crate.

use vstd::prelude::*;
use vstd::string::*;
use crate::text::{append_chars, decimal, push_decimal, str_eq, to_chars, to_text};

verus! {

/// A version as a mathematical value.
pub struct SemVer {
    pub major: u64,
    pub minor: u64,
    pub patch: u64,
    pub pre: Seq<char>,
    pub build: Seq<char>,
}

/// A semantic version.
#[derive(Debug)]
pub struct Version {
    pub major: u64,
    pub minor: u64,
    pub patch: u64,
    /// The pre-release identifiers, empty for a release.
    pub pre: String,
    /// The build metadata, empty where there is none.
    pub build: String,
}

impl View for Version {
    type V = SemVer;

    open spec fn view(&self) -> SemVer {
        SemVer {
            major: self.major,
            minor: self.minor,
            patch: self.patch,
            pre: self.pre@,
            build: self.build@,
        }
    }
}

/// The version that `semver::Version::parse` reads from `text`, if it
/// accepts the text.
pub uninterp spec fn semver_parsed(text: Seq<char>) -> Option<SemVer>;

/// Whether the pre-release identifiers `a` come before `b` in the order of
/// `semver::Prerelease`; `None` where one of them is no pre-release text.
pub uninterp spec fn semver_prerelease_less(a: Seq<char>, b: Seq<char>) -> Option<bool>;

/// Whether the build metadata `a` comes before `b` in the order of
/// `semver::BuildMetadata`; `None` where one of them is no build metadata.
pub uninterp spec fn semver_build_less(a: Seq<char>, b: Seq<char>) -> Option<bool>;

/// The text of a version: the three numbers in base ten joined by dots, then
/// `-` and the pre-release where there is one, then `+` and the build
/// metadata where there is some.
pub open spec fn version_text(v: SemVer) -> Seq<char> {
    decimal(v.major as nat) + seq!['.'] + decimal(v.minor as nat) + seq!['.'] + decimal(
        v.patch as nat,
    ) + (if v.pre.len() > 0 {
        seq!['-'] + v.pre
    } else {
        Seq::empty()
    }) + (if v.build.len() > 0 {
        seq!['+'] + v.build
    } else {
        Seq::empty()
    })
}

/// Whether `a` is older than `b`. The numbers decide from left to right;
/// where they agree the pre-release identifiers decide, and after them the
/// build metadata. `None` where identifiers have to be compared that the
/// `semver` crate does not accept.
pub open spec fn precedes(a: SemVer, b: SemVer) -> Option<bool> {
    if a.major != b.major {
        Some(a.major < b.major)
    } else if a.minor != b.minor {
        Some(a.minor < b.minor)
    } else if a.patch != b.patch {
        Some(a.patch < b.patch)
    } else if a.pre != b.pre {
        semver_prerelease_less(a.pre, b.pre)
    } else if a.build != b.build {
        semver_build_less(a.build, b.build)
    } else {
        Some(false)
    }
}

/// Calls `semver::Version::parse`. The result is the version that the crate
/// reads from `text`, field by field, or `None` where the crate rejects the
/// text. A version that the crate has read is read again from its own text:
/// the crate prints a version in the form of `version_text` and accepts what
/// it prints.
#[verifier::external_body]
fn semver_parse(text: &str) -> (r: Option<Version>)
    ensures
        match r {
            Some(v) => semver_parsed(text@) == Some(v@) && semver_parsed(version_text(v@))
                == Some(v@),
            None => semver_parsed(text@).is_none(),
        },
{
    match semver::Version::parse(text) {
        Ok(v) => Some(
            Version {
                major: v.major,
                minor: v.minor,
                patch: v.patch,
                pre: v.pre.as_str().to_string(),
                build: v.build.as_str().to_string(),
            },
        ),
        Err(_) => None,
    }
}

/// Compares two pre-release texts with `<` on `semver::Prerelease`, after
/// `semver::Prerelease::new` has accepted both.
#[verifier::external_body]
fn prerelease_less(a: &str, b: &str) -> (r: Option<bool>)
    ensures
        r == semver_prerelease_less(a@, b@),
{
    match (semver::Prerelease::new(a), semver::Prerelease::new(b)) {
        (Ok(x), Ok(y)) => Some(x < y),
        _ => None,
    }
}

/// Compares two build metadata texts with `<` on `semver::BuildMetadata`,
/// after `semver::BuildMetadata::new` has accepted both.
#[verifier::external_body]
fn build_less(a: &str, b: &str) -> (r: Option<bool>)
    ensures
        r == semver_build_less(a@, b@),
{
    match (semver::BuildMetadata::new(a), semver::BuildMetadata::new(b)) {
        (Ok(x), Ok(y)) => Some(x < y),
        _ => None,
    }
}

impl Version {
    /// A version that is read back from its own text as itself. Every
    /// version that `parse` returns is canonical.
    pub open spec fn canonical(&self) -> bool {
        semver_parsed(version_text(self@)) == Some(self@)
    }

    /// The release `major.minor.patch`.
    pub fn new(major: u64, minor: u64, patch: u64) -> (r: Version)
        ensures
            r@ == (SemVer { major, minor, patch, pre: Seq::empty(), build: Seq::empty() }),
    {
        Version { major, minor, patch, pre: String::new(), build: String::new() }
    }

    /// Reads a version from text.
    pub fn parse(text: &str) -> (r: Option<Version>)
        ensures
            match r {
                Some(v) => semver_parsed(text@) == Some(v@) && v.canonical(),
                None => semver_parsed(text@).is_none(),
            },
    {
        semver_parse(text)
    }

    /// The text of the version.
    pub fn to_string(&self) -> (r: String)
        ensures
            r@ == version_text(self@),
    {
        let mut out: Vec<char> = Vec::new();
        push_decimal(&mut out, self.major);
        out.push('.');
        push_decimal(&mut out, self.minor);
        out.push('.');
        push_decimal(&mut out, self.patch);
        let ghost numbers = out@;
        assert(numbers =~= decimal(self.major as nat) + seq!['.'] + decimal(self.minor as nat)
            + seq!['.'] + decimal(self.patch as nat));
        if !self.pre.as_str().is_empty() {
            out.push('-');
            let pre = to_chars(self.pre.as_str());
            append_chars(&mut out, &pre);
            assert(out@ =~= numbers + (seq!['-'] + self.pre@));
        } else {
            assert(out@ =~= numbers + Seq::<char>::empty());
        }
        let ghost upto = out@;
        if !self.build.as_str().is_empty() {
            out.push('+');
            let build = to_chars(self.build.as_str());
            append_chars(&mut out, &build);
            assert(out@ =~= upto + (seq!['+'] + self.build@));
        } else {
            assert(out@ =~= upto + Seq::<char>::empty());
        }
        to_text(&out)
    }

    /// Whether this version is older than `other`.
    pub fn is_older_than(&self, other: &Version) -> (r: Option<bool>)
        ensures
            r == precedes(self@, other@),
    {
        if self.major != other.major {
            Some(self.major < other.major)
        } else if self.minor != other.minor {
            Some(self.minor < other.minor)
        } else if self.patch != other.patch {
            Some(self.patch < other.patch)
        } else if !str_eq(self.pre.as_str(), other.pre.as_str()) {
            prerelease_less(self.pre.as_str(), other.pre.as_str())
        } else if !str_eq(self.build.as_str(), other.build.as_str()) {
            build_less(self.build.as_str(), other.build.as_str())
        } else {
            Some(false)
        }
    }
}

} // verus!
