//! Package versions, Unity editor versions, and dependency ranges.
//!
//! A `Version` is totally ordered; `DependencyRange` is a predicate over
//! versions that can also report whether it denotes exactly one version.

use vstd::prelude::*;
use vstd::string::StrSliceExecFns;

verus! {

/// A package version: major, minor, patch, and an optional prerelease tag.
/// A prerelease of a version orders before the release of the same version.
#[derive(Debug, Clone, Copy, PartialEq, Eq, Hash)]
pub struct Version {
    pub major: u64,
    pub minor: u64,
    pub patch: u64,
    pub pre: Option<u64>,
}

impl Version {
    pub open spec fn spec_is_prerelease(self) -> bool {
        self.pre is Some
    }

    /// Strict order on versions: lexicographic on (major, minor, patch),
    /// and a prerelease precedes the release of the same triple.
    pub open spec fn spec_lt(self, other: Version) -> bool {
        if self.major != other.major {
            self.major < other.major
        } else if self.minor != other.minor {
            self.minor < other.minor
        } else if self.patch != other.patch {
            self.patch < other.patch
        } else {
            match (self.pre, other.pre) {
                (Some(a), Some(b)) => a < b,
                (Some(_), None) => true,
                (None, Some(_)) => false,
                (None, None) => false,
            }
        }
    }

    pub open spec fn spec_le(self, other: Version) -> bool {
        self.spec_lt(other) || self == other
    }

    pub fn new(major: u64, minor: u64, patch: u64) -> (r: Version)
        ensures
            r == (Version { major, minor, patch, pre: None::<u64> }),
    {
        Version { major, minor, patch, pre: None }
    }

    pub fn new_pre(major: u64, minor: u64, patch: u64, pre: u64) -> (r: Version)
        ensures
            r == (Version { major, minor, patch, pre: Some(pre) }),
    {
        Version { major, minor, patch, pre: Some(pre) }
    }

    pub fn is_prerelease(&self) -> (r: bool)
        ensures
            r == self.spec_is_prerelease(),
    {
        matches!(self.pre, Some(_))
    }

    /// Decides the strict order `self < other`.
    pub fn lt(&self, other: &Version) -> (r: bool)
        ensures
            r == self.spec_lt(*other),
    {
        if self.major != other.major {
            self.major < other.major
        } else if self.minor != other.minor {
            self.minor < other.minor
        } else if self.patch != other.patch {
            self.patch < other.patch
        } else {
            match (self.pre, other.pre) {
                (Some(a), Some(b)) => a < b,
                (Some(_), None) => true,
                (None, Some(_)) => false,
                (None, None) => false,
            }
        }
    }

    /// Decides `self <= other`.
    pub fn le(&self, other: &Version) -> (r: bool)
        ensures
            r == self.spec_le(*other),
    {
        if self.major != other.major {
            self.major < other.major
        } else if self.minor != other.minor {
            self.minor < other.minor
        } else if self.patch != other.patch {
            self.patch < other.patch
        } else {
            match (self.pre, other.pre) {
                (Some(a), Some(b)) => a <= b,
                (Some(_), None) => true,
                (None, Some(_)) => false,
                (None, None) => true,
            }
        }
    }

    /// Structural equality, decided field by field.
    pub fn same(&self, other: &Version) -> (r: bool)
        ensures
            r == (*self == *other),
    {
        self.major == other.major && self.minor == other.minor && self.patch == other.patch
            && (match (self.pre, other.pre) {
            (Some(a), Some(b)) => a == b,
            (None, None) => true,
            _ => false,
        })
    }
}

/// The order on versions is total: of any two versions, one is `<=` the other,
/// and mutual `<=` means equality.
pub proof fn lemma_version_order_total(a: Version, b: Version)
    ensures
        a.spec_le(b) || b.spec_le(a),
        a.spec_le(b) && b.spec_le(a) ==> a == b,
        a.spec_lt(b) ==> !b.spec_lt(a),
{
}

/// The order on versions is transitive.
pub proof fn lemma_version_order_transitive(a: Version, b: Version, c: Version)
    ensures
        a.spec_lt(b) && b.spec_lt(c) ==> a.spec_lt(c),
        a.spec_le(b) && b.spec_le(c) ==> a.spec_le(c),
{
}

/// A range of acceptable versions for a dependency declaration.
#[derive(Debug, Clone, Copy, PartialEq, Eq, Hash)]
pub enum DependencyRange {
    /// Exactly one version.
    Exact(Version),
    /// Any version `>=` the given one.
    AtLeast(Version),
    /// Caret style: `>=` the given version, with the same major number.
    Caret(Version),
    /// Any version at all.
    Wildcard,
}

impl DependencyRange {
    /// Does `v` satisfy this range?
    pub open spec fn spec_matches(self, v: Version) -> bool {
        match self {
            DependencyRange::Exact(e) => v == e,
            DependencyRange::AtLeast(e) => e.spec_le(v),
            DependencyRange::Caret(e) => e.spec_le(v) && v.major == e.major,
            DependencyRange::Wildcard => true,
        }
    }

    /// The single version this range denotes, if it denotes exactly one.
    pub open spec fn spec_as_single_version(self) -> Option<Version> {
        match self {
            DependencyRange::Exact(e) => Some(e),
            _ => None,
        }
    }

    /// A range denoting exactly the given version.
    pub fn version(v: Version) -> (r: DependencyRange)
        ensures
            r == DependencyRange::Exact(v),
    {
        DependencyRange::Exact(v)
    }

    pub fn matches(&self, v: &Version) -> (r: bool)
        ensures
            r == self.spec_matches(*v),
    {
        match self {
            DependencyRange::Exact(e) => v.same(e),
            DependencyRange::AtLeast(e) => e.le(v),
            DependencyRange::Caret(e) => e.le(v) && v.major == e.major,
            DependencyRange::Wildcard => true,
        }
    }

    pub fn as_single_version(&self) -> (r: Option<Version>)
        ensures
            r == self.spec_as_single_version(),
    {
        match self {
            DependencyRange::Exact(e) => Some(*e),
            _ => None,
        }
    }
}

/// A version a range denotes as its single version satisfies that range.
pub proof fn lemma_single_version_matches(r: DependencyRange, v: Version)
    ensures
        r.spec_as_single_version() == Some(v) ==> r.spec_matches(v),
{
}

/// A Unity editor version: major, minor, revision, plus the packaging
/// suffix (release-type letter and increment). Suitability comparisons
/// look at the first three numbers; equality looks at all fields.
#[derive(Debug, Clone, Copy, PartialEq, Eq, Structural, Hash)]
pub struct UnityVersion {
    pub major: u64,
    pub minor: u64,
    pub revision: u64,
    /// The code of the release-type letter (as in the `f` of `2019.4.31f1`),
    /// or 0 when the string carries no suffix.
    pub release_type: u32,
    pub increment: u64,
}

impl UnityVersion {
    pub open spec fn spec_le(self, other: UnityVersion) -> bool {
        if self.major != other.major {
            self.major < other.major
        } else if self.minor != other.minor {
            self.minor < other.minor
        } else {
            self.revision <= other.revision
        }
    }

    pub fn new(major: u64, minor: u64, revision: u64) -> (r: UnityVersion)
        ensures
            r == (UnityVersion { major, minor, revision, release_type: 0u32, increment: 0u64 }),
    {
        UnityVersion { major, minor, revision, release_type: 0, increment: 0 }
    }

    pub fn le(&self, other: &UnityVersion) -> (r: bool)
        ensures
            r == self.spec_le(*other),
    {
        if self.major != other.major {
            self.major < other.major
        } else if self.minor != other.minor {
            self.minor < other.minor
        } else {
            self.revision <= other.revision
        }
    }
}

pub open spec fn spec_is_digit_char(c: char) -> bool {
    48 <= c as u32 <= 57
}

/// One step of parsing `major.minor.revision` with an optional suffix of
/// one release-type letter and an increment (as in `2019.4.31f1`).
/// `part` is the component being read (0 = major, 1 = minor,
/// 2 = revision, 3 = increment); `cur` accumulates its value and `seen`
/// says whether it has at least one digit.
pub open spec fn spec_parse_step(
    s: Seq<char>,
    part: int,
    cur: u64,
    seen: bool,
    maj: u64,
    min: u64,
    rev: u64,
    rtype: u32,
) -> Option<UnityVersion>
    decreases s.len(),
{
    if s.len() == 0 {
        if part == 2 && seen {
            Some(
                UnityVersion {
                    major: maj,
                    minor: min,
                    revision: cur,
                    release_type: 0,
                    increment: 0,
                },
            )
        } else if part == 3 && seen {
            Some(
                UnityVersion {
                    major: maj,
                    minor: min,
                    revision: rev,
                    release_type: rtype,
                    increment: cur,
                },
            )
        } else {
            None
        }
    } else {
        let c = s[0];
        if spec_is_digit_char(c) {
            let d = (c as u32 - 48) as u64;
            if cur > (0xffff_ffff_ffff_ffffu64 - d) / 10 {
                None
            } else {
                spec_parse_step(s.skip(1), part, (cur * 10 + d) as u64, true, maj, min, rev, rtype)
            }
        } else if c as u32 == 46 {
            if !seen {
                None
            } else if part == 0 {
                spec_parse_step(s.skip(1), 1, 0, false, cur, min, rev, rtype)
            } else if part == 1 {
                spec_parse_step(s.skip(1), 2, 0, false, maj, cur, rev, rtype)
            } else {
                None
            }
        } else {
            if part == 2 && seen {
                spec_parse_step(s.skip(1), 3, 0, false, maj, min, cur, c as u32)
            } else {
                None
            }
        }
    }
}

/// The parse of a Unity version string, over its characters.
pub open spec fn spec_parse_unity_version(s: Seq<char>) -> Option<UnityVersion> {
    spec_parse_step(s, 0, 0, false, 0, 0, 0, 0)
}

impl UnityVersion {
    /// Parses `major.minor.revision` with an optional release-type letter
    /// and increment (as in `2019.4.31f1`); returns `None` on any
    /// malformed input or on a component that does not fit in 64 bits.
    pub fn parse(s: &str) -> (r: Option<UnityVersion>)
        ensures
            r == spec_parse_unity_version(s@),
    {
        let n = s.unicode_len();
        let mut i: usize = 0;
        let mut part: u8 = 0;
        let mut cur: u64 = 0;
        let mut seen: bool = false;
        let mut maj: u64 = 0;
        let mut min: u64 = 0;
        let mut rev: u64 = 0;
        let mut rtype: u32 = 0;
        proof {
            assert(s@.skip(0) =~= s@);
        }
        loop
            invariant
                n == s@.len(),
                i <= n,
                part <= 3,
                spec_parse_step(
                    s@.skip(i as int),
                    part as int,
                    cur,
                    seen,
                    maj,
                    min,
                    rev,
                    rtype,
                ) == spec_parse_unity_version(s@),
            decreases n - i,
        {
            proof {
                if i < n {
                    assert(s@.skip(i as int)[0] == s@[i as int]);
                    assert(s@.skip(i as int).skip(1) =~= s@.skip(i as int + 1));
                }
            }
            if i >= n {
                proof {
                    assert(s@.skip(i as int) =~= Seq::<char>::empty());
                }
                if part == 2 && seen {
                    return Some(
                        UnityVersion {
                            major: maj,
                            minor: min,
                            revision: cur,
                            release_type: 0,
                            increment: 0,
                        },
                    );
                } else if part == 3 && seen {
                    return Some(
                        UnityVersion {
                            major: maj,
                            minor: min,
                            revision: rev,
                            release_type: rtype,
                            increment: cur,
                        },
                    );
                } else {
                    return None;
                }
            }
            let c = s.get_char(i);
            let code: u32 = c as u32;
            if 48 <= code && code <= 57 {
                let d: u64 = (code - 48) as u64;
                if cur > (0xffff_ffff_ffff_ffffu64 - d) / 10 {
                    return None;
                }
                proof {
                    let m = 0xffff_ffff_ffff_ffffu64;
                    assert(cur * 10 + d <= m) by (nonlinear_arith)
                        requires
                            cur <= (m - d) / 10,
                            0 <= d < 10,
                    {
                    }
                }
                cur = cur * 10 + d;
                seen = true;
            } else if code == 46 {
                if !seen {
                    return None;
                } else if part == 0 {
                    part = 1;
                    maj = cur;
                    cur = 0;
                    seen = false;
                } else if part == 1 {
                    part = 2;
                    min = cur;
                    cur = 0;
                    seen = false;
                } else {
                    return None;
                }
            } else {
                if part == 2 && seen {
                    part = 3;
                    rev = cur;
                    rtype = code;
                    cur = 0;
                    seen = false;
                } else {
                    return None;
                }
            }
            i = i + 1;
        }
    }
}

} // verus!
