use crate::error::ReleaseError;
use vstd::prelude::*;

verus! {

/// The error of `semver::Version::parse`, carried through as an opaque value.
#[verifier::external_type_specification]
#[verifier::external_body]
pub struct ExSemverError(semver::Error);

/// What `semver::Version::parse` makes of a text: `None` where it rejects the
/// text, else major, minor, patch, the pre-release text and the build text.
pub uninterp spec fn semver_parse(text: Seq<char>) -> Option<(u64, u64, u64, Seq<char>, Seq<char>)>;

/// How `semver::Prerelease` orders two pre-release texts: `None` where one of
/// them is no pre-release text, else -1, 0 or 1 for less, equal, greater.
pub uninterp spec fn prerelease_precedence(a: Seq<char>, b: Seq<char>) -> Option<i8>;

/// A semantic version, held as the values that parsing produced.
#[derive(Debug, Clone, PartialEq, Eq, Hash)]
pub struct Version {
    pub major: u64,
    pub minor: u64,
    pub patch: u64,
    pub pre: String,
    pub build: String,
}

/// `a` comes before `b`, or ties with it, by pre-release text alone.
pub open spec fn pre_le(a: Seq<char>, b: Seq<char>) -> bool {
    match prerelease_precedence(a, b) {
        Some(c) => c <= 0,
        None => false,
    }
}

/// Precedence over the parts of two versions: major, then minor, then patch,
/// then the pre-release text; build metadata plays no part.
pub open spec fn parts_le(
    a: (u64, u64, u64, Seq<char>, Seq<char>),
    b: (u64, u64, u64, Seq<char>, Seq<char>),
) -> bool {
    a.0 < b.0 || (a.0 == b.0 && (a.1 < b.1 || (a.1 == b.1 && (a.2 < b.2 || (a.2 == b.2 && pre_le(
        a.3,
        b.3,
    ))))))
}

/// Precedence by the three numbers alone: major, then minor, then patch.
pub open spec fn numbers_le(a: Version, b: Version) -> bool {
    a.major < b.major || (a.major == b.major && (a.minor < b.minor || (a.minor == b.minor
        && a.patch <= b.patch)))
}

/// The version is a full release: it has no pre-release text.
pub open spec fn is_release(v: Version) -> bool {
    v.pre@.len() == 0
}

/// The two versions tie in precedence: same numbers, same pre-release text.
pub open spec fn ties(a: Version, b: Version) -> bool {
    a.major == b.major && a.minor == b.minor && a.patch == b.patch && a.pre@ == b.pre@
}

/// Precedence of versions.
pub open spec fn version_le(a: Version, b: Version) -> bool {
    parts_le(a.parts(), b.parts())
}

/// The parts `v` lie in the window from `start` to `end`, both ends included.
pub open spec fn parts_in_window(
    v: (u64, u64, u64, Seq<char>, Seq<char>),
    start: Version,
    end: Version,
) -> bool {
    parts_le(start.parts(), v) && parts_le(v, end.parts())
}

/// `v` lies in the window from `start` to `end`, both ends included.
pub open spec fn in_window(v: Version, start: Version, end: Version) -> bool {
    parts_in_window(v.parts(), start, end)
}

/// Calls `semver::Version::parse` and copies the fields of what it returns.
/// The contract names the outcome, `semver_parse` of the text, and adds that
/// the pre-release text of a parsed version is one that `semver::Prerelease`
/// accepts and finds equal to itself: the parser reads it by the same rules.
#[verifier::external_body]
fn parse_semver(text: &str) -> (r: Result<Version, semver::Error>)
    ensures
        match r {
            Ok(v) => semver_parse(text@) == Some(v.parts()) && prerelease_precedence(v.pre@, v.pre@)
                == Some(0i8),
            Err(_) => semver_parse(text@) is None,
        },
{
    match semver::Version::parse(text) {
        Ok(v) => Ok(
            Version {
                major: v.major,
                minor: v.minor,
                patch: v.patch,
                pre: v.pre.as_str().to_string(),
                build: v.build.as_str().to_string(),
            },
        ),
        Err(e) => Err(e),
    }
}

/// Builds two `semver::Prerelease` values with `Prerelease::new` and compares
/// them with their `Ord` impl. The contract names the outcome and adds what
/// that impl decides before it looks at any identifier: a comparison, where
/// there is one, is -1, 0 or 1; two empty texts are equal; an empty text, which
/// stands for a full release, comes after every other.
#[verifier::external_body]
fn prerelease_order(a: &str, b: &str) -> (r: Option<i8>)
    ensures
        r == prerelease_precedence(a@, b@),
        r matches Some(c) ==> -1 <= c <= 1,
        a@.len() == 0 && b@.len() == 0 ==> r == Some(0i8),
        a@.len() == 0 && b@.len() > 0 ==> r is None || r == Some(1i8),
        a@.len() > 0 && b@.len() == 0 ==> r is None || r == Some(-1i8),
{
    match (semver::Prerelease::new(a), semver::Prerelease::new(b)) {
        (Ok(x), Ok(y)) => Some(
            match x.cmp(&y) {
                std::cmp::Ordering::Less => -1,
                std::cmp::Ordering::Equal => 0,
                std::cmp::Ordering::Greater => 1,
            },
        ),
        _ => None,
    }
}

impl Version {
    /// The version is well formed: it is a full release, or its pre-release
    /// text is one that the pre-release order accepts.
    pub open spec fn is_valid(&self) -> bool {
        is_release(*self) || prerelease_precedence(self.pre@, self.pre@) == Some(0i8)
    }

    /// The fields as one tuple of plain values.
    pub open spec fn parts(&self) -> (u64, u64, u64, Seq<char>, Seq<char>) {
        (self.major, self.minor, self.patch, self.pre@, self.build@)
    }

    /// Parses a semantic version; any text that is none is `MalformedTag`.
    pub fn parse(text: &str) -> (r: Result<Version, ReleaseError>)
        ensures
            match r {
                Ok(v) => semver_parse(text@) == Some(v.parts()) && v.is_valid(),
                Err(e) => semver_parse(text@) is None && e == ReleaseError::MalformedTag,
            },
    {
        version_from_outcome(parse_semver(text))
    }

    /// `self` comes before `other` in precedence, or ties with it. Between
    /// full releases the three numbers decide; a full release never comes
    /// before a pre-release of the same three numbers; a well-formed version
    /// ties with every version of its numbers and pre-release text.
    pub fn le(&self, other: &Version) -> (r: bool)
        ensures
            r == version_le(*self, *other),
            is_release(*self) && is_release(*other) ==> r == numbers_le(*self, *other),
            is_release(*self) && !is_release(*other) ==> r == (numbers_le(*self, *other) && !(
            numbers_le(*other, *self))),
            r ==> numbers_le(*self, *other),
            self.is_valid() && ties(*self, *other) ==> r,
    {
        if self.major != other.major {
            self.major < other.major
        } else if self.minor != other.minor {
            self.minor < other.minor
        } else if self.patch != other.patch {
            self.patch < other.patch
        } else {
            pre_le_outcome(prerelease_order(self.pre.as_str(), other.pre.as_str()))
        }
    }

    /// `self` lies between `start` and `end`, both included. Among full
    /// releases the three numbers decide, and a well-formed version lies in
    /// the window whose two ends tie with it.
    pub fn within(&self, start: &Version, end: &Version) -> (r: bool)
        ensures
            r == in_window(*self, *start, *end),
            is_release(*self) && is_release(*start) && is_release(*end) ==> r == (numbers_le(
                *start,
                *self,
            ) && numbers_le(*self, *end)),
            r ==> numbers_le(*start, *self) && numbers_le(*self, *end),
            self.is_valid() && ties(*self, *start) && ties(*self, *end) ==> r,
    {
        start.le(self) && self.le(end)
    }

    /// The two versions have the same parts.
    pub fn same(&self, other: &Version) -> (r: bool)
        ensures
            r == (self.parts() == other.parts()),
    {
        self.major == other.major && self.minor == other.minor && self.patch == other.patch
            && self.pre == other.pre && self.build == other.build
    }

    /// Component-wise difference of the three numbers; the result is a plain
    /// release without pre-release or build text.
    pub fn sub(self, rhs: Version) -> (r: Version)
        requires
            self.major >= rhs.major,
            self.minor >= rhs.minor,
            self.patch >= rhs.patch,
        ensures
            r.major == self.major - rhs.major,
            r.minor == self.minor - rhs.minor,
            r.patch == self.patch - rhs.patch,
            r.pre@.len() == 0,
            r.build@.len() == 0,
            r.is_valid(),
    {
        Version {
            major: self.major - rhs.major,
            minor: self.minor - rhs.minor,
            patch: self.patch - rhs.patch,
            pre: String::new(),
            build: String::new(),
        }
    }
}

/// Turns the outcome of the outside parser into the library's own result.
pub fn version_from_outcome(outcome: Result<Version, semver::Error>) -> (r: Result<
    Version,
    ReleaseError,
>)
    ensures
        match (outcome, r) {
            (Ok(v), Ok(w)) => v == w,
            (Err(_), Err(e)) => e == ReleaseError::MalformedTag,
            _ => false,
        },
{
    match outcome {
        Ok(v) => Ok(v),
        Err(_) => Err(ReleaseError::MalformedTag),
    }
}

/// Decides "before or tied" from the outcome of a pre-release comparison.
pub fn pre_le_outcome(outcome: Option<i8>) -> (r: bool)
    ensures
        r == (outcome matches Some(c) && c <= 0),
{
    match outcome {
        Some(c) => c <= 0,
        None => false,
    }
}

/// Reads text as a version, the way a deserializer's visitor does.
pub struct VersionVisitor;

impl VersionVisitor {
    /// A query parameter that is no semantic version is `InvalidVersionParam`.
    pub fn visit_str(&self, v: &str) -> (r: Result<Version, ReleaseError>)
        ensures
            match r {
                Ok(w) => semver_parse(v@) == Some(w.parts()) && w.is_valid(),
                Err(e) => semver_parse(v@) is None && e == ReleaseError::InvalidVersionParam,
            },
    {
        match parse_semver(v) {
            Ok(w) => Ok(w),
            Err(_) => Err(ReleaseError::InvalidVersionParam),
        }
    }
}

/// If `v` lies in a window whose two ends are the same version, its three
/// numbers are those of that version and its pre-release text ties with that
/// version's.
pub proof fn lemma_point_window(v: Version, bound: Version)
    requires
        in_window(v, bound, bound),
    ensures
        v.major == bound.major,
        v.minor == bound.minor,
        v.patch == bound.patch,
        pre_le(v.pre@, bound.pre@),
        pre_le(bound.pre@, v.pre@),
{
}

/// A version inside a window is bounded by the window's ends, number by
/// number, as far as the ends agree on the numbers before.
pub proof fn lemma_window_bounds(v: Version, start: Version, end: Version)
    requires
        in_window(v, start, end),
    ensures
        start.major <= v.major <= end.major,
        start.major == end.major ==> start.minor <= v.minor <= end.minor,
        start.major == end.major && start.minor == end.minor ==> start.patch <= v.patch <= end.patch,
{
}

} // verus!
