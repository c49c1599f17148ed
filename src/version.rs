//! Semantic versions: parsing through the `semver` crate and a total order.
use vstd::prelude::*;

verus! {

/// Declares `semver::Error`, the error that `semver::Version::parse` returns.
#[verifier::external_type_specification]
#[verifier::external_body]
pub struct ExSemverError(semver::Error);

/// What `semver::Version::parse` yields for a text: `None` when it is refused,
/// otherwise major, minor, patch, pre-release text and build-metadata text.
pub uninterp spec fn semver_parsed(text: Seq<char>) -> Option<(u64, u64, u64, Seq<char>, Seq<char>)>;

/// The order that `semver::Version::cmp` gives two versions whose numeric parts are
/// equal, by their pre-release and build-metadata texts: -1, 0 or 1.
pub uninterp spec fn semver_tail_order(
    a_pre: Seq<char>,
    a_build: Seq<char>,
    b_pre: Seq<char>,
    b_build: Seq<char>,
) -> int;

/// A pre-release / build-metadata pair that some accepted version text carries.
pub open spec fn valid_tail(pre: Seq<char>, build: Seq<char>) -> bool {
    exists|t: Seq<char>, x: u64, y: u64, z: u64| semver_parsed(t) == Some((x, y, z, pre, build))
}

pub open spec fn is_digit(c: char) -> bool {
    '0' <= c && c <= '9'
}

/// The value of a run of decimal digits.
pub open spec fn digits_value(s: Seq<char>) -> int
    decreases s.len(),
{
    if s.len() == 0 {
        0
    } else {
        digits_value(s.drop_last()) * 10 + (s.last() as int - '0' as int)
    }
}

/// A decimal numeral as semver accepts one: digits only, no leading zero, and a
/// value that fits in `u64`.
pub open spec fn numeral(s: Seq<char>) -> bool {
    &&& s.len() > 0
    &&& forall|i: int| 0 <= i < s.len() ==> is_digit(#[trigger] s[i])
    &&& (s[0] == '0' ==> s.len() == 1)
    &&& digits_value(s) <= u64::MAX
}

/// `major.minor.patch` written as three numerals and nothing more.
pub open spec fn is_triple(t: Seq<char>, a: Seq<char>, b: Seq<char>, c: Seq<char>) -> bool {
    numeral(a) && numeral(b) && numeral(c) && t == a + seq!['.'] + b + seq!['.'] + c
}

/// Relies on `semver::Version::parse` for the syntax of a version text (it starts
/// with the major numeral; `a.b.c` of three plain numerals is a release with those
/// numbers), and on its public fields and `as_str` for the parts of the result.
#[verifier::external_body]
fn semver_parse(text: &str) -> (r: Result<(u64, u64, u64, String, String), semver::Error>)
    ensures
        match r {
            Ok(p) => semver_parsed(text@) == Some((p.0, p.1, p.2, p.3@, p.4@)),
            Err(_) => semver_parsed(text@) is None,
        },
        (text@.len() == 0 || !is_digit(text@[0])) ==> r is Err,
        forall|a: Seq<char>, b: Seq<char>, c: Seq<char>|
            #[trigger] is_triple(text@, a, b, c) ==> match r {
                Ok(p) => p.0 == digits_value(a) && p.1 == digits_value(b) && p.2 == digits_value(c)
                    && p.3@.len() == 0 && p.4@.len() == 0,
                Err(_) => false,
            },
{
    semver::Version::parse(text).map(
        |v| (v.major, v.minor, v.patch, v.pre.as_str().to_string(), v.build.as_str().to_string()),
    )
}

/// Relies on `semver::Prerelease::new` and `semver::BuildMetadata::new`, which accept
/// every pre-release and build text that `Version::parse` accepted, and on the
/// `Ord` of `semver::Version`: numbers first, then pre-release (a release ranks
/// above any pre-release of the same numbers), then build metadata.
#[verifier::external_body]
fn semver_tail_cmp(a_pre: &str, a_build: &str, b_pre: &str, b_build: &str) -> (r: i8)
    requires
        valid_tail(a_pre@, a_build@),
        valid_tail(b_pre@, b_build@),
    ensures
        r as int == semver_tail_order(a_pre@, a_build@, b_pre@, b_build@),
        -1 <= r <= 1,
        (a_pre@ == b_pre@ && a_build@ == b_build@) ==> r == 0,
        (a_pre@.len() == 0 && b_pre@.len() > 0) ==> r == 1,
        (a_pre@.len() > 0 && b_pre@.len() == 0) ==> r == -1,
{
    let a = semver::Version {
        pre: semver::Prerelease::new(a_pre).unwrap(),
        build: semver::BuildMetadata::new(a_build).unwrap(),
        ..semver::Version::new(0, 0, 0)
    };
    let b = semver::Version {
        pre: semver::Prerelease::new(b_pre).unwrap(),
        build: semver::BuildMetadata::new(b_build).unwrap(),
        ..semver::Version::new(0, 0, 0)
    };
    match a.cmp(&b) {
        std::cmp::Ordering::Less => -1,
        std::cmp::Ordering::Equal => 0,
        std::cmp::Ordering::Greater => 1,
    }
}

/// A parsed semantic version: `major.minor.patch`, an optional pre-release and
/// optional build metadata.
pub struct Version {
    major: u64,
    minor: u64,
    patch: u64,
    pre: String,
    build: String,
}

/// Why a version text was refused.
#[derive(Debug, Clone, PartialEq, Eq)]
pub struct InvalidVersion {
    pub text: String,
}

/// Sign of an integer comparison: -1, 0 or 1.
pub open spec fn cmp_int(a: int, b: int) -> int {
    if a < b {
        -1
    } else if a > b {
        1
    } else {
        0
    }
}

pub open spec fn ordering_of(v: int) -> std::cmp::Ordering {
    if v < 0 {
        std::cmp::Ordering::Less
    } else if v > 0 {
        std::cmp::Ordering::Greater
    } else {
        std::cmp::Ordering::Equal
    }
}

impl Version {
    #[verifier::type_invariant]
    spec fn inv(self) -> bool {
        valid_tail(self.pre@, self.build@)
    }

    pub closed spec fn spec_major(self) -> u64 {
        self.major
    }

    pub closed spec fn spec_minor(self) -> u64 {
        self.minor
    }

    pub closed spec fn spec_patch(self) -> u64 {
        self.patch
    }

    pub closed spec fn spec_pre(self) -> Seq<char> {
        self.pre@
    }

    pub closed spec fn spec_build(self) -> Seq<char> {
        self.build@
    }

    /// The parts of the version, as `semver_parsed` lists them.
    pub open spec fn parts(self) -> (u64, u64, u64, Seq<char>, Seq<char>) {
        (self.spec_major(), self.spec_minor(), self.spec_patch(), self.spec_pre(), self.spec_build())
    }

    /// A plain release: no pre-release, no build metadata.
    pub open spec fn is_release(self) -> bool {
        self.spec_pre().len() == 0 && self.spec_build().len() == 0
    }

    /// Semantic-version precedence as -1, 0 or 1: numbers first, then the
    /// pre-release / build order of semver.
    pub open spec fn order(self, other: Version) -> int {
        if self.spec_major() != other.spec_major() {
            cmp_int(self.spec_major() as int, other.spec_major() as int)
        } else if self.spec_minor() != other.spec_minor() {
            cmp_int(self.spec_minor() as int, other.spec_minor() as int)
        } else if self.spec_patch() != other.spec_patch() {
            cmp_int(self.spec_patch() as int, other.spec_patch() as int)
        } else if self.spec_pre() == other.spec_pre() && self.spec_build() == other.spec_build() {
            0
        } else if self.spec_pre().len() == 0 && other.spec_pre().len() > 0 {
            1
        } else if self.spec_pre().len() > 0 && other.spec_pre().len() == 0 {
            -1
        } else {
            semver_tail_order(self.spec_pre(), self.spec_build(), other.spec_pre(), other.spec_build())
        }
    }

    /// Parse a semantic version such as `1.2.3` or `1.0.0-rc.1+build.5`.
    pub fn parse(text: &str) -> (r: Result<Version, InvalidVersion>)
        ensures
            match r {
                Ok(v) => semver_parsed(text@) == Some(v.parts()),
                Err(e) => semver_parsed(text@) is None && e.text@ == text@,
            },
            (text@.len() == 0 || !is_digit(text@[0])) ==> r is Err,
            forall|a: Seq<char>, b: Seq<char>, c: Seq<char>|
                #[trigger] is_triple(text@, a, b, c) ==> match r {
                    Ok(v) => v.spec_major() == digits_value(a) && v.spec_minor() == digits_value(b)
                        && v.spec_patch() == digits_value(c) && v.is_release(),
                    Err(_) => false,
                },
    {
        match semver_parse(text) {
            Ok(p) => {
                let (major, minor, patch, pre, build) = p;
                proof {
                    assert(semver_parsed(text@) == Some((major, minor, patch, pre@, build@)));
                }
                Ok(Version { major, minor, patch, pre, build })
            },
            Err(_) => Err(InvalidVersion { text: text.to_string() }),
        }
    }

    pub fn major(&self) -> (r: u64)
        ensures
            r == self.spec_major(),
    {
        self.major
    }

    pub fn minor(&self) -> (r: u64)
        ensures
            r == self.spec_minor(),
    {
        self.minor
    }

    pub fn patch(&self) -> (r: u64)
        ensures
            r == self.spec_patch(),
    {
        self.patch
    }

    /// Compare two versions by semantic-version precedence.
    pub fn compare(&self, other: &Version) -> (r: std::cmp::Ordering)
        ensures
            r == ordering_of(self.order(*other)),
    {
        if self.major != other.major {
            if self.major < other.major {
                std::cmp::Ordering::Less
            } else {
                std::cmp::Ordering::Greater
            }
        } else if self.minor != other.minor {
            if self.minor < other.minor {
                std::cmp::Ordering::Less
            } else {
                std::cmp::Ordering::Greater
            }
        } else if self.patch != other.patch {
            if self.patch < other.patch {
                std::cmp::Ordering::Less
            } else {
                std::cmp::Ordering::Greater
            }
        } else if self.pre == other.pre && self.build == other.build {
            std::cmp::Ordering::Equal
        } else {
            proof {
                use_type_invariant(self);
                use_type_invariant(other);
            }
            let t = semver_tail_cmp(
                self.pre.as_str(),
                self.build.as_str(),
                other.pre.as_str(),
                other.build.as_str(),
            );
            if t < 0 {
                assert(self.order(*other) == t as int);
                std::cmp::Ordering::Less
            } else if t > 0 {
                std::cmp::Ordering::Greater
            } else {
                std::cmp::Ordering::Equal
            }
        }
    }

    /// Whether `self` ranks strictly above `other`.
    pub fn is_newer_than(&self, other: &Version) -> (r: bool)
        ensures
            r == (self.order(*other) > 0),
    {
        match self.compare(other) {
            std::cmp::Ordering::Greater => true,
            _ => false,
        }
    }

    pub fn pre(&self) -> (r: &str)
        ensures
            r@ == self.spec_pre(),
    {
        self.pre.as_str()
    }

    pub fn build(&self) -> (r: &str)
        ensures
            r@ == self.spec_build(),
    {
        self.build.as_str()
    }
}

/// A version ranks equal to any version with the same parts.
pub proof fn lemma_order_same_parts(a: Version, b: Version)
    requires
        a.parts() == b.parts(),
    ensures
        a.order(b) == 0,
        b.order(a) == 0,
{
}

/// Precedence among plain releases (no pre-release, no build metadata) is
/// antisymmetric and transitive: it is the order of the `(major, minor, patch)`
/// triples.
pub proof fn lemma_release_order_laws(a: Version, b: Version, c: Version)
    requires
        a.is_release(),
        b.is_release(),
        c.is_release(),
    ensures
        a.order(b) == -b.order(a),
        a.order(b) == 0 <==> a.parts() == b.parts(),
        (a.order(b) <= 0 && b.order(c) <= 0) ==> a.order(c) <= 0,
        (a.order(b) < 0 && b.order(c) < 0) ==> a.order(c) < 0,
{
    assert(a.spec_pre() =~= b.spec_pre() && b.spec_pre() =~= c.spec_pre());
    assert(a.spec_build() =~= b.spec_build() && b.spec_build() =~= c.spec_build());
}

} // verus!
