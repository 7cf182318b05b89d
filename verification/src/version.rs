//! Version values: a semantic version as plain data, and the three-way
//! classification of a declared or published version.

use crate::numeral::decimal;
use vstd::prelude::*;
use vstd::string::*;

verus! {

/// The marker that stands for a version that is not available.
pub const NOT_AVAILABLE: &'static str = "N/A";

/// One dot-separated part of a pre-release or build suffix.
#[derive(Clone, Debug)]
pub enum Identifier {
    /// A part made of digits alone.
    Numeric(u64),
    /// A part with letters, digits or hyphens.
    AlphaNumeric(String),
}

/// The mathematical value of an [`Identifier`].
pub enum IdentifierValue {
    Numeric(u64),
    AlphaNumeric(Seq<char>),
}

impl View for Identifier {
    type V = IdentifierValue;

    open spec fn view(&self) -> IdentifierValue {
        match self {
            Identifier::Numeric(n) => IdentifierValue::Numeric(*n),
            Identifier::AlphaNumeric(s) => IdentifierValue::AlphaNumeric(s@),
        }
    }
}

/// A semantic version: three numbers, a pre-release suffix and build metadata.
#[derive(Clone, Debug)]
pub struct SemVer {
    pub major: u64,
    pub minor: u64,
    pub patch: u64,
    pub pre: Vec<Identifier>,
    pub build: Vec<Identifier>,
}

/// The mathematical value of a [`SemVer`].
pub struct SemVerValue {
    pub major: u64,
    pub minor: u64,
    pub patch: u64,
    pub pre: Seq<IdentifierValue>,
    pub build: Seq<IdentifierValue>,
}

/// The values of a list of identifiers, in order.
pub open spec fn identifier_values(ids: Seq<Identifier>) -> Seq<IdentifierValue> {
    ids.map_values(|id: Identifier| id@)
}

impl View for SemVer {
    type V = SemVerValue;

    open spec fn view(&self) -> SemVerValue {
        SemVerValue {
            major: self.major,
            minor: self.minor,
            patch: self.patch,
            pre: identifier_values(self.pre@),
            build: identifier_values(self.build@),
        }
    }
}

/// The release `major.minor.patch`, with no pre-release suffix and no build
/// metadata.
pub open spec fn release(major: u64, minor: u64, patch: u64) -> SemVerValue {
    SemVerValue { major, minor, patch, pre: Seq::empty(), build: Seq::empty() }
}

impl SemVer {
    /// The release `major.minor.patch`.
    pub fn new(major: u64, minor: u64, patch: u64) -> (v: SemVer)
        ensures
            v@ == release(major, minor, patch),
    {
        let v = SemVer { major, minor, patch, pre: Vec::new(), build: Vec::new() };
        assert(v@.pre =~= Seq::empty());
        assert(v@.build =~= Seq::empty());
        v
    }
}

impl Identifier {
    /// Whether two identifiers are the same.
    pub fn same(&self, other: &Identifier) -> (same: bool)
        ensures
            same == (self@ == other@),
    {
        match (self, other) {
            (Identifier::Numeric(a), Identifier::Numeric(b)) => *a == *b,
            (Identifier::AlphaNumeric(a), Identifier::AlphaNumeric(b)) => *a == *b,
            _ => false,
        }
    }
}

/// Whether two lists of identifiers are the same, part by part.
pub fn same_identifiers(a: &Vec<Identifier>, b: &Vec<Identifier>) -> (same: bool)
    ensures
        same == (identifier_values(a@) == identifier_values(b@)),
{
    if a.len() != b.len() {
        assert(identifier_values(a@).len() != identifier_values(b@).len());
        return false;
    }
    let mut i: usize = 0;
    while i < a.len()
        invariant
            i <= a.len(),
            a.len() == b.len(),
            forall|j: int| 0 <= j < i ==> a@[j]@ == b@[j]@,
        decreases a.len() - i,
    {
        if !a[i].same(&b[i]) {
            assert(identifier_values(a@)[i as int] != identifier_values(b@)[i as int]);
            return false;
        }
        i += 1;
    }
    assert(identifier_values(a@) =~= identifier_values(b@));
    true
}

/// Whether the text `a` comes after the text `b` in the order of strings:
/// the first character that differs decides, and a text comes after each of
/// its proper beginnings.
pub open spec fn text_exceeds(a: Seq<char>, b: Seq<char>) -> bool
    decreases a.len(),
{
    if a.len() == 0 {
        false
    } else if b.len() == 0 {
        true
    } else if a[0] == b[0] {
        text_exceeds(a.drop_first(), b.drop_first())
    } else {
        a[0] > b[0]
    }
}

/// Whether the identifier `a` ranks above the identifier `b`: numbers rank by
/// value, texts in the order of strings, and any text above any number.
pub open spec fn identifier_exceeds(a: IdentifierValue, b: IdentifierValue) -> bool {
    match (a, b) {
        (IdentifierValue::Numeric(x), IdentifierValue::Numeric(y)) => x > y,
        (IdentifierValue::Numeric(_), IdentifierValue::AlphaNumeric(_)) => false,
        (IdentifierValue::AlphaNumeric(_), IdentifierValue::Numeric(_)) => true,
        (IdentifierValue::AlphaNumeric(x), IdentifierValue::AlphaNumeric(y)) => text_exceeds(x, y),
    }
}

/// Whether the identifiers `a` rank above the identifiers `b`: the first
/// identifier that differs decides, and a list ranks above each of its proper
/// beginnings.
pub open spec fn identifiers_exceed(a: Seq<IdentifierValue>, b: Seq<IdentifierValue>) -> bool
    decreases a.len(),
{
    if a.len() == 0 {
        false
    } else if b.len() == 0 {
        true
    } else if a[0] == b[0] {
        identifiers_exceed(a.drop_first(), b.drop_first())
    } else {
        identifier_exceeds(a[0], b[0])
    }
}

/// Semantic-version precedence: whether `a` ranks strictly above `b`. The
/// three numbers decide in turn; with equal numbers a release ranks above any
/// pre-release, and two pre-releases rank by their identifiers. Build metadata
/// plays no part.
pub open spec fn exceeds(a: SemVerValue, b: SemVerValue) -> bool {
    if a.major != b.major {
        a.major > b.major
    } else if a.minor != b.minor {
        a.minor > b.minor
    } else if a.patch != b.patch {
        a.patch > b.patch
    } else if a.pre.len() == 0 {
        b.pre.len() > 0
    } else if b.pre.len() == 0 {
        false
    } else {
        identifiers_exceed(a.pre, b.pre)
    }
}

/// Semantic-version equality: the three numbers and the pre-release
/// identifiers agree. Build metadata plays no part.
pub open spec fn same_precedence(a: SemVerValue, b: SemVerValue) -> bool {
    a.major == b.major && a.minor == b.minor && a.patch == b.patch && a.pre == b.pre
}

/// Rebuilds both values as `semver::Version` and compares them with `>`.
/// Trusted: that order goes by major, minor and patch in turn; with those
/// equal, a version without pre-release identifiers ranks above one with
/// them, and two versions with identifiers rank as their identifier lists
/// do. The lists are compared as vectors, identifier by identifier; the
/// order of identifiers is the derived one, numbers before texts, and texts
/// are compared as strings.
#[verifier::external_body]
fn ranks_above(a: &SemVer, b: &SemVer) -> (above: bool)
    ensures
        above == exceeds(a@, b@),
{
    let part = |id: &Identifier| match id {
        Identifier::Numeric(n) => semver::Identifier::Numeric(*n),
        Identifier::AlphaNumeric(s) => semver::Identifier::AlphaNumeric(s.clone()),
    };
    let outside = |v: &SemVer| semver::Version {
        major: v.major,
        minor: v.minor,
        patch: v.patch,
        pre: v.pre.iter().map(part).collect(),
        build: v.build.iter().map(part).collect(),
    };
    outside(a) > outside(b)
}

/// Three numbers in decimal, joined by dots.
pub open spec fn dotted(major: u64, minor: u64, patch: u64) -> Seq<char> {
    decimal(major as nat) + seq!['.'] + decimal(minor as nat) + seq!['.'] + decimal(patch as nat)
}

/// The text of an identifier: a number in decimal, a text as it is.
pub open spec fn identifier_text(id: IdentifierValue) -> Seq<char> {
    match id {
        IdentifierValue::Numeric(n) => decimal(n as nat),
        IdentifierValue::AlphaNumeric(text) => text,
    }
}

/// The texts of a list of identifiers, joined by dots.
pub open spec fn identifiers_text(ids: Seq<IdentifierValue>) -> Seq<char>
    decreases ids.len(),
{
    if ids.len() == 0 {
        Seq::empty()
    } else if ids.len() == 1 {
        identifier_text(ids[0])
    } else {
        identifiers_text(ids.drop_last()) + seq!['.'] + identifier_text(ids.last())
    }
}

/// A suffix of a version: nothing where there are no identifiers, else the
/// mark and the identifiers.
pub open spec fn suffix_text(mark: char, ids: Seq<IdentifierValue>) -> Seq<char> {
    if ids.len() == 0 {
        Seq::empty()
    } else {
        seq![mark] + identifiers_text(ids)
    }
}

/// The text of a semantic version: the dotted numbers, then the pre-release
/// identifiers after a hyphen, then the build identifiers after a plus sign.
pub open spec fn version_text(v: SemVerValue) -> Seq<char> {
    dotted(v.major, v.minor, v.patch) + suffix_text('-', v.pre) + suffix_text('+', v.build)
}

/// Rebuilds the value as `semver::Version` and writes it with `to_string`.
/// Trusted: a version is written as its three numbers in decimal, joined by
/// dots; then, where there are pre-release identifiers, a hyphen and the
/// identifiers joined by dots; then the same for the build identifiers after
/// a plus sign. A numeric identifier is written in decimal, any other as its
/// text.
#[verifier::external_body]
fn written(v: &SemVer) -> (text: String)
    ensures
        text@ == version_text(v@),
{
    let part = |id: &Identifier| match id {
        Identifier::Numeric(n) => semver::Identifier::Numeric(*n),
        Identifier::AlphaNumeric(s) => semver::Identifier::AlphaNumeric(s.clone()),
    };
    let outside = semver::Version {
        major: v.major,
        minor: v.minor,
        patch: v.patch,
        pre: v.pre.iter().map(part).collect(),
        build: v.build.iter().map(part).collect(),
    };
    outside.to_string()
}

impl SemVer {
    /// The text of the version.
    pub fn to_text(&self) -> (text: String)
        ensures
            text@ == version_text(self@),
    {
        written(self)
    }

    /// Whether `self` ranks strictly above `other`.
    pub fn exceeds(&self, other: &SemVer) -> (above: bool)
        ensures
            above == exceeds(self@, other@),
    {
        ranks_above(self, other)
    }

    /// Whether `self` and `other` are the same version, build metadata aside.
    pub fn same_precedence(&self, other: &SemVer) -> (same: bool)
        ensures
            same == same_precedence(self@, other@),
    {
        self.major == other.major && self.minor == other.minor && self.patch == other.patch
            && same_identifiers(&self.pre, &other.pre)
    }
}

/// A classified version.
#[derive(Clone, Debug)]
pub enum Version {
    /// No usable version information was present.
    Unspecified,
    /// A strict three-component semantic version.
    Semantic(SemVer),
    /// Text that is present but is no semantic version.
    Opaque(String),
}

/// The mathematical value of a [`Version`].
pub enum VersionValue {
    Unspecified,
    Semantic(SemVerValue),
    Opaque(Seq<char>),
}

impl View for Version {
    type V = VersionValue;

    open spec fn view(&self) -> VersionValue {
        match self {
            Version::Unspecified => VersionValue::Unspecified,
            Version::Semantic(v) => VersionValue::Semantic(v@),
            Version::Opaque(s) => VersionValue::Opaque(s@),
        }
    }
}

/// Whether a classified version is well formed: an opaque version carries
/// text. Text that is empty is no version at all.
pub open spec fn well_formed(v: VersionValue) -> bool {
    match v {
        VersionValue::Opaque(text) => text.len() > 0,
        _ => true,
    }
}

/// The text that stands for a version in a report.
pub open spec fn display_text(v: VersionValue) -> Seq<char> {
    match v {
        VersionValue::Unspecified => NOT_AVAILABLE@,
        VersionValue::Semantic(sv) => version_text(sv),
        VersionValue::Opaque(text) => text,
    }
}

impl Version {
    /// Whether any version information is present.
    pub fn is_provided(&self) -> (provided: bool)
        ensures
            provided == !(self@ is Unspecified),
    {
        match self {
            Version::Unspecified => false,
            _ => true,
        }
    }

    /// Whether this is a semantic version.
    pub fn is_semver(&self) -> (semantic: bool)
        ensures
            semantic == (self@ is Semantic),
    {
        match self {
            Version::Semantic(_) => true,
            _ => false,
        }
    }

    /// The text that stands for the version in a report: the text of a
    /// semantic version, an opaque version as it was written, and a fixed
    /// marker where there is none.
    pub fn to_text(&self) -> (text: String)
        ensures
            text@ == display_text(self@),
    {
        match self {
            Version::Unspecified => String::from_str(NOT_AVAILABLE),
            Version::Semantic(v) => v.to_text(),
            Version::Opaque(text) => text.clone(),
        }
    }
}

} // verus!
