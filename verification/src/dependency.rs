//! A declared dependency, paired with the newest version that the registry
//! has published of it.

use crate::parse::{declared, parse, parse_result, ParseFailure};
use crate::specifier::{operators_of, pad_components, padded};
use crate::version::{
    display_text, exceeds, release, well_formed, SemVer, SemVerValue, Version, VersionValue,
};
use vstd::prelude::*;
use vstd::string::*;

verus! {

/// One dependency of a manifest: what was declared, and the newest published
/// version.
#[derive(Clone, Debug)]
pub struct Dependency {
    /// The operators that stood in the specifier, in order.
    pub wildcards: Vec<char>,
    pub name: String,
    /// The declared version.
    pub version: Version,
    /// The newest published version.
    pub remote: Version,
}

impl Dependency {
    /// Reads the specifier `version` of the dependency `name`: its operators
    /// are recorded, and what is left of it is classified.
    pub fn new(name: &str, version: &str, remote: Version) -> (dependency: Dependency)
        ensures
            dependency.name@ == name@,
            dependency.wildcards@ == operators_of(version@),
            dependency.version@ == declared(version@),
            well_formed(dependency.version@),
            dependency.remote == remote,
    {
        let (wildcards, version) = parse(version);
        Dependency { wildcards, name: String::from_str(name), version, remote }
    }
}

/// What separates the name of a dependency from its version.
pub const NAME_SEPARATOR: &'static str = " - ";

impl Dependency {
    /// The dependency in words: its name and its declared version.
    pub fn to_text(&self) -> (text: String)
        ensures
            text@ == self.name@ + NAME_SEPARATOR@ + display_text(self.version@),
    {
        let mut text = self.name.clone();
        text.append(NAME_SEPARATOR);
        text.append(self.version.to_text().as_str());
        text
    }
}

/// The texts of a list of strings, in order.
pub open spec fn texts(items: Seq<String>) -> Seq<Seq<char>> {
    items.map_values(|item: String| item@)
}

/// What a version string of the registry is read as: it is padded to three
/// components, then parsed.
pub open spec fn published(raw: Seq<char>) -> Result<SemVerValue, ParseFailure> {
    parse_result(padded(raw))
}

/// Whether every entry of a listing can be read.
pub open spec fn readable(entries: Seq<Seq<char>>) -> bool {
    forall|i: int| 0 <= i < entries.len() ==> (#[trigger] published(entries[i])) is Ok
}

/// The running maximum over a listing. It starts at `0.0.0`, and an entry
/// takes its place only where it ranks strictly above it, so of two entries
/// of one rank the earlier stays.
pub open spec fn latest_among(entries: Seq<Seq<char>>) -> SemVerValue
    decreases entries.len(),
{
    if entries.len() == 0 {
        release(0, 0, 0)
    } else {
        let best = latest_among(entries.drop_last());
        match published(entries.last()) {
            Ok(v) => if exceeds(v, best) {
                v
            } else {
                best
            },
            Err(_) => best,
        }
    }
}

/// The latest version of a readable listing: none where nothing is listed,
/// else the running maximum.
pub open spec fn resolved(entries: Seq<Seq<char>>) -> VersionValue {
    if entries.len() == 0 {
        VersionValue::Unspecified
    } else {
        VersionValue::Semantic(latest_among(entries))
    }
}

/// An entry of a listing that is no version, even when padded.
#[derive(Clone, Copy, Debug)]
pub struct UnreadableEntry {
    /// Where the entry stands in the listing.
    pub index: usize,
    /// Why it could not be read.
    pub failure: ParseFailure,
}

/// Finds the latest version in a listing of published version strings, in
/// whatever order they come. The first entry that cannot be read ends the
/// search.
pub fn resolve_latest(raw_versions: &Vec<String>) -> (result: Result<Version, UnreadableEntry>)
    ensures
        match result {
            Ok(version) => readable(texts(raw_versions@)) && version@ == resolved(
                texts(raw_versions@),
            ),
            Err(entry) => {
                &&& entry.index < raw_versions.len()
                &&& published(raw_versions@[entry.index as int]@) == Err::<
                    SemVerValue,
                    ParseFailure,
                >(entry.failure)
                &&& forall|j: int|
                    0 <= j < entry.index ==> (#[trigger] published(raw_versions@[j]@)) is Ok
            },
        },
{
    let ghost entries = texts(raw_versions@);
    let mut best = SemVer::new(0, 0, 0);
    let mut i: usize = 0;
    proof {
        assert(entries.take(0) =~= Seq::<Seq<char>>::empty());
    }
    while i < raw_versions.len()
        invariant
            i <= raw_versions.len(),
            entries == texts(raw_versions@),
            best@ == latest_among(entries.take(i as int)),
            forall|j: int| 0 <= j < i ==> (#[trigger] published(raw_versions@[j]@)) is Ok,
        decreases raw_versions.len() - i,
    {
        let filled = pad_components(raw_versions[i].as_str());
        proof {
            assert(entries.take(i + 1).drop_last() =~= entries.take(i as int));
            assert(entries.take(i + 1).last() == raw_versions@[i as int]@);
        }
        match SemVer::parse(filled.as_str()) {
            Ok(v) => {
                if v.exceeds(&best) {
                    best = v;
                }
            },
            Err(failure) => {
                return Err(UnreadableEntry { index: i, failure });
            },
        }
        i += 1;
    }
    proof {
        assert(entries.take(raw_versions.len() as int) =~= entries);
        assert forall|j: int| 0 <= j < entries.len() implies (#[trigger] published(
            entries[j],
        )) is Ok by {
            assert(published(raw_versions@[j]@) is Ok);
        }
    }
    if raw_versions.len() == 0 {
        Ok(Version::Unspecified)
    } else {
        Ok(Version::Semantic(best))
    }
}

/// The newest published version as a report shows it: none where the lookup
/// failed or an entry of the listing cannot be read.
pub open spec fn remote_version(listing: Option<Seq<Seq<char>>>) -> VersionValue {
    match listing {
        Some(entries) => if readable(entries) {
            resolved(entries)
        } else {
            VersionValue::Unspecified
        },
        None => VersionValue::Unspecified,
    }
}

/// The texts of a listing, where there is one.
pub open spec fn listing_texts(listing: Option<Vec<String>>) -> Option<Seq<Seq<char>>> {
    match listing {
        Some(entries) => Some(texts(entries@)),
        None => None,
    }
}

/// Reads the answer of a registry lookup: the listing of a package's
/// published versions, or `None` where the lookup failed.
pub fn remote_of(listing: &Option<Vec<String>>) -> (remote: Version)
    ensures
        remote@ == remote_version(listing_texts(*listing)),
{
    match listing {
        Some(entries) => match resolve_latest(entries) {
            Ok(version) => version,
            Err(entry) => {
                assert(!readable(texts(entries@))) by {
                    assert(texts(entries@)[entry.index as int] == entries@[entry.index as int]@);
                }
                Version::Unspecified
            },
        },
        None => Version::Unspecified,
    }
}

/// What a manifest says of one dependency.
#[derive(Clone, Debug)]
pub enum DeclaredDependency {
    /// A bare version requirement.
    Simple(String),
    /// A table of settings, with or without a version requirement.
    Detailed(Option<String>),
}

/// The specifier that a declaration holds; empty where it holds none.
pub open spec fn specifier_of(declaration: DeclaredDependency) -> Seq<char> {
    match declaration {
        DeclaredDependency::Simple(version) => version@,
        DeclaredDependency::Detailed(Some(version)) => version@,
        DeclaredDependency::Detailed(None) => Seq::empty(),
    }
}

impl DeclaredDependency {
    /// The specifier that the declaration holds; empty where it holds none.
    pub fn specifier(&self) -> (text: &str)
        ensures
            text@ == specifier_of(*self),
    {
        match self {
            DeclaredDependency::Simple(version) => version.as_str(),
            DeclaredDependency::Detailed(Some(version)) => version.as_str(),
            DeclaredDependency::Detailed(None) => {
                proof {
                    reveal_strlit("");
                    assert(""@ =~= Seq::<char>::empty());
                }
                ""
            },
        }
    }
}

impl Dependency {
    /// Builds the record of the dependency `name` from its declaration and
    /// from the answer of the registry lookup for its name.
    pub fn resolve(name: &str, declaration: &DeclaredDependency, listing: &Option<Vec<String>>)
        -> (record: Dependency)
        ensures
            record.name@ == name@,
            record.wildcards@ == operators_of(specifier_of(*declaration)),
            record.version@ == declared(specifier_of(*declaration)),
            record.remote@ == remote_version(listing_texts(*listing)),
    {
        Dependency::new(name, declaration.specifier(), remote_of(listing))
    }
}

/// Builds the record of one dependency from its declaration and from the
/// answer of the registry lookup for its name, `None` where the lookup failed.
pub fn process_dependency(
    name: String,
    dependency: DeclaredDependency,
    listing: Option<Vec<String>>,
) -> (record: Dependency)
    ensures
        record.name@ == name@,
        record.wildcards@ == operators_of(specifier_of(dependency)),
        record.version@ == declared(specifier_of(dependency)),
        record.remote@ == remote_version(listing_texts(listing)),
{
    Dependency::resolve(name.as_str(), &dependency, &listing)
}

} // verus!
