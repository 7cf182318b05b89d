//! Security advisories, and how many of them still apply to a declared
//! version.

use crate::dependency::texts;
use crate::parse::{attempt_value, parse_result, ParseFailure};
use crate::specifier::{cleaned_of, strip_operators};
use crate::version::{exceeds, SemVer, SemVerValue, Version, VersionValue};
use vstd::hash_map::StringHashMap;
use vstd::prelude::*;
use vstd::string::*;

verus! {

/// What an advisory says of the versions it concerns.
#[derive(Clone, Debug)]
pub struct PatchInfo {
    /// The versions in which the flaw was patched, each possibly written with
    /// operators; `None` where no list is given.
    pub patched: Option<Vec<String>>,
}

/// A known vulnerability of a package.
#[derive(Clone, Debug)]
pub struct Advisory {
    pub package: String,
    /// The patch information; `None` where the advisory carries none.
    pub versions: Option<PatchInfo>,
}

/// The advisory database: for each package that it names, the list of its
/// advisories.
pub struct SecurityDatabase {
    pub advisories: StringHashMap<Vec<Advisory>>,
}

/// The patched versions that an advisory lists, as texts; `None` where it
/// carries no patch information, or patch information without a list.
pub open spec fn patch_list(advisory: Advisory) -> Option<Seq<Seq<char>>> {
    match advisory.versions {
        Some(info) => match info.patched {
            Some(list) => Some(texts(list@)),
            None => None,
        },
        None => None,
    }
}

/// The patch lists of a list of advisories, in order.
pub open spec fn patch_lists(advisories: Seq<Advisory>) -> Seq<Option<Seq<Seq<char>>>> {
    advisories.map_values(|advisory: Advisory| patch_list(advisory))
}

/// Whether a patched version, once parsed, leaves the advisory standing for
/// `local`: a threshold that was read clears a semantic version that has
/// reached it, and nothing else clears anything.
pub open spec fn threshold_unmet(
    threshold: Result<SemVerValue, ParseFailure>,
    local: VersionValue,
) -> bool {
    match (threshold, local) {
        (Ok(patched), VersionValue::Semantic(pinned)) => exceeds(patched, pinned),
        _ => true,
    }
}

/// Whether the patched version `patched`, as written, leaves the advisory
/// standing for `local`. Its operators are taken out and the rest is parsed
/// strictly, without padding.
pub open spec fn entry_applies(patched: Seq<char>, local: VersionValue) -> bool {
    threshold_unmet(parse_result(cleaned_of(patched)), local)
}

/// How many entries of a list of patched versions leave the advisory standing.
pub open spec fn unmet_count(patched: Seq<Seq<char>>, local: VersionValue) -> nat
    decreases patched.len(),
{
    if patched.len() == 0 {
        0
    } else {
        unmet_count(patched.drop_last(), local) + if entry_applies(patched.last(), local) {
            1nat
        } else {
            0nat
        }
    }
}

/// What one advisory adds to the count: one where it lists no patched
/// versions at all, else one for each listed version that leaves it standing.
pub open spec fn advisory_weight(patches: Option<Seq<Seq<char>>>, local: VersionValue) -> nat {
    match patches {
        Some(patched) => unmet_count(patched, local),
        None => 1,
    }
}

/// The number of applicable entries over a list of advisories.
pub open spec fn applicable(patches: Seq<Option<Seq<Seq<char>>>>, local: VersionValue) -> nat
    decreases patches.len(),
{
    if patches.len() == 0 {
        0
    } else {
        applicable(patches.drop_last(), local) + advisory_weight(patches.last(), local)
    }
}

/// Decides on one parsed threshold.
pub fn decide_threshold(threshold: &Result<SemVer, ParseFailure>, local: &Version) -> (unmet: bool)
    ensures
        unmet == threshold_unmet(attempt_value(*threshold), local@),
{
    match threshold {
        Ok(patched) => match local {
            Version::Semantic(pinned) => patched.exceeds(pinned),
            _ => true,
        },
        Err(_) => true,
    }
}

/// Whether the patched version `patched` leaves the advisory standing for
/// `local`.
pub fn patched_later(patched: &str, local: &Version) -> (unmet: bool)
    ensures
        unmet == entry_applies(patched@, local@),
{
    let (_, cleaned) = strip_operators(patched);
    let threshold = SemVer::parse(cleaned.as_str());
    decide_threshold(&threshold, local)
}

/// Counts the entries of `patched` that leave the advisory standing.
pub fn count_unmet(patched: &Vec<String>, local: &Version) -> (count: usize)
    ensures
        count == unmet_count(texts(patched@), local@),
{
    let ghost entries = texts(patched@);
    let mut count: usize = 0;
    let mut i: usize = 0;
    proof {
        assert(entries.take(0) =~= Seq::<Seq<char>>::empty());
    }
    while i < patched.len()
        invariant
            i <= patched.len(),
            entries == texts(patched@),
            count == unmet_count(entries.take(i as int), local@),
            count <= i,
        decreases patched.len() - i,
    {
        proof {
            assert(entries.take(i + 1).drop_last() =~= entries.take(i as int));
            assert(entries.take(i + 1).last() == patched@[i as int]@);
        }
        if patched_later(patched[i].as_str(), local) {
            count += 1;
        }
        i += 1;
    }
    proof {
        assert(entries.take(patched.len() as int) =~= entries);
    }
    count
}

/// What one advisory adds to the count for `local`.
pub fn weigh(advisory: &Advisory, local: &Version) -> (weight: usize)
    ensures
        weight == advisory_weight(patch_list(*advisory), local@),
{
    match &advisory.versions {
        Some(info) => match &info.patched {
            Some(patched) => count_unmet(patched, local),
            None => 1,
        },
        None => 1,
    }
}

/// Counts what the advisories of one package add up to for the declared
/// version `local`. The count goes by listed version, not by advisory: an
/// advisory with several patched versions can count more than once.
pub fn count_applicable(advisories: &Vec<Advisory>, local: &Version) -> (count: u128)
    ensures
        count == applicable(patch_lists(advisories@), local@),
{
    let ghost patches = patch_lists(advisories@);
    let mut count: u128 = 0;
    let mut i: usize = 0;
    proof {
        assert(patches.take(0) =~= Seq::<Option<Seq<Seq<char>>>>::empty());
    }
    while i < advisories.len()
        invariant
            i <= advisories.len(),
            patches == patch_lists(advisories@),
            count == applicable(patches.take(i as int), local@),
            count <= i * 0x1_0000_0000_0000_0000,
        decreases advisories.len() - i,
    {
        proof {
            assert(patches.take(i + 1).drop_last() =~= patches.take(i as int));
            assert(patches.take(i + 1).last() == patch_list(advisories@[i as int]));
        }
        let weight = weigh(&advisories[i], local);
        count += weight as u128;
        i += 1;
    }
    proof {
        assert(patches.take(advisories.len() as int) =~= patches);
    }
    count
}

impl SecurityDatabase {
    /// A database without advisories.
    pub fn new() -> (db: SecurityDatabase)
        ensures
            forall|name: Seq<char>| db.lookup(name) is None,
    {
        SecurityDatabase { advisories: StringHashMap::new() }
    }

    /// The advisories held for the package `name`.
    pub open spec fn lookup(&self, name: Seq<char>) -> Option<Vec<Advisory>> {
        if self.advisories@.contains_key(name) {
            Some(self.advisories@[name])
        } else {
            None
        }
    }

    /// Sets the advisories of `package`, in place of any held before.
    pub fn insert(&mut self, package: String, advisories: Vec<Advisory>)
        ensures
            forall|name: Seq<char>|
                #[trigger] final(self).lookup(name) == if name == package@ {
                    Some(advisories)
                } else {
                    old(self).lookup(name)
                },
    {
        self.advisories.insert(package, advisories);
    }

    /// Finds the advisories of the package `name`.
    pub fn get(&self, name: &str) -> (found: Option<&Vec<Advisory>>)
        ensures
            match found {
                Some(advisories) => self.lookup(name@) == Some(*advisories),
                None => self.lookup(name@) is None,
            },
    {
        self.advisories.get(name)
    }
}

/// Counts the advisory entries that the database holds against the version
/// `local` of the package `name`; none where it does not name the package.
pub fn count_advisories(db: &SecurityDatabase, name: &str, local: &Version) -> (count: u128)
    ensures
        count == match db.lookup(name@) {
            Some(advisories) => applicable(patch_lists(advisories@), local@),
            None => 0,
        },
{
    match db.get(name) {
        Some(advisories) => count_applicable(advisories, local),
        None => 0,
    }
}

} // verus!
