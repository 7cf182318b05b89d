//! Reading a manifest: the name of the package and what each of its three
//! sections declares.

use crate::dependency::{specifier_of, DeclaredDependency};
use cargo_toml::{Dependency, DepsSet, Manifest};
use vstd::prelude::*;

verus! {

/// One section of a manifest: each dependency's name with its declaration,
/// in the order of the names.
pub type Section = Vec<(String, DeclaredDependency)>;

/// What a manifest declares.
#[derive(Clone, Debug)]
pub struct Declarations {
    /// The name of the package; `None` where the manifest describes none.
    pub package: Option<String>,
    pub dependencies: Section,
    pub dev_dependencies: Section,
    pub build_dependencies: Section,
}

/// The mathematical value of a section: each name with its specifier.
pub open spec fn section_value(section: Seq<(String, DeclaredDependency)>) -> Seq<
    (Seq<char>, Seq<char>),
> {
    section.map_values(|entry: (String, DeclaredDependency)| (entry.0@, specifier_of(entry.1)))
}

/// The mathematical value of [`Declarations`].
pub struct DeclarationsValue {
    pub package: Option<Seq<char>>,
    pub dependencies: Seq<(Seq<char>, Seq<char>)>,
    pub dev_dependencies: Seq<(Seq<char>, Seq<char>)>,
    pub build_dependencies: Seq<(Seq<char>, Seq<char>)>,
}

impl View for Declarations {
    type V = DeclarationsValue;

    open spec fn view(&self) -> DeclarationsValue {
        DeclarationsValue {
            package: match self.package {
                Some(name) => Some(name@),
                None => None,
            },
            dependencies: section_value(self.dependencies@),
            dev_dependencies: section_value(self.dev_dependencies@),
            build_dependencies: section_value(self.build_dependencies@),
        }
    }
}

/// What `toml::from_str` reads from `text` as a `cargo_toml::Manifest`: the
/// declarations, or `None` where the text is no manifest.
pub uninterp spec fn manifest_of(text: Seq<char>) -> Option<DeclarationsValue>;

/// Parses `text` with `toml::from_str` as a `cargo_toml::Manifest` and hands
/// out the package name and the three dependency tables as plain data. A
/// dependency that is inherited from a workspace carries no version here.
/// Trusted: the outcome depends on the text alone.
#[verifier::external_body]
fn parse_declarations(text: &str) -> (outcome: Option<Declarations>)
    ensures
        match outcome {
            Some(declarations) => manifest_of(text@) == Some(declarations@),
            None => manifest_of(text@) is None,
        },
{
    let own = |(name, dep): (&String, &Dependency)| (name.clone(), match dep {
        Dependency::Simple(v) => DeclaredDependency::Simple(v.clone()),
        Dependency::Detailed(d) => DeclaredDependency::Detailed(d.version.clone()),
        Dependency::Inherited(_) => DeclaredDependency::Detailed(None),
    });
    let list = |set: &DepsSet| set.iter().map(own).collect();
    toml::from_str::<Manifest>(text).ok().map(|m| Declarations {
        package: m.package.map(|p| p.name),
        dependencies: list(&m.dependencies),
        dev_dependencies: list(&m.dev_dependencies),
        build_dependencies: list(&m.build_dependencies),
    })
}

/// Why a manifest cannot be reported on.
#[derive(Clone, Copy, Debug, PartialEq, Eq, Structural)]
pub enum ManifestError {
    /// The text is no manifest.
    Malformed,
    /// The manifest describes no package.
    NoPackage,
}

/// Sorts the outcome of parsing a manifest: a manifest is reported on only
/// where it names its package.
pub fn check_declarations(outcome: Option<Declarations>) -> (result: Result<
    Declarations,
    ManifestError,
>)
    ensures
        match outcome {
            None => result == Err::<Declarations, ManifestError>(ManifestError::Malformed),
            Some(declarations) => if declarations.package is Some {
                result == Ok::<Declarations, ManifestError>(declarations)
            } else {
                result == Err::<Declarations, ManifestError>(ManifestError::NoPackage)
            },
        },
{
    match outcome {
        None => Err(ManifestError::Malformed),
        Some(declarations) => if declarations.package.is_some() {
            Ok(declarations)
        } else {
            Err(ManifestError::NoPackage)
        },
    }
}

/// Reads the text of a manifest.
pub fn read_manifest(text: &str) -> (result: Result<Declarations, ManifestError>)
    ensures
        match result {
            Ok(declarations) => manifest_of(text@) == Some(declarations@)
                && declarations.package is Some,
            Err(ManifestError::Malformed) => manifest_of(text@) is None,
            Err(ManifestError::NoPackage) => match manifest_of(text@) {
                Some(declarations) => declarations.package is None,
                None => false,
            },
        },
{
    check_declarations(parse_declarations(text))
}

} // verus!
