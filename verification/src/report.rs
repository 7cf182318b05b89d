//! The report over the dependencies of one manifest: what is found of each
//! dependency, the row that shows it, and the running totals.

use crate::advisory::{applicable, count_advisories, patch_lists, SecurityDatabase};
use crate::dependency::{
    listing_texts, process_dependency, remote_version, specifier_of, DeclaredDependency,
    Dependency,
};
use crate::numeral::{decimal, decimal_text};
use crate::output::{
    cell, plain_row, row, DisplayCell, DisplayLine, LineValue, OutputDisplayType,
    ADVISORY_WIDTH, CYAN, GREEN, NAME_WIDTH, RED, RED_BACKGROUND, VERSION_WIDTH, YELLOW,
};
use crate::parse::declared;
use crate::specifier::operators_of;
use crate::version::{display_text, exceeds, same_precedence, Version, VersionValue};
use vstd::prelude::*;
use vstd::string::*;

verus! {

/// Whether the declared version is current: both versions are semantic and
/// are the same, build metadata aside. Text that is no semantic version is
/// never current, not even against the same text.
pub open spec fn is_current(local: VersionValue, remote: VersionValue) -> bool {
    match (local, remote) {
        (VersionValue::Semantic(a), VersionValue::Semantic(b)) => same_precedence(a, b),
        _ => false,
    }
}

/// Whether the declared version `local` is the newest published version
/// `remote`.
pub fn check_diff(local: &Version, remote: &Version) -> (current: bool)
    ensures
        current == is_current(local@, remote@),
{
    match (local, remote) {
        (Version::Semantic(a), Version::Semantic(b)) => a.same_precedence(b),
        _ => false,
    }
}

/// Whether a newer release is out: both versions are semantic and `remote`
/// ranks strictly above `local`.
pub open spec fn is_behind(local: VersionValue, remote: VersionValue) -> bool {
    match (local, remote) {
        (VersionValue::Semantic(a), VersionValue::Semantic(b)) => exceeds(b, a),
        _ => false,
    }
}

/// Classifies the tool's own version `own_version` and resolves the answer
/// of the registry lookup for its own package. Where the registry's newest
/// release ranks above the own version, hands out both for the notice.
pub fn check_self_update(own_version: &str, listing: Option<Vec<String>>) -> (notice: Option<
    (Version, Version),
>)
    ensures
        match notice {
            Some((current, latest)) => {
                &&& is_behind(declared(own_version@), remote_version(listing_texts(listing)))
                &&& current@ == declared(own_version@)
                &&& latest@ == remote_version(listing_texts(listing))
            },
            None => !is_behind(declared(own_version@), remote_version(listing_texts(listing))),
        },
{
    let own = process_dependency(
        String::from_str("Self"),
        DeclaredDependency::Simple(String::from_str(own_version)),
        listing,
    );
    let behind = match (&own.version, &own.remote) {
        (Version::Semantic(a), Version::Semantic(b)) => b.exceeds(a),
        _ => false,
    };
    if behind {
        Some((own.version, own.remote))
    } else {
        None
    }
}

/// The colour of the advisory count in a dependency's row.
pub open spec fn advisory_color(advisories: nat, provided: bool) -> Seq<char> {
    if advisories > 0 {
        RED_BACKGROUND@
    } else if provided {
        CYAN@
    } else {
        YELLOW@
    }
}

/// The row of one dependency. A count that is not zero stands on red; a
/// dependency that is behind has its name in yellow and its declared version
/// in red; the newest version is green.
pub open spec fn dependency_row(
    name: Seq<char>,
    local: VersionValue,
    remote: VersionValue,
    advisories: nat,
) -> LineValue {
    let current = is_current(local, remote);
    row(
        cell(
            decimal(advisories),
            ADVISORY_WIDTH,
            advisory_color(advisories, !(local is Unspecified)),
        ),
        cell(
            name,
            NAME_WIDTH,
            if current {
                CYAN@
            } else {
                YELLOW@
            },
        ),
        cell(
            display_text(local),
            VERSION_WIDTH,
            if current {
                GREEN@
            } else {
                RED@
            },
        ),
        cell(display_text(remote), VERSION_WIDTH, GREEN@),
    )
}

/// What was found of one dependency, with the row that shows it.
#[derive(Clone, Debug)]
pub struct DependencyReport {
    pub dependency: Dependency,
    /// The advisory entries that still apply to the declared version.
    pub advisories: u128,
    /// Whether the declared version is the newest published version.
    pub current: bool,
    pub row: DisplayLine,
}

/// What a manifest says of one dependency, as the report needs it: the name,
/// the specifier, and what the registry lists under that name.
pub struct EntryValue {
    pub name: Seq<char>,
    pub specifier: Seq<char>,
    pub listing: Option<Seq<Seq<char>>>,
}

/// What is found of one dependency.
pub struct Findings {
    pub name: Seq<char>,
    pub operators: Seq<char>,
    pub local: VersionValue,
    pub remote: VersionValue,
    pub advisories: nat,
    pub current: bool,
    pub row: LineValue,
}

/// The advisory entries that `db` holds against the version `local` of the
/// package `name`.
pub open spec fn advisories_against(db: SecurityDatabase, name: Seq<char>, local: VersionValue)
    -> nat {
    match db.lookup(name) {
        Some(advisories) => applicable(patch_lists(advisories@), local),
        None => 0,
    }
}

/// What is found of the dependency `entry`, given the advisories in `db`.
pub open spec fn findings(entry: EntryValue, db: SecurityDatabase) -> Findings {
    let local = declared(entry.specifier);
    let remote = remote_version(entry.listing);
    let advisories = advisories_against(db, entry.name, local);
    Findings {
        name: entry.name,
        operators: operators_of(entry.specifier),
        local,
        remote,
        advisories,
        current: is_current(local, remote),
        row: dependency_row(entry.name, local, remote, advisories),
    }
}

impl View for DependencyReport {
    type V = Findings;

    open spec fn view(&self) -> Findings {
        Findings {
            name: self.dependency.name@,
            operators: self.dependency.wildcards@,
            local: self.dependency.version@,
            remote: self.dependency.remote@,
            advisories: self.advisories as nat,
            current: self.current,
            row: self.row@,
        }
    }
}

/// What a manifest says of one dependency, with the answer of the registry
/// lookup for its name: the listing of published versions, or `None` where
/// the lookup failed.
#[derive(Clone, Debug)]
pub struct DeclaredEntry {
    pub name: String,
    pub declaration: DeclaredDependency,
    pub listing: Option<Vec<String>>,
}

impl View for DeclaredEntry {
    type V = EntryValue;

    open spec fn view(&self) -> EntryValue {
        EntryValue {
            name: self.name@,
            specifier: specifier_of(self.declaration),
            listing: listing_texts(self.listing),
        }
    }
}

impl DependencyReport {
    /// Reports on one dependency of a manifest.
    pub fn of_entry(entry: &DeclaredEntry, db: &SecurityDatabase) -> (report: DependencyReport)
        ensures
            report@ == findings(entry@, *db),
    {
        let dependency = Dependency::resolve(
            entry.name.as_str(),
            &entry.declaration,
            &entry.listing,
        );
        let advisories = count_advisories(db, dependency.name.as_str(), &dependency.version);
        let current = check_diff(&dependency.version, &dependency.remote);
        let first = DisplayCell::new(
            decimal_text(advisories),
            ADVISORY_WIDTH,
            if advisories > 0 {
                RED_BACKGROUND
            } else if dependency.version.is_provided() {
                CYAN
            } else {
                YELLOW
            },
        );
        let second = DisplayCell::new(
            dependency.name.clone(),
            NAME_WIDTH,
            if current {
                CYAN
            } else {
                YELLOW
            },
        );
        let third = DisplayCell::new(
            dependency.version.to_text(),
            VERSION_WIDTH,
            if current {
                GREEN
            } else {
                RED
            },
        );
        let fourth = DisplayCell::new(dependency.remote.to_text(), VERSION_WIDTH, GREEN);
        let row = DisplayLine::new_row(first, second, third, fourth);
        DependencyReport { dependency, advisories, current, row }
    }
}

/// Reports on one dependency of a manifest: `entry` is its name and what the
/// manifest declares, `listing` the answer of the registry lookup for that
/// name, `None` where the lookup failed.
pub fn manage_deps(
    entry: (String, DeclaredDependency),
    listing: Option<Vec<String>>,
    db: &SecurityDatabase,
) -> (report: DependencyReport)
    ensures
        report@ == findings(
            EntryValue {
                name: entry.0@,
                specifier: specifier_of(entry.1),
                listing: listing_texts(listing),
            },
            *db,
        ),
{
    let declared_entry = DeclaredEntry { name: entry.0, declaration: entry.1, listing };
    DependencyReport::of_entry(&declared_entry, db)
}

/// The four totals of a report, as unbounded numbers.
pub struct Totals {
    pub up_to_date: nat,
    pub out_of_date: nat,
    pub insecure: nat,
    pub unspecified: nat,
}

/// The totals after one more dependency. The three marks are independent: a
/// dependency without a version is counted as such and as out of date, and
/// its advisories are counted as well.
pub open spec fn totals_with(totals: Totals, found: Findings) -> Totals {
    let current = found.current;
    Totals {
        up_to_date: totals.up_to_date + if current {
            1nat
        } else {
            0nat
        },
        out_of_date: totals.out_of_date + if current {
            0nat
        } else {
            1nat
        },
        insecure: totals.insecure + found.advisories,
        unspecified: totals.unspecified + if found.local is Unspecified {
            1nat
        } else {
            0nat
        },
    }
}

/// Whether each of the four totals fits 16 bits.
pub open spec fn fits(totals: Totals) -> bool {
    &&& totals.up_to_date <= u16::MAX
    &&& totals.out_of_date <= u16::MAX
    &&& totals.insecure <= u16::MAX
    &&& totals.unspecified <= u16::MAX
}

/// The running totals of a report.
#[derive(Clone, Copy, Debug, PartialEq, Eq, Structural)]
pub struct ReportTally {
    pub up_to_date: u16,
    pub out_of_date: u16,
    pub insecure: u16,
    pub unspecified: u16,
}

impl View for ReportTally {
    type V = Totals;

    open spec fn view(&self) -> Totals {
        Totals {
            up_to_date: self.up_to_date as nat,
            out_of_date: self.out_of_date as nat,
            insecure: self.insecure as nat,
            unspecified: self.unspecified as nat,
        }
    }
}

impl ReportTally {
    /// The totals of a report that has not begun.
    pub fn new() -> (tally: ReportTally)
        ensures
            tally@ == (Totals { up_to_date: 0, out_of_date: 0, insecure: 0, unspecified: 0 }),
    {
        ReportTally { up_to_date: 0, out_of_date: 0, insecure: 0, unspecified: 0 }
    }

    /// The totals with one more dependency counted; `None` where a total
    /// would pass 16 bits.
    pub fn record(&self, report: &DependencyReport) -> (next: Option<ReportTally>)
        ensures
            match next {
                Some(tally) => tally@ == totals_with(self@, report@),
                None => !fits(totals_with(self@, report@)),
            },
    {
        let up_to_date = if report.current {
            self.up_to_date.checked_add(1)
        } else {
            Some(self.up_to_date)
        };
        let out_of_date = if report.current {
            Some(self.out_of_date)
        } else {
            self.out_of_date.checked_add(1)
        };
        let insecure = if report.advisories <= 0xffff {
            self.insecure.checked_add(report.advisories as u16)
        } else {
            None
        };
        let unspecified = if report.dependency.version.is_provided() {
            Some(self.unspecified)
        } else {
            self.unspecified.checked_add(1)
        };
        match (up_to_date, out_of_date, insecure, unspecified) {
            (Some(up_to_date), Some(out_of_date), Some(insecure), Some(unspecified)) => Some(
                ReportTally { up_to_date, out_of_date, insecure, unspecified },
            ),
            _ => None,
        }
    }
}

/// The entries of a manifest section as the report reads them, in order.
pub open spec fn entry_values(entries: Seq<DeclaredEntry>) -> Seq<EntryValue> {
    entries.map_values(|entry: DeclaredEntry| entry@)
}

/// The totals after the dependencies `entries`, counted in order from
/// `start`.
pub open spec fn totals_over(start: Totals, entries: Seq<EntryValue>, db: SecurityDatabase)
    -> Totals
    decreases entries.len(),
{
    if entries.len() == 0 {
        start
    } else {
        totals_with(totals_over(start, entries.drop_last(), db), findings(entries.last(), db))
    }
}

/// The rows of the dependencies `entries`, in order.
pub open spec fn rows_over(entries: Seq<EntryValue>, db: SecurityDatabase) -> Seq<LineValue> {
    entries.map_values(|entry: EntryValue| findings(entry, db).row)
}

/// Whether no total of `a` is above that of `b`.
pub open spec fn within(a: Totals, b: Totals) -> bool {
    &&& a.up_to_date <= b.up_to_date
    &&& a.out_of_date <= b.out_of_date
    &&& a.insecure <= b.insecure
    &&& a.unspecified <= b.unspecified
}

/// Totals never go down: those after the first `k` entries are within those
/// after all of them.
pub proof fn lemma_totals_grow(start: Totals, entries: Seq<EntryValue>, db: SecurityDatabase, k: int)
    requires
        0 <= k <= entries.len(),
    ensures
        within(totals_over(start, entries.take(k), db), totals_over(start, entries, db)),
    decreases entries.len(),
{
    if k == entries.len() {
        assert(entries.take(k) =~= entries);
    } else {
        lemma_totals_grow(start, entries.drop_last(), db, k);
        assert(entries.drop_last().take(k) =~= entries.take(k));
    }
}

/// The values of a list of lines, in order.
pub open spec fn line_values(lines: Seq<DisplayLine>) -> Seq<LineValue> {
    lines.map_values(|line: DisplayLine| line@)
}

/// A report in the making: the lines so far, and the running totals.
#[derive(Clone, Debug)]
pub struct Report {
    pub lines: Vec<DisplayLine>,
    pub tally: ReportTally,
}

impl Report {
    /// Adds the dependencies of one manifest section, in order. Gives `false`
    /// where a total would pass 16 bits; the report is then of no use.
    pub fn add_section(&mut self, entries: &Vec<DeclaredEntry>, db: &SecurityDatabase) -> (done:
        bool)
        ensures
            done == fits(totals_over(old(self).tally@, entry_values(entries@), *db)),
            done ==> final(self).tally@ == totals_over(
                old(self).tally@,
                entry_values(entries@),
                *db,
            ),
            done ==> line_values(final(self).lines@) == line_values(old(self).lines@) + rows_over(
                entry_values(entries@),
                *db,
            ),
    {
        let ghost start = self.tally@;
        let ghost before = line_values(self.lines@);
        let ghost values = entry_values(entries@);
        let mut i: usize = 0;
        proof {
            assert(values.take(0) =~= Seq::<EntryValue>::empty());
            assert(rows_over(values.take(0), *db) =~= Seq::<LineValue>::empty());
            assert(before + rows_over(values.take(0), *db) =~= before);
        }
        while i < entries.len()
            invariant
                i <= entries.len(),
                values == entry_values(entries@),
                start == old(self).tally@,
                self.tally@ == totals_over(start, values.take(i as int), *db),
                line_values(self.lines@) == before + rows_over(values.take(i as int), *db),
            decreases entries.len() - i,
        {
            let report = DependencyReport::of_entry(&entries[i], db);
            proof {
                assert(values.take(i + 1).drop_last() =~= values.take(i as int));
                assert(values.take(i + 1).last() == entries@[i as int]@);
                lemma_totals_grow(start, values, *db, i + 1);
                assert(totals_over(start, values.take(i + 1), *db) == totals_with(
                    self.tally@,
                    report@,
                ));
            }
            match self.tally.record(&report) {
                Some(tally) => {
                    self.tally = tally;
                },
                None => {
                    return false;
                },
            }
            let ghost lines_before = self.lines@;
            self.lines.push(report.row);
            proof {
                assert(line_values(self.lines@) =~= line_values(lines_before).push(report.row@));
                assert(rows_over(values.take(i + 1), *db) =~= rows_over(
                    values.take(i as int),
                    *db,
                ).push(findings(values[i as int], *db).row));
                assert(line_values(self.lines@) =~= before + rows_over(values.take(i + 1), *db));
            }
            i += 1;
        }
        proof {
            assert(values.take(entries.len() as int) =~= values);
        }
        true
    }
}

/// A manifest as the report reads it: the name of the package and its three
/// sections of dependencies, each entry with the answer of its registry
/// lookup.
#[derive(Clone, Debug)]
pub struct Manifest {
    pub package: String,
    pub dependencies: Vec<DeclaredEntry>,
    pub dev_dependencies: Vec<DeclaredEntry>,
    pub build_dependencies: Vec<DeclaredEntry>,
}

/// The words that a report's title begins with.
pub const TITLE_PREFIX: &'static str = "Version Report: ";

impl Manifest {
    /// The dependencies of all three sections: runtime, development, build.
    pub open spec fn entries(&self) -> Seq<EntryValue> {
        entry_values(self.dependencies@) + entry_values(self.dev_dependencies@) + entry_values(
            self.build_dependencies@,
        )
    }
}

/// The lines that open a report on the package `package`: the title, the head
/// of the table and the rule below it.
pub open spec fn opening_lines(package: Seq<char>) -> Seq<LineValue> {
    seq![
        LineValue {
            display_type: OutputDisplayType::Title,
            cells: seq![cell(TITLE_PREFIX@ + package, 0, CYAN@)],
        },
        plain_row("Advisories"@, "Dependency"@, "Version"@, "Latest"@),
        LineValue { display_type: OutputDisplayType::Guide, cells: Seq::empty() },
    ]
}

/// The zero totals.
pub open spec fn no_totals() -> Totals {
    Totals { up_to_date: 0, out_of_date: 0, insecure: 0, unspecified: 0 }
}

/// Counting one list of entries after another is counting both in a row.
pub proof fn lemma_totals_concat(
    start: Totals,
    a: Seq<EntryValue>,
    b: Seq<EntryValue>,
    db: SecurityDatabase,
)
    ensures
        totals_over(start, a + b, db) == totals_over(totals_over(start, a, db), b, db),
    decreases b.len(),
{
    if b.len() == 0 {
        assert(a + b =~= a);
    } else {
        lemma_totals_concat(start, a, b.drop_last(), db);
        assert((a + b).drop_last() =~= a + b.drop_last());
        assert((a + b).last() == b.last());
    }
}

/// Reports on the dependencies of a manifest: the lines of the table, from
/// the title to the last dependency, and the totals. Gives `None` where a
/// total would pass 16 bits.
pub fn fetch_dependencies(manifest: &Manifest, db: &SecurityDatabase) -> (report: Option<Report>)
    ensures
        match report {
            Some(report) => {
                &&& report.tally@ == totals_over(no_totals(), manifest.entries(), *db)
                &&& line_values(report.lines@) == opening_lines(manifest.package@) + rows_over(
                    manifest.entries(),
                    *db,
                )
            },
            None => !fits(totals_over(no_totals(), manifest.entries(), *db)),
        },
{
    let mut title = String::from_str(TITLE_PREFIX);
    title.append(manifest.package.as_str());
    let mut lines: Vec<DisplayLine> = Vec::new();
    lines.push(DisplayLine::new_title(title.as_str()));
    lines.push(DisplayLine::new_header());
    lines.push(DisplayLine::new_guide());
    let mut report = Report { lines, tally: ReportTally::new() };
    let ghost runtime = entry_values(manifest.dependencies@);
    let ghost development = entry_values(manifest.dev_dependencies@);
    let ghost build = entry_values(manifest.build_dependencies@);
    proof {
        assert(line_values(report.lines@) =~= opening_lines(manifest.package@));
        lemma_totals_concat(no_totals(), runtime, development, *db);
        lemma_totals_concat(no_totals(), runtime + development, build, *db);
        lemma_totals_grow(no_totals(), runtime + development, *db, runtime.len() as int);
        assert((runtime + development).take(runtime.len() as int) =~= runtime);
        lemma_totals_grow(
            no_totals(),
            manifest.entries(),
            *db,
            (runtime + development).len() as int,
        );
        assert(manifest.entries().take((runtime + development).len() as int) =~= runtime
            + development);
        assert(rows_over(manifest.entries(), *db) =~= rows_over(runtime, *db) + rows_over(
            development,
            *db,
        ) + rows_over(build, *db));
    }
    if !report.add_section(&manifest.dependencies, db) {
        return None;
    }
    if !report.add_section(&manifest.dev_dependencies, db) {
        return None;
    }
    if !report.add_section(&manifest.build_dependencies, db) {
        return None;
    }
    proof {
        assert(line_values(report.lines@) =~= opening_lines(manifest.package@) + rows_over(
            manifest.entries(),
            *db,
        ));
    }
    Some(report)
}

} // verus!
