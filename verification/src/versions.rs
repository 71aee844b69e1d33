//! The report of package versions that the workspace's helper prints.

use vstd::prelude::*;
use vstd::string::*;

verus! {

/// What the report needs to know of one package of the workspace.
#[derive(Debug, PartialEq, Eq)]
pub struct PackageVersion {
    pub name: String,
    pub version: String,
    /// The registries that the package may be published to; `None` where
    /// it may go to any.
    pub publish: Option<Vec<String>>,
}

impl PackageVersion {
    /// Whether the package is meant to be published at all: it is not where
    /// its list of registries is empty.
    pub open spec fn published(self) -> bool {
        match self.publish {
            Some(registries) => registries@.len() != 0,
            None => true,
        }
    }

    /// Tells whether the package is meant to be published at all.
    pub fn is_published(&self) -> (published: bool)
        ensures
            published == self.published(),
    {
        match &self.publish {
            Some(registries) => registries.len() != 0,
            None => true,
        }
    }
}

/// The version of the first package of that name, if there is one.
pub open spec fn version_of(packages: Seq<PackageVersion>, name: Seq<char>) -> Option<Seq<char>>
    decreases packages.len(),
{
    if packages.len() == 0 {
        None
    } else if packages[0].name@ == name {
        Some(packages[0].version@)
    } else {
        version_of(packages.drop_first(), name)
    }
}

/// The line for a package that was asked for by name. A line that stands
/// alone gives the version only.
pub open spec fn requested_line(
    packages: Seq<PackageVersion>,
    name: Seq<char>,
    alone: bool,
) -> Seq<char> {
    let found = match version_of(packages, name) {
        Some(version) => version,
        None => "Not found"@,
    };
    if alone {
        found
    } else {
        name + ": "@ + found
    }
}

/// The line for a package that is listed because it is published.
pub open spec fn listed_line(package: PackageVersion, alone: bool) -> Seq<char> {
    if alone {
        package.version@
    } else {
        package.name@ + ": "@ + package.version@
    }
}

/// The published packages among these, in order.
pub open spec fn published(packages: Seq<PackageVersion>) -> Seq<PackageVersion> {
    packages.filter(|package: PackageVersion| package.published())
}

/// The lines of the report. Where names are given, there is a line for
/// each name, in their order; otherwise there is a line for each published
/// package, in the order of the workspace.
pub open spec fn report(
    packages: Seq<PackageVersion>,
    requested: Option<Seq<Seq<char>>>,
) -> Seq<Seq<char>> {
    match requested {
        Some(names) => names.map_values(
            |name: Seq<char>| requested_line(packages, name, names.len() == 1),
        ),
        None => published(packages).map_values(
            |package: PackageVersion| listed_line(package, published(packages).len() == 1),
        ),
    }
}

/// The texts of these lines.
pub open spec fn texts(lines: Seq<String>) -> Seq<Seq<char>> {
    lines.map_values(|line: String| line@)
}

/// Looks up the version of the first package of that name.
pub fn find_version<'a>(packages: &'a Vec<PackageVersion>, name: &String) -> (found: Option<
    &'a String,
>)
    ensures
        match found {
            Some(version) => version_of(packages@, name@) == Some(version@),
            None => version_of(packages@, name@) is None,
        },
{
    let mut i: usize = 0;
    assert(packages@.skip(0) == packages@);
    while i < packages.len()
        invariant
            i <= packages.len(),
            version_of(packages@, name@) == version_of(packages@.skip(i as int), name@),
        decreases packages.len() - i,
    {
        if packages[i].name == *name {
            return Some(&packages[i].version);
        }
        assert(packages@.skip(i as int).drop_first() == packages@.skip(i + 1));
        i += 1;
    }
    None
}

/// Joins a name and what is reported of it into one line.
fn named(name: &str, found: &str) -> (line: String)
    ensures
        line@ == name@ + ": "@ + found@,
{
    let mut line = String::from_str(name);
    line.append(": ");
    line.append(found);
    line
}

/// Counts the published packages.
fn count_published(packages: &Vec<PackageVersion>) -> (count: usize)
    ensures
        count == published(packages@).len(),
{
    let mut count: usize = 0;
    let mut i: usize = 0;
    while i < packages.len()
        invariant
            i <= packages.len(),
            count == published(packages@.take(i as int)).len(),
            count <= i,
        decreases packages.len() - i,
    {
        proof {
            let seen = packages@.take(i as int);
            assert(packages@.take(i + 1) =~= seen.push(packages@[i as int]));
            seen.lemma_filter_push(
                packages@[i as int],
                |package: PackageVersion| package.published(),
            );
        }
        if packages[i].is_published() {
            count += 1;
        }
        i += 1;
    }
    assert(packages@.take(packages.len() as int) =~= packages@);
    count
}

/// Writes the report of versions: its lines, in order.
///
/// With names given, each name gets a line with the version of the first
/// package of that name, or with `Not found`. Without names, each package
/// that is meant to be published gets a line. A line starts with the name
/// of the package and a colon, unless it is the only line of its report.
pub fn version_report(packages: &Vec<PackageVersion>, requested: Option<&Vec<String>>) -> (lines:
    Vec<String>)
    ensures
        texts(lines@) == report(
            packages@,
            match requested {
                Some(names) => Some(texts(names@)),
                None => None,
            },
        ),
{
    let mut lines: Vec<String> = Vec::new();
    match requested {
        Some(names) => {
            let alone = names.len() == 1;
            let mut i: usize = 0;
            while i < names.len()
                invariant
                    i <= names.len(),
                    alone == (names@.len() == 1),
                    lines@.len() == i,
                    forall|k: int|
                        0 <= k < i ==> (#[trigger] lines@[k])@ == requested_line(
                            packages@,
                            names@[k]@,
                            alone,
                        ),
                decreases names.len() - i,
            {
                let name = &names[i];
                let found = match find_version(packages, name) {
                    Some(version) => version.as_str(),
                    None => "Not found",
                };
                let line = if alone {
                    String::from_str(found)
                } else {
                    named(name.as_str(), found)
                };
                lines.push(line);
                i += 1;
            }
        },
        None => {
            let alone = count_published(packages) == 1;
            let mut i: usize = 0;
            while i < packages.len()
                invariant
                    i <= packages.len(),
                    alone == (published(packages@).len() == 1),
                    lines@.len() == published(packages@.take(i as int)).len(),
                    forall|k: int|
                        0 <= k < lines@.len() ==> (#[trigger] lines@[k])@ == listed_line(
                            published(packages@.take(i as int))[k],
                            alone,
                        ),
                decreases packages.len() - i,
            {
                proof {
                    let seen = packages@.take(i as int);
                    assert(packages@.take(i + 1) =~= seen.push(packages@[i as int]));
                    seen.lemma_filter_push(
                        packages@[i as int],
                        |package: PackageVersion| package.published(),
                    );
                }
                let package = &packages[i];
                if package.is_published() {
                    let line = if alone {
                        package.version.clone()
                    } else {
                        named(package.name.as_str(), package.version.as_str())
                    };
                    lines.push(line);
                }
                i += 1;
            }
            assert(packages@.take(packages.len() as int) =~= packages@);
        },
    }
    lines
}

} // verus!
