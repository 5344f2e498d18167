//! What a scan shows of its result: the rows of the table of projects, and the
//! names that the command line leaves open.

use crate::project::{Project, ProjectView};
use vstd::prelude::*;
use vstd::string::*;

verus! {

/// The heading of the column of package names.
pub const NAME_HEADING: &'static str = "Project Name";

/// The heading of the column of paths.
pub const PATH_HEADING: &'static str = "Path";

/// What the table shows for a project without a package name.
pub const UNKNOWN_NAME: &'static str = "Unknown";

/// The name taken for the output where the command line asks for output
/// without naming it.
pub const DEFAULT_OUTPUT_NAME: &'static str = "cargo_projects";

/// What is added to the name given for the output to make the file's name.
pub const OUTPUT_SUFFIX: &'static str = ".json";

/// The directory searched where none is given and no home is known.
pub const CURRENT_DIRECTORY: &'static str = ".";

/// The name that the table shows for `project`.
pub open spec fn shown_name(project: ProjectView) -> Seq<char> {
    match project.package_name {
        Some(name) => name,
        None => UNKNOWN_NAME@,
    }
}

/// The row of the table for `project`: its name, then its path.
pub open spec fn row_of(project: ProjectView) -> (Seq<char>, Seq<char>) {
    (shown_name(project), project.path)
}

/// The rows of the table for `projects`: the headings, then one row for each
/// project, in order.
pub open spec fn table_of(projects: Seq<ProjectView>) -> Seq<(Seq<char>, Seq<char>)> {
    seq![(NAME_HEADING@, PATH_HEADING@)] + Seq::new(projects.len(), |i: int| row_of(projects[i]))
}

/// The directory to search: the one given; else the first home directory
/// known of the two candidates; else the current directory.
pub open spec fn search_root_of(
    given: Option<Seq<char>>,
    home: Option<Seq<char>>,
    profile: Option<Seq<char>>,
) -> Seq<char> {
    match given {
        Some(dir) => dir,
        None => match home {
            Some(dir) => dir,
            None => match profile {
                Some(dir) => dir,
                None => CURRENT_DIRECTORY@,
            },
        },
    }
}

/// The name that the table shows for `project`.
pub fn display_name(project: &Project) -> (name: &str)
    ensures
        name@ == shown_name(project@),
{
    match &project.package_name {
        Some(name) => name.as_str(),
        None => UNKNOWN_NAME,
    }
}

/// The rows of the table for `projects`.
pub fn table_rows(projects: &[Project]) -> (rows: Vec<(String, String)>)
    ensures
        rows.deep_view() == table_of(projects.deep_view()),
{
    let ghost all = projects.deep_view();
    let n = projects.len();
    let mut rows: Vec<(String, String)> = Vec::new();
    rows.push((NAME_HEADING.to_owned(), PATH_HEADING.to_owned()));
    let mut i: usize = 0;
    assert(rows.deep_view() =~= table_of(all.take(0)));
    while i < n
        invariant
            n == projects@.len(),
            all == projects.deep_view(),
            i <= n,
            rows.deep_view() == table_of(all.take(i as int)),
        decreases n - i,
    {
        let ghost before = rows.deep_view();
        let project = &projects[i];
        assert(all[i as int] == project@);
        rows.push((display_name(project).to_owned(), project.path.clone()));
        assert(rows.deep_view() =~= before.push(row_of(project@)));
        assert(rows.deep_view() =~= table_of(all.take(i + 1)));
        i = i + 1;
    }
    assert(all.take(n as int) =~= all);
    rows
}

/// The name of the file that the result is written to, for the name given on
/// the command line.
pub fn output_file_name(stem: &str) -> (name: String)
    ensures
        name@ == stem@ + OUTPUT_SUFFIX@,
{
    let mut name = stem.to_owned();
    name.append(OUTPUT_SUFFIX);
    name
}

/// The directory to search, for the one given on the command line, if any,
/// and the two candidates for the home directory.
pub fn search_root(
    given: Option<&str>,
    home: Option<&str>,
    profile: Option<&str>,
) -> (root: String)
    ensures
        root@ == search_root_of(given.deep_view(), home.deep_view(), profile.deep_view()),
{
    match given {
        Some(dir) => dir.to_owned(),
        None => match home {
            Some(dir) => dir.to_owned(),
            None => match profile {
                Some(dir) => dir.to_owned(),
                None => CURRENT_DIRECTORY.to_owned(),
            },
        },
    }
}

} // verus!
