//! The manifest scanner: what a walk over a directory tree finds.
//!
//! The scanner does no input or output itself. Whoever walks the tree tells it
//! of each thing that happens, as a [`WalkEvent`], and is told what to do
//! next, as an [`Action`]. The packages found so far are a function of the
//! events reported so far: [`scan`].

use crate::filter::{
    has_hidden_component, is_hidden, is_left_out, leaves_out, Entry, EntryView,
};
use crate::manifest::{
    declares_package, extract_package_name, has_package_marker, is_manifest_file_name,
    package_name, MANIFEST_FILE_NAME,
};
use crate::project::{Project, ProjectView};
use vstd::prelude::*;

verus! {

/// Something that happened on a walk.
#[derive(Clone, Copy, Debug)]
pub enum WalkEvent<'a> {
    /// The walk reached an entry.
    Entry(&'a Entry),
    /// The walk could not read an entry.
    Failed,
    /// The file of an entry was read as text, after the scanner asked for it;
    /// `None` where it could not be read as text.
    Manifest(&'a Entry, Option<&'a str>),
}

/// What a [`WalkEvent`] stands for.
pub enum WalkEventView {
    Entry(EntryView),
    Failed,
    Manifest(EntryView, Option<Seq<char>>),
}

impl<'a> View for WalkEvent<'a> {
    type V = WalkEventView;

    open spec fn view(&self) -> WalkEventView {
        match *self {
            WalkEvent::Entry(entry) => WalkEventView::Entry(entry@),
            WalkEvent::Failed => WalkEventView::Failed,
            WalkEvent::Manifest(entry, contents) => WalkEventView::Manifest(
                entry@,
                match contents {
                    Some(text) => Some(text@),
                    None => None,
                },
            ),
        }
    }
}

/// What the walk does after it has reported an event.
#[derive(Clone, Copy, Debug, PartialEq, Eq, Structural)]
pub enum Action {
    /// Go on; where the entry reported is a directory, go into it.
    Continue,
    /// Go on, but not into the entry reported.
    Prune,
    /// Read the file of the entry reported as text, report the outcome as a
    /// [`WalkEvent::Manifest`], then go on.
    ReadManifest,
}

/// Whether `entry` is a manifest that can be recorded: a regular file with
/// the manifest's file name, in a directory.
pub open spec fn is_manifest(entry: EntryView) -> bool {
    entry.is_file && entry.file_name == MANIFEST_FILE_NAME@ && entry.parent is Some
}

/// The action that answers `event`.
pub open spec fn action_for(skip_hidden: bool, event: WalkEventView) -> Action {
    match event {
        WalkEventView::Entry(entry) => if is_left_out(skip_hidden, entry) {
            Action::Prune
        } else if is_manifest(entry) {
            Action::ReadManifest
        } else {
            Action::Continue
        },
        WalkEventView::Failed => Action::Continue,
        WalkEventView::Manifest(_, _) => Action::Continue,
    }
}

/// The package that `event` adds to those found, if it adds one: it does when
/// it brings the text of a manifest, the walk does not leave the manifest out,
/// and the text declares a package.
pub open spec fn found_by(skip_hidden: bool, event: WalkEventView) -> Option<ProjectView> {
    match event {
        WalkEventView::Manifest(entry, Some(contents)) => if !is_left_out(skip_hidden, entry)
            && is_manifest(entry) && has_package_marker(contents) {
            Some(ProjectView { path: entry.parent->0, package_name: package_name(contents) })
        } else {
            None
        },
        _ => None,
    }
}

/// The packages found by a walk that has reported `events`, in the order in
/// which they were found.
pub open spec fn scan(skip_hidden: bool, events: Seq<WalkEventView>) -> Seq<ProjectView>
    decreases events.len(),
{
    if events.len() == 0 {
        Seq::empty()
    } else {
        let before = scan(skip_hidden, events.drop_last());
        match found_by(skip_hidden, events.last()) {
            Some(project) => before.push(project),
            None => before,
        }
    }
}

/// The state of a scan: the packages found so far.
pub struct Scanner {
    skip_hidden: bool,
    projects: Vec<Project>,
    events: Ghost<Seq<WalkEventView>>,
}

impl Scanner {
    /// Whether the scan skips hidden entries.
    pub closed spec fn skip_hidden(&self) -> bool {
        self.skip_hidden
    }

    /// The events reported so far.
    pub closed spec fn events(&self) -> Seq<WalkEventView> {
        self.events@
    }

    /// The packages found so far.
    pub closed spec fn found(&self) -> Seq<ProjectView> {
        self.projects.deep_view()
    }

    /// The packages found so far are those of the events reported so far.
    #[verifier::type_invariant]
    spec fn found_is_scan_of_events(self) -> bool {
        self.projects.deep_view() == scan(self.skip_hidden, self.events@)
    }

    /// A scan before its first event.
    pub fn new(skip_hidden: bool) -> (scanner: Scanner)
        ensures
            scanner.skip_hidden() == skip_hidden,
            scanner.events() == Seq::<WalkEventView>::empty(),
            scanner.found() == Seq::<ProjectView>::empty(),
    {
        let projects: Vec<Project> = Vec::new();
        assert(projects.deep_view() =~= Seq::<ProjectView>::empty());
        Scanner { skip_hidden, projects, events: Ghost(Seq::empty()) }
    }

    /// Takes note of `event`: gives the state after it, and tells the walk
    /// what to do next.
    pub fn step(self, event: WalkEvent) -> (next: (Scanner, Action))
        ensures
            next.0.skip_hidden() == self.skip_hidden(),
            next.0.events() == self.events().push(event@),
            next.0.found() == scan(self.skip_hidden(), self.events().push(event@)),
            next.0.found() == match found_by(self.skip_hidden(), event@) {
                Some(project) => self.found().push(project),
                None => self.found(),
            },
            next.1 == action_for(self.skip_hidden(), event@),
    {
        proof {
            use_type_invariant(&self);
        }
        let Scanner { skip_hidden, mut projects, events } = self;
        let ghost before = projects.deep_view();
        let ghost reported = events@.push(event@);
        assert(reported.drop_last() =~= events@);
        let action = match event {
            WalkEvent::Entry(entry) => {
                if leaves_out(skip_hidden, entry) {
                    Action::Prune
                } else if is_manifest_entry(entry) {
                    Action::ReadManifest
                } else {
                    Action::Continue
                }
            },
            WalkEvent::Failed => Action::Continue,
            WalkEvent::Manifest(entry, contents) => {
                if !leaves_out(skip_hidden, entry) && is_manifest_entry(entry) {
                    if let Some(text) = contents {
                        if declares_package(text) {
                            if let Some(parent) = &entry.parent {
                                let project = Project {
                                    path: parent.clone(),
                                    package_name: extract_package_name(text),
                                };
                                projects.push(project);
                                assert(projects.deep_view() == before.push(project@));
                            }
                        }
                    }
                }
                Action::Continue
            },
        };
        (Scanner { skip_hidden, projects, events: Ghost(reported) }, action)
    }

    /// Ends the scan and hands out the packages found.
    pub fn into_projects(self) -> (projects: Vec<Project>)
        ensures
            projects.deep_view() == self.found(),
            projects.deep_view() == scan(self.skip_hidden(), self.events()),
    {
        proof {
            use_type_invariant(&self);
        }
        self.projects
    }
}

/// Tells whether `entry` is a manifest that can be recorded.
pub fn is_manifest_entry(entry: &Entry) -> (b: bool)
    ensures
        b == is_manifest(entry@),
{
    entry.is_file && entry.parent.is_some() && is_manifest_file_name(entry.file_name.as_str())
}

/// Whether `project` is what `event` adds to the packages found, and `event`
/// brings a manifest none of whose path components starts with a dot.
pub open spec fn found_in_the_open(
    skip_hidden: bool,
    event: WalkEventView,
    project: ProjectView,
) -> bool {
    &&& found_by(skip_hidden, event) == Some(project)
    &&& event matches WalkEventView::Manifest(entry, _)
    &&& !has_hidden_component(entry.components)
}

/// What a walk finds in two stretches of events is what it finds in the
/// first, followed by what it finds in the second.
pub proof fn law_scan_of_concatenation(
    skip_hidden: bool,
    first: Seq<WalkEventView>,
    second: Seq<WalkEventView>,
)
    ensures
        scan(skip_hidden, first + second) == scan(skip_hidden, first) + scan(skip_hidden, second),
    decreases second.len(),
{
    if second.len() == 0 {
        assert(first + second =~= first);
        assert(scan(skip_hidden, first) + scan(skip_hidden, second) =~= scan(skip_hidden, first));
    } else {
        let all = first + second;
        assert(all.drop_last() =~= first + second.drop_last());
        assert(all.last() == second.last());
        law_scan_of_concatenation(skip_hidden, first, second.drop_last());
        let head = scan(skip_hidden, first);
        let tail = scan(skip_hidden, second.drop_last());
        match found_by(skip_hidden, second.last()) {
            Some(project) => {
                assert((head + tail).push(project) =~= head + tail.push(project));
            },
            None => {},
        }
    }
}

/// A manifest that the walk does not leave out is asked for, and where its
/// text holds the package marker, it adds exactly one package to those found
/// so far: its path is the directory of the manifest, its name the one that
/// the text declares.
pub proof fn law_manifest_with_marker_adds_one_project(
    skip_hidden: bool,
    events: Seq<WalkEventView>,
    entry: EntryView,
    contents: Seq<char>,
)
    requires
        is_manifest(entry),
        !is_left_out(skip_hidden, entry),
        has_package_marker(contents),
    ensures
        action_for(skip_hidden, WalkEventView::Entry(entry)) == Action::ReadManifest,
        scan(skip_hidden, events.push(WalkEventView::Manifest(entry, Some(contents)))) == scan(
            skip_hidden,
            events,
        ).push(ProjectView { path: entry.parent->0, package_name: package_name(contents) }),
{
    let event = WalkEventView::Manifest(entry, Some(contents));
    assert(events.push(event).drop_last() =~= events);
}

/// A manifest whose text does not hold the package marker adds no package.
pub proof fn law_manifest_without_marker_adds_nothing(
    skip_hidden: bool,
    events: Seq<WalkEventView>,
    entry: EntryView,
    contents: Seq<char>,
)
    requires
        !has_package_marker(contents),
    ensures
        scan(skip_hidden, events.push(WalkEventView::Manifest(entry, Some(contents)))) == scan(
            skip_hidden,
            events,
        ),
{
    let event = WalkEventView::Manifest(entry, Some(contents));
    assert(events.push(event).drop_last() =~= events);
}

/// A walk that does not skip hidden entries leaves no entry out.
pub proof fn law_nothing_is_left_out_without_the_filter(entry: EntryView)
    ensures
        !is_left_out(false, entry),
        action_for(false, WalkEventView::Entry(entry)) != Action::Prune,
{
}

/// A walk that skips hidden entries prunes each of them, and finds no package
/// in it, whatever is reported of it.
pub proof fn law_hidden_entry_is_pruned(entry: EntryView, contents: Option<Seq<char>>)
    requires
        is_hidden(entry),
    ensures
        action_for(true, WalkEventView::Entry(entry)) == Action::Prune,
        found_by(true, WalkEventView::Manifest(entry, contents)) is None,
{
}

/// Where hidden entries are skipped, every package found was added by a
/// manifest none of whose path components starts with a dot.
pub proof fn law_no_project_from_hidden_path(events: Seq<WalkEventView>)
    ensures
        forall|i: int|
            0 <= i < scan(true, events).len() ==> exists|j: int|
                0 <= j < events.len() && found_in_the_open(
                    true,
                    #[trigger] events[j],
                    #[trigger] scan(true, events)[i],
                ),
    decreases events.len(),
{
    if events.len() > 0 {
        let before = events.drop_last();
        law_no_project_from_hidden_path(before);
        assert forall|i: int| 0 <= i < scan(true, events).len() implies exists|j: int|
            0 <= j < events.len() && found_in_the_open(
                true,
                #[trigger] events[j],
                #[trigger] scan(true, events)[i],
            ) by {
            if i < scan(true, before).len() {
                assert(scan(true, events)[i] == scan(true, before)[i]);
                let j = choose|j: int|
                    0 <= j < before.len() && found_in_the_open(
                        true,
                        #[trigger] before[j],
                        scan(true, before)[i],
                    );
                assert(events[j] == before[j]);
            } else {
                let j = events.len() - 1;
                assert(found_in_the_open(true, events[j], scan(true, events)[i]));
            }
        }
    }
}

/// A manifest that could not be read lets the walk go on, adds no package,
/// and takes none away from what the events before it and after it add.
pub proof fn law_unreadable_manifest_changes_nothing(
    skip_hidden: bool,
    before: Seq<WalkEventView>,
    entry: EntryView,
    after: Seq<WalkEventView>,
)
    ensures
        action_for(skip_hidden, WalkEventView::Manifest(entry, None)) == Action::Continue,
        scan(skip_hidden, before.push(WalkEventView::Manifest(entry, None)) + after) == scan(
            skip_hidden,
            before + after,
        ),
{
    let unread = WalkEventView::Manifest(entry, None);
    assert(before.push(unread).drop_last() =~= before);
    law_scan_of_concatenation(skip_hidden, before.push(unread), after);
    law_scan_of_concatenation(skip_hidden, before, after);
}

/// A walk that reads no entry, as that of a root that is not there, finds
/// nothing.
pub proof fn law_failed_walk_finds_nothing(skip_hidden: bool, events: Seq<WalkEventView>)
    requires
        forall|i: int| 0 <= i < events.len() ==> events[i] is Failed,
    ensures
        scan(skip_hidden, events) == Seq::<ProjectView>::empty(),
    decreases events.len(),
{
    if events.len() > 0 {
        let before = events.drop_last();
        assert forall|i: int| 0 <= i < before.len() implies before[i] is Failed by {
            assert(before[i] == events[i]);
        }
        law_failed_walk_finds_nothing(skip_hidden, before);
    }
}

} // verus!
