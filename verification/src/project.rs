//! A package found by a scan.

use vstd::prelude::*;

verus! {

/// A package found by a scan: the directory of its manifest, and the name that
/// the manifest declares, if it declares one.
#[derive(Clone, Debug, PartialEq, Eq)]
pub struct Project {
    /// The directory that holds the manifest, as text for display.
    pub path: String,
    /// The package name read from the manifest.
    pub package_name: Option<String>,
}

/// What a [`Project`] stands for.
pub struct ProjectView {
    pub path: Seq<char>,
    pub package_name: Option<Seq<char>>,
}

impl View for Project {
    type V = ProjectView;

    open spec fn view(&self) -> ProjectView {
        ProjectView { path: self.path@, package_name: self.package_name.deep_view() }
    }
}

impl DeepView for Project {
    type V = ProjectView;

    open spec fn deep_view(&self) -> ProjectView {
        self@
    }
}

} // verus!
