//! The traversal filter: which entries of a walk are hidden.
//!
//! An entry is hidden when one of the components of its path has a name that
//! starts with a dot, or when the platform marks it hidden in its file
//! attributes. A hidden directory is left out together with all that is below
//! it.

use vstd::prelude::*;
use vstd::string::*;

verus! {

/// The bit of the platform's file attributes that marks an entry hidden.
pub const HIDDEN_ATTRIBUTE: u32 = 0x2;

/// An entry that a walk has reached, as far as the scan looks at it.
#[derive(Clone, Debug, PartialEq, Eq)]
pub struct Entry {
    /// The names of the components of the entry's path, from the root of the
    /// walk down to the entry itself.
    pub components: Vec<String>,
    /// The entry's file name.
    pub file_name: String,
    /// The directory that holds the entry, as text for display; `None` where
    /// the path has no parent.
    pub parent: Option<String>,
    /// Whether the entry is a regular file.
    pub is_file: bool,
    /// The platform's file attributes of the entry; `None` where the platform
    /// has none or they cannot be read.
    pub attributes: Option<u32>,
}

/// What an [`Entry`] stands for.
pub struct EntryView {
    pub components: Seq<Seq<char>>,
    pub file_name: Seq<char>,
    pub parent: Option<Seq<char>>,
    pub is_file: bool,
    pub attributes: Option<u32>,
}

impl View for Entry {
    type V = EntryView;

    open spec fn view(&self) -> EntryView {
        EntryView {
            components: self.components.deep_view(),
            file_name: self.file_name@,
            parent: self.parent.deep_view(),
            is_file: self.is_file,
            attributes: self.attributes,
        }
    }
}

/// Whether `name` starts with a dot.
pub open spec fn is_hidden_name(name: Seq<char>) -> bool {
    name.len() > 0 && name[0] == '.'
}

/// Whether one of `components` has a name that starts with a dot.
pub open spec fn has_hidden_component(components: Seq<Seq<char>>) -> bool {
    exists|i: int| 0 <= i < components.len() && is_hidden_name(#[trigger] components[i])
}

/// Whether `attributes` are there and mark the entry hidden.
pub open spec fn has_hidden_attribute(attributes: Option<u32>) -> bool {
    match attributes {
        Some(bits) => bits & HIDDEN_ATTRIBUTE != 0,
        None => false,
    }
}

/// Whether `entry` is hidden.
pub open spec fn is_hidden(entry: EntryView) -> bool {
    has_hidden_attribute(entry.attributes) || has_hidden_component(entry.components)
}

/// Whether a walk leaves `entry` out: it does when hidden entries are skipped
/// and `entry` is hidden.
pub open spec fn is_left_out(skip_hidden: bool, entry: EntryView) -> bool {
    skip_hidden && is_hidden(entry)
}

/// Tells whether `name` starts with a dot.
pub fn starts_with_dot(name: &str) -> (b: bool)
    ensures
        b == is_hidden_name(name@),
{
    !name.is_empty() && name.get_char(0) == '.'
}

/// Tells whether `entry` is hidden.
pub fn should_skip(entry: &Entry) -> (skip: bool)
    ensures
        skip == is_hidden(entry@),
{
    if let Some(bits) = entry.attributes {
        if bits & HIDDEN_ATTRIBUTE != 0 {
            return true;
        }
    }
    let ghost names = entry.components.deep_view();
    let n = entry.components.len();
    let mut i: usize = 0;
    while i < n
        invariant
            n == entry.components@.len(),
            names == entry.components.deep_view(),
            i <= n,
            forall|j: int| 0 <= j < i ==> !is_hidden_name(#[trigger] names[j]),
        decreases n - i,
    {
        assert(names[i as int] == entry.components@[i as int]@);
        if starts_with_dot(entry.components[i].as_str()) {
            return true;
        }
        i = i + 1;
    }
    false
}

/// Tells whether a walk leaves `entry` out, given whether it skips hidden
/// entries.
pub fn leaves_out(skip_hidden: bool, entry: &Entry) -> (out: bool)
    ensures
        out == is_left_out(skip_hidden, entry@),
{
    skip_hidden && should_skip(entry)
}

} // verus!
