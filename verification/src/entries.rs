//! The directory model the verified logic works on.
//!
//! Directory listings reach the library as plain values: one [`DirEntry`]
//! per immediate entry, holding the entry's name and kind. The surrounding
//! binary reads real directories into this form and carries the computed
//! plans back out to the filesystem.

use vstd::prelude::*;

verus! {

/// The kind of one directory entry, as a directory walk reports it without
/// following symlinks. `Other` stands for anything that is neither a plain
/// file nor a directory.
#[derive(Clone, Copy, PartialEq, Eq, Structural, Debug)]
pub enum EntryKind {
    File,
    Dir,
    Other,
}

/// One immediate entry of a directory listing.
#[derive(PartialEq, Eq, Debug)]
pub struct DirEntry {
    pub name: String,
    pub kind: EntryKind,
}

/// Mathematical form of a directory entry: the name as a character sequence.
pub struct DirEntryView {
    pub name: Seq<char>,
    pub kind: EntryKind,
}

impl View for DirEntry {
    type V = DirEntryView;

    open spec fn view(&self) -> DirEntryView {
        DirEntryView { name: self.name@, kind: self.kind }
    }
}

impl DeepView for DirEntry {
    type V = DirEntryView;

    open spec fn deep_view(&self) -> DirEntryView {
        self.view()
    }
}

impl Clone for DirEntry {
    fn clone(&self) -> (r: Self)
        ensures
            r == *self,
    {
        DirEntry { name: self.name.clone(), kind: self.kind }
    }
}

/// Whether a listing holds an entry of the given name.
pub open spec fn has_entry(s: Seq<DirEntryView>, name: Seq<char>) -> bool {
    exists|i: int| 0 <= i < s.len() && #[trigger] s[i].name == name
}

} // verus!
