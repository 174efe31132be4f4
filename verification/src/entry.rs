//! Kinds of filesystem entries, and what a directory walk observes.

use vstd::prelude::*;

verus! {

/// The kind of a filesystem entry, judged without following symbolic links.
#[derive(Clone, Copy, Debug, PartialEq, Eq, Structural)]
pub enum EntryType {
    Directory,
    RegularFile,
    SymbolicLink,
}

/// The entry type that a command-line flag stands for: `f`, `d` or `l`.
pub open spec fn type_of_flag(flag: Seq<char>) -> Option<EntryType> {
    if flag.len() != 1 {
        None
    } else if flag[0] == 'f' {
        Some(EntryType::RegularFile)
    } else if flag[0] == 'd' {
        Some(EntryType::Directory)
    } else if flag[0] == 'l' {
        Some(EntryType::SymbolicLink)
    } else {
        None
    }
}

/// The kind of an entry whose metadata answers the three questions so. A
/// symbolic link is a link whatever it points to; an entry that is neither a
/// link, a directory nor a regular file (a device, a socket, a pipe) has no
/// kind.
pub open spec fn kind_of(is_dir: bool, is_file: bool, is_symlink: bool) -> Option<EntryType> {
    if is_symlink {
        Some(EntryType::SymbolicLink)
    } else if is_dir {
        Some(EntryType::Directory)
    } else if is_file {
        Some(EntryType::RegularFile)
    } else {
        None
    }
}

impl EntryType {
    /// Reads a type flag of the command line.
    pub fn from_flag(flag: &str) -> (t: Option<EntryType>)
        ensures
            t == type_of_flag(flag@),
    {
        if flag.unicode_len() != 1 {
            return None;
        }
        let c = flag.get_char(0);
        if c == 'f' {
            Some(EntryType::RegularFile)
        } else if c == 'd' {
            Some(EntryType::Directory)
        } else if c == 'l' {
            Some(EntryType::SymbolicLink)
        } else {
            None
        }
    }

    /// Classifies an entry from the metadata that the walk read without
    /// following links. A symbolic link is a link, also where it points to a
    /// directory.
    pub fn classify(is_dir: bool, is_file: bool, is_symlink: bool) -> (t: Option<EntryType>)
        ensures
            t == kind_of(is_dir, is_file, is_symlink),
            is_symlink ==> t == Some(EntryType::SymbolicLink),
    {
        if is_symlink {
            Some(EntryType::SymbolicLink)
        } else if is_dir {
            Some(EntryType::Directory)
        } else if is_file {
            Some(EntryType::RegularFile)
        } else {
            None
        }
    }
}

/// An entry that the walk visited.
#[derive(Clone, Debug, PartialEq, Eq)]
pub struct Entry {
    /// The path as it is printed.
    pub path: String,
    /// The entry's kind, or `None` for an entry that is none of the three.
    pub entry_type: Option<EntryType>,
}

/// The mathematical value of an [`Entry`].
pub struct EntryView {
    pub path: Seq<char>,
    pub entry_type: Option<EntryType>,
}

impl View for Entry {
    type V = EntryView;

    open spec fn view(&self) -> EntryView {
        EntryView { path: self.path@, entry_type: self.entry_type }
    }
}

/// What the walk reports for one entry: the entry, or why it could not be
/// visited.
#[derive(Clone, Debug, PartialEq, Eq)]
pub enum WalkObservation {
    Found(Entry),
    Failed(String),
}

/// The mathematical value of a [`WalkObservation`].
pub enum ObservationView {
    Found(EntryView),
    Failed(Seq<char>),
}

impl View for WalkObservation {
    type V = ObservationView;

    open spec fn view(&self) -> ObservationView {
        match self {
            WalkObservation::Found(e) => ObservationView::Found(e@),
            WalkObservation::Failed(msg) => ObservationView::Failed(msg@),
        }
    }
}

} // verus!
