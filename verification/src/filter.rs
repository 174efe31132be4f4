//! The two predicates that decide whether an entry is printed.
//!
//! An entry is printed when its type passes the type filter and its base name
//! passes the name filter. A filter without constraints lets everything pass.

use crate::config::{Config, ConfigView};
use crate::entry::{Entry, EntryType, EntryView};
use crate::path::{base_name, base_name_of};
use crate::pattern::regex_matches;
use regex::Regex;
use vstd::prelude::*;

verus! {

/// The type filter: no type is requested, or the entry's type is one of those
/// requested.
pub open spec fn type_passes(types: Set<EntryType>, kind: Option<EntryType>) -> bool {
    types.is_empty() || (kind matches Some(t) && types.contains(t))
}

/// The name filter: no pattern is given, or at least one pattern matches
/// somewhere in the name.
pub open spec fn name_passes(names: Seq<Regex>, name: Seq<char>) -> bool {
    names.len() == 0 || exists|i: int|
        0 <= i < names.len() && regex_matches(#[trigger] names[i], name)
}

impl ConfigView {
    /// Whether an entry is printed under this configuration: both filters
    /// pass, the name filter on the entry's base name.
    pub open spec fn selects(self, entry: EntryView) -> bool {
        &&& type_passes(self.entry_types, entry.entry_type)
        &&& name_passes(self.names, base_name_of(entry.path))
    }
}

impl Config {
    /// Whether an entry of this kind passes the type filter.
    pub fn type_passes(&self, kind: Option<EntryType>) -> (b: bool)
        ensures
            b == type_passes(self@.entry_types, kind),
    {
        let types = self.entry_types();
        if types.len() == 0 {
            return true;
        }
        assert(!self@.entry_types.is_empty()) by {
            assert(types@.to_set().contains(types@[0]));
        }
        match kind {
            None => false,
            Some(t) => {
                let mut i: usize = 0;
                while i < types.len()
                    invariant
                        i <= types.len(),
                        kind == Some(t),
                        types@.to_set() == self@.entry_types,
                        !self@.entry_types.is_empty(),
                        forall|j: int| 0 <= j < i ==> types[j] != t,
                    decreases types.len() - i,
                {
                    if types[i] == t {
                        return true;
                    }
                    i += 1;
                }
                false
            },
        }
    }

    /// Whether a base name passes the name filter.
    pub fn name_passes(&self, name: &str) -> (b: bool)
        ensures
            b == name_passes(self@.names, name@),
    {
        let names = self.names();
        if names.len() == 0 {
            return true;
        }
        let mut i: usize = 0;
        while i < names.len()
            invariant
                i <= names.len(),
                names@ == self@.names,
                forall|j: int| 0 <= j < i ==> !regex_matches(#[trigger] names[j], name@),
            decreases names.len() - i,
        {
            if names[i].is_match(name) {
                return true;
            }
            i += 1;
        }
        false
    }

    /// Whether an entry is printed: its type passes the type filter and its
    /// base name passes the name filter.
    pub fn selects(&self, entry: &Entry) -> (b: bool)
        ensures
            b == self@.selects(entry@),
    {
        if !self.type_passes(entry.entry_type) {
            return false;
        }
        let name = base_name(entry.path.as_str());
        self.name_passes(name.as_str())
    }
}

} // verus!
