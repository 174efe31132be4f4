//! The validated search configuration.

use crate::entry::{type_of_flag, EntryType};
use crate::pattern::{pattern_is_valid, regex_source};
use regex::Regex;
use vstd::prelude::*;

verus! {

/// Where to search and what to print: root paths, name patterns and entry
/// types. It is built once, by [`get_args`], and never changes.
#[derive(Debug)]
pub struct Config {
    paths: Vec<String>,
    names: Vec<Regex>,
    entry_types: Vec<EntryType>,
}

/// The mathematical value of a [`Config`].
pub struct ConfigView {
    /// The root paths, in the order in which they are searched.
    pub paths: Seq<Seq<char>>,
    /// The compiled name patterns; none means that every name passes.
    pub names: Seq<Regex>,
    /// The requested entry types; none means that every entry passes.
    pub entry_types: Set<EntryType>,
}

impl View for Config {
    type V = ConfigView;

    closed spec fn view(&self) -> ConfigView {
        ConfigView {
            paths: self.paths.deep_view(),
            names: self.names@,
            entry_types: self.entry_types@.to_set(),
        }
    }
}

/// A name pattern that is no valid regular expression.
#[derive(Clone, Debug, PartialEq, Eq)]
pub struct InvalidName {
    /// The pattern as it was given.
    pub pattern: String,
}

/// The text of the message for an invalid name pattern.
pub open spec fn invalid_name_message(pattern: Seq<char>) -> Seq<char> {
    "Invalid --name \""@ + pattern + "\""@
}

impl InvalidName {
    /// The message that tells the user which pattern was refused.
    pub fn message(&self) -> (text: String)
        ensures
            text@ == invalid_name_message(self.pattern@),
    {
        let mut text = "Invalid --name \"".to_owned();
        text.append(self.pattern.as_str());
        text.append("\"");
        text
    }
}

/// Whether `k` is the position of the first pattern that does not compile.
pub open spec fn first_invalid(names: Seq<Seq<char>>, k: int) -> bool {
    &&& 0 <= k < names.len()
    &&& !pattern_is_valid(names[k])
    &&& forall|j: int| 0 <= j < k ==> pattern_is_valid(#[trigger] names[j])
}

/// Whether every pattern compiles.
pub open spec fn all_valid(names: Seq<Seq<char>>) -> bool {
    forall|i: int| 0 <= i < names.len() ==> pattern_is_valid(#[trigger] names[i])
}

/// Whether every flag stands for an entry type.
pub open spec fn all_type_flags(flags: Seq<Seq<char>>) -> bool {
    forall|i: int| 0 <= i < flags.len() ==> type_of_flag(#[trigger] flags[i]) is Some
}

/// The entry types that the flags ask for.
pub open spec fn requested_types(flags: Seq<Seq<char>>) -> Set<EntryType> {
    Set::new(
        |t: EntryType|
            exists|i: int| 0 <= i < flags.len() && type_of_flag(#[trigger] flags[i]) == Some(t),
    )
}

/// The roots to search: the paths given, or the current directory where none
/// is given.
pub open spec fn roots_or_default(paths: Seq<Seq<char>>) -> Seq<Seq<char>> {
    if paths.len() == 0 {
        seq![seq!['.']]
    } else {
        paths
    }
}

/// Type flags request no type exactly if there is no flag.
pub proof fn lemma_no_flags_request_nothing(flags: Seq<Seq<char>>)
    requires
        all_type_flags(flags),
    ensures
        requested_types(flags).is_empty() <==> flags.len() == 0,
{
    if flags.len() > 0 {
        let t = type_of_flag(flags[0])->0;
        assert(requested_types(flags).contains(t));
    }
}

impl Config {
    #[verifier::type_invariant]
    spec fn has_roots(self) -> bool {
        self.paths.len() > 0
    }

    /// The root paths, in the order in which they are searched; never empty.
    pub fn paths(&self) -> (paths: &Vec<String>)
        ensures
            paths.deep_view() == self@.paths,
            paths.len() > 0,
    {
        proof {
            use_type_invariant(self);
        }
        &self.paths
    }

    /// The compiled name patterns.
    pub fn names(&self) -> (names: &Vec<Regex>)
        ensures
            names@ == self@.names,
    {
        &self.names
    }

    /// The requested entry types; one that was asked for twice may stand
    /// here twice.
    pub fn entry_types(&self) -> (types: &Vec<EntryType>)
        ensures
            types@.to_set() == self@.entry_types,
    {
        &self.entry_types
    }
}

/// Builds the configuration from the values of the command line: the root
/// paths, the name patterns and the type flags (`f`, `d`, `l`).
///
/// Every pattern is compiled here, so that a pattern that is no regular
/// expression is found before any search begins: the first such pattern is
/// returned as the error. With no path given the current directory is
/// searched.
pub fn get_args(paths: Vec<String>, names: Vec<String>, entry_types: Vec<String>) -> (r: Result<
    Config,
    InvalidName,
>)
    requires
        all_type_flags(entry_types.deep_view()),
    ensures
        r is Ok <==> all_valid(names.deep_view()),
        r matches Ok(config) ==> {
            &&& config@.paths == roots_or_default(paths.deep_view())
            &&& config@.names.len() == names.len()
            &&& forall|i: int|
                0 <= i < names.len() ==> regex_source(#[trigger] config@.names[i]) == names[i]@
            &&& config@.entry_types == requested_types(entry_types.deep_view())
        },
        r matches Err(e) ==> exists|k: int|
            first_invalid(names.deep_view(), k) && e.pattern@ == #[trigger] names[k]@,
{
    let mut compiled: Vec<Regex> = Vec::new();
    let mut i: usize = 0;
    while i < names.len()
        invariant
            i <= names.len(),
            compiled.len() == i,
            forall|j: int| 0 <= j < i ==> pattern_is_valid(#[trigger] names.deep_view()[j]),
            forall|j: int| 0 <= j < i ==> regex_source(#[trigger] compiled[j]) == names[j]@,
        decreases names.len() - i,
    {
        match Regex::new(names[i].as_str()) {
            Ok(re) => {
                compiled.push(re);
            },
            Err(_) => {
                let pattern = names[i].clone();
                proof {
                    assert(first_invalid(names.deep_view(), i as int));
                }
                return Err(InvalidName { pattern });
            },
        }
        i += 1;
    }
    let mut kinds: Vec<EntryType> = Vec::new();
    let mut k: usize = 0;
    while k < entry_types.len()
        invariant
            k <= entry_types.len(),
            all_type_flags(entry_types.deep_view()),
            kinds.len() == k,
            forall|j: int|
                0 <= j < k ==> Some(#[trigger] kinds[j]) == type_of_flag(entry_types[j]@),
        decreases entry_types.len() - k,
    {
        let kind = EntryType::from_flag(entry_types[k].as_str());
        proof {
            assert(type_of_flag(entry_types.deep_view()[k as int]) is Some);
        }
        if let Some(t) = kind {
            kinds.push(t);
        }
        k += 1;
    }
    let roots = if paths.len() == 0 {
        let mut roots: Vec<String> = Vec::new();
        roots.push(".".to_owned());
        proof {
            reveal_strlit(".");
            assert(roots.deep_view() =~= seq![seq!['.']]) by {
                assert(roots.deep_view()[0] =~= seq!['.']);
            }
        }
        roots
    } else {
        paths
    };
    proof {
        assert(kinds@.to_set() =~= requested_types(entry_types.deep_view())) by {
            assert forall|t: EntryType|
                kinds@.to_set().contains(t) == requested_types(entry_types.deep_view()).contains(
                    t,
                ) by {
                if kinds@.contains(t) {
                    let j = choose|j: int| 0 <= j < kinds@.len() && kinds@[j] == t;
                    assert(type_of_flag(entry_types.deep_view()[j]) == Some(t));
                }
                if requested_types(entry_types.deep_view()).contains(t) {
                    let j = choose|j: int|
                        0 <= j < entry_types.deep_view().len() && type_of_flag(
                            #[trigger] entry_types.deep_view()[j],
                        ) == Some(t);
                    assert(kinds@[j] == t);
                }
            }
        }
    }
    Ok(Config { paths: roots, names: compiled, entry_types: kinds })
}

} // verus!
