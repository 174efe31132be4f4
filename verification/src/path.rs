//! The base name of a path.
//!
//! Paths are sequences of characters with `/` between their components. The
//! base name is the last component that names something: separators at the
//! end are skipped, and so is a `.` component at the end (`a/b/.` names `b`).
//! A path that ends in `..`, or has no component at all (`/`, `.`, the empty
//! path), has no base name of its own; there the whole path stands in for it.

use vstd::prelude::*;

verus! {

/// The character between the components of a path.
pub open spec fn is_separator(c: char) -> bool {
    c == '/'
}

/// Where the last component of `path` ends: the length of what is left when
/// the separators and the `.` components at the end are cut off.
pub open spec fn component_end(path: Seq<char>) -> int
    decreases path.len(),
{
    if path.len() == 0 {
        0
    } else if is_separator(path.last()) {
        component_end(path.drop_last())
    } else if path.len() >= 2 && path.last() == '.' && is_separator(path[path.len() - 2]) {
        component_end(path.drop_last())
    } else {
        path.len() as int
    }
}

/// Where the component that ends before index `end` starts: behind the last
/// separator before `end`, or at 0 where there is none.
pub open spec fn component_start(path: Seq<char>, end: int) -> int
    decreases end,
{
    if end <= 0 {
        0
    } else if is_separator(path[end - 1]) {
        end
    } else {
        component_start(path, end - 1)
    }
}

/// The last component of `path`; empty where the path has none.
pub open spec fn last_component(path: Seq<char>) -> Seq<char> {
    let end = component_end(path);
    path.subrange(component_start(path, end), end)
}

/// Whether a component is `.` or `..`, which name no entry of their own.
pub open spec fn is_dots(name: Seq<char>) -> bool {
    ||| name.len() == 1 && name[0] == '.'
    ||| name.len() == 2 && name[0] == '.' && name[1] == '.'
}

/// Whether `name` can be the name of an entry in a directory: not empty,
/// without a separator, and neither `.` nor `..`.
pub open spec fn is_plain_name(name: Seq<char>) -> bool {
    &&& name.len() > 0
    &&& !is_dots(name)
    &&& forall|i: int| 0 <= i < name.len() ==> !is_separator(#[trigger] name[i])
}

/// The name that the name patterns are matched against: the last component of
/// `path`, or the whole path where that component is missing, `.` or `..`.
pub open spec fn base_name_of(path: Seq<char>) -> Seq<char> {
    let name = last_component(path);
    if name.len() == 0 || is_dots(name) {
        path
    } else {
        name
    }
}

/// The characters of a string, one by one.
fn to_chars(s: &str) -> (v: Vec<char>)
    ensures
        v@ == s@,
{
    let mut v: Vec<char> = Vec::new();
    for c in it: s.chars()
        invariant
            v@ == it.seq().take(it.index() as int),
            it.seq() == s@,
    {
        v.push(c);
    }
    v
}

/// The end of the last component is a position in the path.
proof fn lemma_component_end_bounds(path: Seq<char>)
    ensures
        0 <= component_end(path) <= path.len(),
    decreases path.len(),
{
    if path.len() > 0 {
        lemma_component_end_bounds(path.drop_last());
    }
}

/// A component starts at a position before its end, behind a separator or at
/// the start of the path, and holds no separator.
proof fn lemma_component_start(path: Seq<char>, end: int)
    requires
        0 <= end <= path.len(),
    ensures
        0 <= component_start(path, end) <= end,
        component_start(path, end) > 0 ==> is_separator(path[component_start(path, end) - 1]),
        forall|i: int| component_start(path, end) <= i < end ==> !is_separator(#[trigger] path[i]),
    decreases end,
{
    if end > 0 && !is_separator(path[end - 1]) {
        lemma_component_start(path, end - 1);
    }
}

/// A component without separators that follows a separator, or begins the
/// path, starts right there.
proof fn lemma_component_start_at(path: Seq<char>, start: int, end: int)
    requires
        0 <= start <= end <= path.len(),
        start > 0 ==> is_separator(path[start - 1]),
        forall|i: int| start <= i < end ==> !is_separator(#[trigger] path[i]),
    ensures
        component_start(path, end) == start,
    decreases end - start,
{
    if start < end {
        lemma_component_start_at(path, start, end - 1);
    }
}

/// The base name of a path, as an owned string.
pub fn base_name(path: &str) -> (name: String)
    ensures
        name@ == base_name_of(path@),
{
    let chars = to_chars(path);
    let n = chars.len();
    let mut end = n;
    assert(chars@.take(end as int) =~= chars@);
    while end > 0 && (chars[end - 1] == '/'
        || (end >= 2 && chars[end - 1] == '.' && chars[end - 2] == '/'))
        invariant
            end <= n,
            n == chars.len(),
            component_end(chars@.take(end as int)) == component_end(chars@),
        decreases end,
    {
        proof {
            assert(chars@.take(end as int).drop_last() =~= chars@.take(end as int - 1));
        }
        end -= 1;
    }
    assert(component_end(chars@.take(end as int)) == end);
    let mut start = end;
    while start > 0 && chars[start - 1] != '/'
        invariant
            start <= end <= n,
            n == chars.len(),
            component_start(chars@, end as int) == component_start(chars@, start as int),
        decreases start,
    {
        start -= 1;
    }
    let len = end - start;
    let missing = len == 0;
    let dot = len == 1 && chars[start] == '.';
    let dot_dot = len == 2 && chars[start] == '.' && chars[start + 1] == '.';
    if missing || dot || dot_dot {
        path.to_owned()
    } else {
        path.substring_char(start, end).to_owned()
    }
}

/// An entry that a walk finds in a directory has the path of the directory, a
/// separator and the entry's own name: that name is its base name.
pub proof fn lemma_base_name_of_child(parent: Seq<char>, name: Seq<char>)
    requires
        is_plain_name(name),
    ensures
        base_name_of(parent + seq!['/'] + name) == name,
{
    let path = parent + seq!['/'] + name;
    let n = path.len() as int;
    let cut = n - name.len();
    assert(component_end(path) == n);
    lemma_component_start_at(path, cut, n);
}

/// A path that is a plain name, without any directory before it, is its own
/// base name.
pub proof fn lemma_base_name_of_plain_name(name: Seq<char>)
    requires
        is_plain_name(name),
    ensures
        base_name_of(name) == name,
{
    let n = name.len() as int;
    assert(component_end(name) == n);
    lemma_component_start_at(name, 0, n);
}

/// The base name holds no separator, unless the whole path stands in for it.
pub proof fn lemma_base_name_is_component(path: Seq<char>)
    ensures
        base_name_of(path) == path || is_plain_name(base_name_of(path)),
{
    lemma_component_end_bounds(path);
    let end = component_end(path);
    lemma_component_start(path, end);
}

} // verus!
