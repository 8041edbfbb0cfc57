//! Slash-separated paths held as text.
//!
//! A path is a sequence of characters in which `/` separates components.
//! Nothing is looked up on disk: joining and taking the parent are purely
//! textual, and `.` and `..` are components like any other.

use vstd::prelude::*;
use vstd::string::*;

verus! {

/// The character that separates the components of a path.
pub const SEPARATOR: char = '/';

/// A path is absolute when it begins with a separator.
pub open spec fn spec_is_absolute(path: Seq<char>) -> bool {
    path.len() > 0 && path[0] == SEPARATOR
}

/// Whether `component` is a single name: not empty, and without separator.
pub open spec fn spec_is_name(component: Seq<char>) -> bool {
    component.len() > 0 && forall|i: int|
        0 <= i < component.len() ==> #[trigger] component[i] != SEPARATOR
}

/// `component` adjoined to `base`.
///
/// An absolute component replaces the base. Otherwise the component follows
/// the base, after one separator unless the base is empty or already ends in
/// one.
pub open spec fn spec_join(base: Seq<char>, component: Seq<char>) -> Seq<char> {
    if spec_is_absolute(component) {
        component
    } else if base.len() == 0 || base.last() == SEPARATOR {
        base + component
    } else {
        base + seq![SEPARATOR] + component
    }
}

/// `path` without the separators at its end.
pub open spec fn spec_trim(path: Seq<char>) -> Seq<char>
    decreases path.len(),
{
    if path.len() > 0 && path.last() == SEPARATOR {
        spec_trim(path.drop_last())
    } else {
        path
    }
}

/// Where the final component of `path` begins: just after the last
/// separator, or at 0 when there is none.
pub open spec fn spec_name_start(path: Seq<char>) -> nat
    decreases path.len(),
{
    if path.len() == 0 || path.last() == SEPARATOR {
        path.len()
    } else {
        spec_name_start(path.drop_last())
    }
}

/// The directory that `path` names: `path` without the separators at its
/// end, or the root where nothing else is left of a path that is not empty.
pub open spec fn spec_directory(path: Seq<char>) -> Seq<char> {
    if path.len() > 0 && spec_trim(path).len() == 0 {
        seq![SEPARATOR]
    } else {
        spec_trim(path)
    }
}

/// The directory that holds the final component of `path`, if `path` has a
/// component at all.
///
/// Separators at the end of `path` are ignored. A path without components
/// (the empty path, or separators only) has no parent. A single relative
/// component has the empty path as parent, and a component directly under
/// the root has `/`.
pub open spec fn spec_parent(path: Seq<char>) -> Option<Seq<char>> {
    let body = spec_trim(path);
    if body.len() == 0 {
        None
    } else {
        Some(spec_directory(body.take(spec_name_start(body) as int)))
    }
}

/// The characters of `text`, in order.
pub fn characters(text: &str) -> (chars: Vec<char>)
    ensures
        chars@ == text@,
{
    let mut chars: Vec<char> = Vec::new();
    for c in it: text.chars()
        invariant
            chars@ == it.seq().take(it.index() as int),
            it.seq() == text@,
    {
        chars.push(c);
    }
    chars
}

/// Adjoins `component` to `base`.
pub fn join(base: &str, component: &str) -> (path: String)
    ensures
        path@ == spec_join(base@, component@),
{
    let component_len = component.unicode_len();
    if component_len > 0 && component.get_char(0) == SEPARATOR {
        return String::from_str(component);
    }
    let base_len = base.unicode_len();
    let mut path = String::from_str(base);
    if base_len > 0 && base.get_char(base_len - 1) != SEPARATOR {
        proof {
            reveal_strlit("/");
            assert("/"@ =~= seq![SEPARATOR]);
        }
        path.append("/");
    }
    path.append(component);
    path
}

/// Number of leading characters of `chars[..end]` that remain once the
/// separators at its end are dropped.
fn trimmed_len(chars: &Vec<char>, end: usize) -> (len: usize)
    requires
        end <= chars.len(),
    ensures
        len <= end,
        chars@.take(len as int) == spec_trim(chars@.take(end as int)),
{
    let mut len = end;
    while len > 0 && chars[len - 1] == SEPARATOR
        invariant
            len <= end <= chars.len(),
            spec_trim(chars@.take(len as int)) == spec_trim(chars@.take(end as int)),
        decreases len,
    {
        assert(chars@.take(len as int).drop_last() =~= chars@.take(len - 1));
        len -= 1;
    }
    len
}

/// Index in `chars[..end]` at which its final component begins.
fn name_start(chars: &Vec<char>, end: usize) -> (start: usize)
    requires
        end <= chars.len(),
    ensures
        start <= end,
        start == spec_name_start(chars@.take(end as int)),
{
    let mut start = end;
    while start > 0 && chars[start - 1] != SEPARATOR
        invariant
            start <= end <= chars.len(),
            spec_name_start(chars@.take(start as int)) == spec_name_start(chars@.take(end as int)),
        decreases start,
    {
        assert(chars@.take(start as int).drop_last() =~= chars@.take(start - 1));
        start -= 1;
    }
    start
}

/// The directory that holds the final component of `path`, or `None` when
/// `path` has no component.
pub fn parent(path: &str) -> (directory: Option<String>)
    ensures
        directory.deep_view() == spec_parent(path@),
{
    let chars = characters(path);
    assert(chars@.take(chars.len() as int) =~= path@);
    let end = trimmed_len(&chars, chars.len());
    if end == 0 {
        return None;
    }
    let start = name_start(&chars, end);
    assert(chars@.take(end as int).take(start as int) =~= chars@.take(start as int));
    let cut = trimmed_len(&chars, start);
    if start > 0 && cut == 0 {
        proof {
            reveal_strlit("/");
            assert("/"@ =~= seq![SEPARATOR]);
        }
        Some(String::from_str("/"))
    } else {
        assert(path@.subrange(0, cut as int) =~= chars@.take(cut as int));
        Some(String::from_str(path.substring_char(0, cut)))
    }
}

/// A path made by adjoining a component that does not end in a separator
/// ends as that component does, and so has a parent.
pub proof fn lemma_join_has_parent(base: Seq<char>, component: Seq<char>)
    requires
        component.len() > 0,
        component.last() != SEPARATOR,
    ensures
        spec_join(base, component).len() > 0,
        spec_join(base, component).last() == component.last(),
        spec_parent(spec_join(base, component)) is Some,
{
}

/// The final component begins where a name without separator was appended
/// after a separator, or to nothing.
proof fn lemma_name_starts_after_separator(head: Seq<char>, name: Seq<char>)
    requires
        head.len() == 0 || head.last() == SEPARATOR,
        forall|i: int| 0 <= i < name.len() ==> #[trigger] name[i] != SEPARATOR,
    ensures
        spec_name_start(head + name) == head.len(),
    decreases name.len(),
{
    if name.len() == 0 {
        assert(head + name =~= head);
    } else {
        assert((head + name).last() == name[name.len() - 1]);
        assert((head + name).drop_last() =~= head + name.drop_last());
        lemma_name_starts_after_separator(head, name.drop_last());
    }
}

/// Taking the parent undoes adjoining a name: the parent of a base with a
/// name adjoined is the directory that the base names.
pub proof fn lemma_parent_of_join(base: Seq<char>, name: Seq<char>)
    requires
        spec_is_name(name),
    ensures
        spec_parent(spec_join(base, name)) == Some(spec_directory(base)),
{
    let path = spec_join(base, name);
    let head = if base.len() == 0 || base.last() == SEPARATOR {
        base
    } else {
        base + seq![SEPARATOR]
    };
    assert(name[0] != SEPARATOR);
    assert(path =~= head + name);
    assert(path.last() == name[name.len() - 1]);
    lemma_name_starts_after_separator(head, name);
    assert(path.take(head.len() as int) =~= head);
    if !(base.len() == 0 || base.last() == SEPARATOR) {
        assert(head.drop_last() =~= base);
    }
}

/// Adjoining two relative components to the same base gives the same path
/// only if the components are the same.
pub proof fn lemma_join_tells_components_apart(
    base: Seq<char>,
    first: Seq<char>,
    second: Seq<char>,
)
    requires
        !spec_is_absolute(first),
        !spec_is_absolute(second),
        spec_join(base, first) == spec_join(base, second),
    ensures
        first == second,
{
    let prefix = if base.len() == 0 || base.last() == SEPARATOR {
        base
    } else {
        base + seq![SEPARATOR]
    };
    assert(spec_join(base, first) =~= prefix + first);
    assert(spec_join(base, second) =~= prefix + second);
    assert((prefix + first).len() == (prefix + second).len());
    assert forall|i: int| 0 <= i < first.len() implies first[i] == second[i] by {
        assert(first[i] == (prefix + first)[prefix.len() + i]);
        assert(second[i] == (prefix + second)[prefix.len() + i]);
    }
    assert(first =~= second);
}

} // verus!
