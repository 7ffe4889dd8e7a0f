use vstd::prelude::*;

use crate::syntect_api::ascii_lower;

verus! {

/// What `std::path::Path::file_name` returns for the path written as `path`, by the path
/// rules of the platform the library is built for: its final component, when it has one
/// (none when the path ends in `..`).
pub uninterp spec fn path_file_name(path: Seq<char>) -> Option<Seq<char>>;

/// What `std::path::Path::parent` returns for the path written as `path`, by the path
/// rules of the platform the library is built for: the path without its final component,
/// when it has one.
pub uninterp spec fn path_parent(path: Seq<char>) -> Option<Seq<char>>;

/// What `str::to_lowercase` returns: the Unicode lowercase form of `s`.
pub uninterp spec fn str_to_lowercase(s: Seq<char>) -> Seq<char>;

/// The part of `path` after its last `/` (the whole path when it has none).
pub open spec fn after_last_slash(path: Seq<char>) -> Seq<char>
    decreases path.len(),
{
    if path.len() == 0 {
        Seq::empty()
    } else if path.last() == '/' {
        Seq::empty()
    } else {
        after_last_slash(path.drop_last()).push(path.last())
    }
}

/// The part after the last `/` holds no `/`, ends the path, and, when the path holds a
/// `/`, comes right after one.
pub proof fn lemma_after_last_slash(path: Seq<char>)
    ensures
        ({
            let name = after_last_slash(path);
            &&& name.len() <= path.len()
            &&& path.subrange(path.len() - name.len(), path.len() as int) == name
            &&& forall|i: int| 0 <= i < name.len() ==> name[i] != '/'
            &&& (exists|i: int| 0 <= i < path.len() && path[i] == '/') ==> name.len() < path.len()
                && path[path.len() - name.len() - 1] == '/'
        }),
    decreases path.len(),
{
    if path.len() > 0 && path.last() != '/' {
        let rest = path.drop_last();
        lemma_after_last_slash(rest);
        let name = after_last_slash(path);
        let rname = after_last_slash(rest);
        assert(name == rname.push(path.last()));
        assert(path.subrange(path.len() - name.len(), path.len() as int) =~= name) by {
            assert forall|k: int| 0 <= k < name.len() implies path.subrange(
                path.len() - name.len(),
                path.len() as int,
            )[k] == name[k] by {
                if k < rname.len() {
                    assert(rest.subrange(rest.len() - rname.len(), rest.len() as int)[k] == rname[k]);
                }
            }
        }
        if exists|i: int| 0 <= i < path.len() && path[i] == '/' {
            let i = choose|i: int| 0 <= i < path.len() && path[i] == '/';
            assert(i < rest.len());
            assert(rest[i] == '/');
        }
    }
}

/// A path whose final component every platform reads the same way: it holds no `\`,
/// does not begin with `//`, and its part after the last `/` is a plain name (not empty,
/// without `:`, and neither `.` nor `..`).
pub open spec fn ends_in_plain_name(path: Seq<char>) -> bool {
    let name = after_last_slash(path);
    &&& forall|i: int| 0 <= i < path.len() ==> path[i] != '\\'
    &&& !(path.len() >= 2 && path[0] == '/' && path[1] == '/')
    &&& name.len() > 0
    &&& forall|i: int| 0 <= i < name.len() ==> name[i] != ':'
    &&& name != "."@
    &&& name != ".."@
}

/// Whether every character of `s` is ASCII.
pub open spec fn is_ascii_text(s: Seq<char>) -> bool {
    forall|i: int| 0 <= i < s.len() ==> (s[i] as u32) < 128
}

/// `s` with its ASCII upper-case letters made lower case.
pub open spec fn ascii_lowercase(s: Seq<char>) -> Seq<char> {
    s.map_values(|c: char| ascii_lower(c))
}

/// A path without `/` is its own last component.
pub proof fn lemma_after_last_slash_of_name(s: Seq<char>)
    requires
        forall|i: int| 0 <= i < s.len() ==> s[i] != '/',
    ensures
        after_last_slash(s) == s,
    decreases s.len(),
{
    if s.len() > 0 {
        lemma_after_last_slash_of_name(s.drop_last());
        assert(s.drop_last().push(s.last()) =~= s);
    }
}

/// Position of the last `.` in `name`.
pub open spec fn last_dot(name: Seq<char>) -> int {
    choose|i: int| 0 <= i < name.len() && name[i] == '.' && forall|j: int| i < j < name.len() ==> name[j] != '.'
}

/// Whether `name` has a `.` that does not merely start a hidden file name, as
/// `std::path::Path::extension` and `file_stem` document: the name holds a `.`, and it
/// does not begin with its only `.`.
pub open spec fn has_embedded_dot(name: Seq<char>) -> bool {
    &&& exists|i: int| 0 <= i < name.len() && name[i] == '.'
    &&& !(name[0] == '.' && forall|i: int| 1 <= i < name.len() ==> name[i] != '.')
}

/// The extension of a file name, as `std::path::Path::extension` documents it: none if the
/// name has no embedded `.`, or begins with `.` and has no other; otherwise the part after
/// the final `.`.
pub open spec fn extension_of_name(name: Seq<char>) -> Option<Seq<char>> {
    if has_embedded_dot(name) {
        Some(name.skip(last_dot(name) + 1))
    } else {
        None
    }
}

/// The stem of a file name, as `std::path::Path::file_stem` documents it: the whole name if
/// it has no embedded `.`, or begins with `.` and has no other; otherwise the part before
/// the final `.`.
pub open spec fn stem_of_name(name: Seq<char>) -> Seq<char> {
    if has_embedded_dot(name) {
        name.take(last_dot(name))
    } else {
        name
    }
}

/// `std::path::Path::file_name` on the path written as `path`, turned into text: the final
/// component, which for a path ending in a plain name is the part after its last `/`.
#[verifier::external_body]
pub(crate) fn file_name_of(path: &str) -> (r: Option<String>)
    ensures
        match r {
            Some(n) => path_file_name(path@) == Some(n@),
            None => path_file_name(path@) is None,
        },
        ends_in_plain_name(path@) ==> r is Some && r->0@ == after_last_slash(path@),
{
    match std::path::Path::new(path).file_name() {
        Some(n) => Some(n.to_string_lossy().into_owned()),
        None => None,
    }
}

/// `std::path::Path::parent` on the path written as `path`, turned into text.
#[verifier::external_body]
pub(crate) fn parent_of(path: &str) -> (r: Option<String>)
    ensures
        match r {
            Some(p) => path_parent(path@) == Some(p@),
            None => path_parent(path@) is None,
        },
{
    match std::path::Path::new(path).parent() {
        Some(p) => Some(p.to_string_lossy().into_owned()),
        None => None,
    }
}

/// `std::path::Path::extension` on the path written as `path`: by its documentation, the
/// extension of the path's file name.
#[verifier::external_body]
pub(crate) fn extension_of(path: &str) -> (r: Option<String>)
    ensures
        match r {
            Some(e) => match path_file_name(path@) {
                Some(n) => extension_of_name(n) == Some(e@),
                None => false,
            },
            None => match path_file_name(path@) {
                Some(n) => extension_of_name(n) is None,
                None => true,
            },
        },
{
    match std::path::Path::new(path).extension() {
        Some(e) => Some(e.to_string_lossy().into_owned()),
        None => None,
    }
}

/// `std::path::Path::file_stem` on the path written as `path`: by its documentation, the
/// stem of the path's file name.
#[verifier::external_body]
pub(crate) fn file_stem_of(path: &str) -> (r: Option<String>)
    ensures
        match r {
            Some(s) => match path_file_name(path@) {
                Some(n) => stem_of_name(n) == s@,
                None => false,
            },
            None => path_file_name(path@) is None,
        },
{
    match std::path::Path::new(path).file_stem() {
        Some(s) => Some(s.to_string_lossy().into_owned()),
        None => None,
    }
}

/// `str::to_lowercase`. It lower-cases character by character, and a character with no
/// lower-case mapping (as `/`) is kept (`char::to_lowercase`), so a `/` of `s` stays; on
/// ASCII text the Unicode lower case is the ASCII one (`A`-`Z` to `a`-`z`).
#[verifier::external_body]
pub(crate) fn to_lowercase(s: &str) -> (r: String)
    ensures
        r@ == str_to_lowercase(s@),
        (exists|i: int| 0 <= i < s@.len() && s@[i] == '/') ==> exists|j: int|
            0 <= j < r@.len() && r@[j] == '/',
        is_ascii_text(s@) ==> r@ == ascii_lowercase(s@),
{
    s.to_lowercase()
}

} // verus!
