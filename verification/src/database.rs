//! Where the database lies.

use crate::text::{same_text, split};
use vstd::prelude::*;

verus! {

/// `path` without the pairs of slashes that it begins with.
pub open spec fn without_slash_pairs(path: Seq<char>) -> Seq<char>
    decreases path.len(),
{
    if path.len() >= 2 && path[0] == '/' && path[1] == '/' {
        without_slash_pairs(path.skip(2))
    } else {
        path
    }
}

/// The path of the file that a database URL names, where it names one.
pub open spec fn file_of(url: Seq<char>) -> Option<Seq<char>> {
    if !"sqlite:"@.is_prefix_of(url) {
        None
    } else if url.skip(7) == ":memory:"@ {
        None
    } else {
        Some(without_slash_pairs(url.skip(7)))
    }
}

/// The path of the file that a database URL names. None has a file but those of SQLite, and of
/// those all but the one that stays in memory.
pub fn database_file(database_url: &str) -> (path: Option<String>)
    ensures
        path is Some <==> file_of(database_url@) is Some,
        path matches Some(file) ==> file_of(database_url@) == Some(file@),
{
    proof {
        reveal_strlit("sqlite:");
    }
    let length: usize = database_url.unicode_len();
    if length < 7 || !same_text(database_url.substring_char(0, 7), "sqlite:") {
        return None;
    }
    assert(database_url@.subrange(0, 7) =~= database_url@.take(7));
    let path: &str = database_url.substring_char(7, length);
    assert(path@ =~= database_url@.skip(7));
    if same_text(path, ":memory:") {
        return None;
    }
    let end: usize = path.unicode_len();
    let mut from: usize = 0;
    assert(path@.skip(0) =~= path@);
    while end - from >= 2 && path.get_char(from) == '/' && path.get_char(from + 1) == '/'
        invariant
            end == path@.len(),
            from <= end,
            without_slash_pairs(path@) == without_slash_pairs(path@.skip(from as int)),
        decreases end - from,
    {
        assert(path@.skip(from as int).skip(2) =~= path@.skip(from + 2));
        from += 2;
    }
    let file: &str = path.substring_char(from, end);
    assert(file@ =~= path@.skip(from as int));
    Some(file.to_owned())
}

/// Whether every platform divides the path in the same way: at its slashes. A `\`, a `:` or a pair
/// of slashes at the start means something to some platforms only.
pub open spec fn is_portable_path(path: Seq<char>) -> bool {
    &&& !path.contains('\\') && !path.contains(':')
    &&& !(path.len() >= 2 && path[0] == '/' && path[1] == '/')
}

/// Whether a part of a path counts that is not its first: an empty one and `.` do not.
pub open spec fn is_component(part: Seq<char>) -> bool {
    part.len() > 0 && part != "."@
}

/// The components of a portable path: the root or the first part, and of the other parts those that
/// count.
pub open spec fn components(path: Seq<char>) -> Seq<Seq<char>> {
    let parts = split(path, '/');
    let first = if path.len() == 0 {
        Seq::empty()
    } else if path[0] == '/' {
        seq!["/"@]
    } else {
        seq![parts[0]]
    };
    first + parts.drop_first().filter(|part: Seq<char>| is_component(part))
}

/// Whether a portable path has a component beside the root.
pub open spec fn has_parent(path: Seq<char>) -> bool {
    components(path).len() > 0 && components(path) != seq!["/"@]
}

/// Whether each part of a path counts, so that its components leave nothing of it out.
pub open spec fn is_plain_path(path: Seq<char>) -> bool {
    let parts = split(path, '/');
    &&& path.len() > 0
    &&& is_portable_path(path)
    &&& forall|i: int| 0 < i < parts.len() ==> is_component(#[trigger] parts[i])
}

/// A plain path without its last part and the slash before that. The slash stays where it is the
/// root.
pub open spec fn plain_parent(path: Seq<char>) -> Seq<char> {
    let parts = split(path, '/');
    if parts.len() == 1 {
        Seq::empty()
    } else if parts.len() == 2 && parts[0].len() == 0 {
        "/"@
    } else {
        path.take(path.len() - parts.last().len() - 1)
    }
}

/// Calls `std::path::Path::parent`. Claims that the parent of a portable path has the components of
/// the path but for the last, and that there is none exactly where the path has no component or the
/// root alone; that the parent of a plain path is written as what comes before its last part; and
/// that the parent of any path, where there is one, is written as a part that the path begins with,
/// short of the whole. Where the parent of a path ends that is not portable is left unsaid: it
/// depends on what the platform takes for a separator. So is with how many slashes and `.` at its
/// end the parent of a path is written that is not plain.
#[verifier::external_body]
fn parent_of(path: &str) -> (parent: Option<String>)
    ensures
        parent matches Some(part) ==> part@.len() < path@.len() && part@.is_prefix_of(path@),
        is_portable_path(path@) ==> parent.is_some() == has_parent(path@),
        is_portable_path(path@) && parent is Some ==> components(parent->0@)
            == components(path@).drop_last(),
        is_plain_path(path@) ==> parent is Some && parent->0@ == plain_parent(path@),
{
    match std::path::Path::new(path).parent() {
        Some(parent) => parent.to_str().map(|part| part.to_owned()),
        None => None,
    }
}

/// The directory to make, given the parent of the database's file: none where the file lies in the
/// working directory, or in none.
pub fn directory_to_make(parent: Option<String>) -> (directory: Option<String>)
    ensures
        directory == match parent {
            Some(part) => if part@.len() > 0 {
                parent
            } else {
                None
            },
            None => None,
        },
{
    match parent {
        Some(part) => if part.as_str().is_empty() {
            None
        } else {
            Some(part)
        },
        None => None,
    }
}

/// Without the pairs of slashes that it begins with, a path begins with none.
proof fn lemma_without_slash_pairs(path: Seq<char>)
    ensures
        ({
            let rest = without_slash_pairs(path);
            !(rest.len() >= 2 && rest[0] == '/' && rest[1] == '/')
        }),
    decreases path.len(),
{
    if path.len() >= 2 && path[0] == '/' && path[1] == '/' {
        lemma_without_slash_pairs(path.skip(2));
    }
}

/// Only the empty path has no components.
proof fn lemma_components(path: Seq<char>)
    ensures
        components(path).len() == 0 <==> path.len() == 0,
{
    let rest = split(path, '/').drop_first();
    if path.len() == 0 {
        assert(rest.len() == 0);
        reveal(Seq::filter);
        assert(rest.filter(|part: Seq<char>| is_component(part)).len() == 0);
    }
}

/// The directory that has to be there before the database of this URL can be opened: the parent of
/// its file, where it has one that is not the working directory.
pub fn database_directory(database_url: &str) -> (directory: Option<String>)
    ensures
        file_of(database_url@) is None ==> directory is None,
        file_of(database_url@) matches Some(file) ==> !file.contains('\\') && !file.contains(':')
            ==> {
            &&& directory is Some <==> components(file).len() >= 2
            &&& directory matches Some(path) ==> components(path@) == components(file).drop_last()
            &&& directory matches Some(path) ==> is_plain_path(file) ==> path@ == plain_parent(file)
        },
        directory matches Some(path) ==> {
            &&& 0 < path@.len() < file_of(database_url@)->0.len()
            &&& path@.is_prefix_of(file_of(database_url@)->0)
        },
{
    match database_file(database_url) {
        Some(file) => {
            proof {
                lemma_without_slash_pairs(database_url@.skip(7));
            }
            let parent: Option<String> = parent_of(file.as_str());
            proof {
                lemma_components(parent->0@);
            }
            directory_to_make(parent)
        },
        None => None,
    }
}

} // verus!
