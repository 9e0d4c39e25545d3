//! The path filter: a compiled gitignore-style matcher, consulted through a
//! trusted wrapper. The patterns themselves are compiled outside the library.
use vstd::prelude::*;

verus! {

#[verifier::external_type_specification]
#[verifier::external_body]
pub struct ExGitignore(ignore::gitignore::Gitignore);

/// A path in the plain root-relative form a repository diff yields: no
/// leading slash, no leading `./`, no empty segment (`//`). `Gitignore`'s
/// matching strips a leading `./`, the matcher's own root and one slash from
/// the path before testing it, and aborts when what is left is absolute; a
/// path of this shape strips to a relative remainder whatever the root.
pub open spec fn relative_path(s: Seq<char>) -> bool {
    &&& (s.len() > 0 ==> s[0] != '/')
    &&& !(s.len() >= 2 && s[0] == '.' && s[1] == '/')
    &&& forall|i: int| #![trigger s[i]] 0 < i < s.len() ==> !(s[i - 1] == '/' && s[i] == '/')
}

/// The set of paths the compiled ignore patterns shut out, directly or
/// through a parent directory: what the pattern collection holds, seen as the
/// exclusion predicate it defines.
pub uninterp spec fn excluded_set(g: ignore::gitignore::Gitignore) -> Set<Seq<char>>;

/// Whether the filter excludes a path.
/// Relies on ignore's `Gitignore::matched_path_or_any_parents`: whether the
/// path or any of its parent directories matches an ignore glob, a function
/// of the compiled patterns and the path alone. The method aborts when the
/// path, stripped of a leading `./`, of the matcher's root and of one slash,
/// is still absolute; `requires` admits only paths whose stripped form stays
/// relative, whatever the matcher's root.
#[verifier::external_body]
pub fn path_is_excluded(filter: &ignore::gitignore::Gitignore, path: &str) -> (r: bool)
    requires
        relative_path(path@),
    ensures
        r == excluded_set(*filter).contains(path@),
{
    filter.matched_path_or_any_parents(std::path::Path::new(path), false).is_ignore()
}

} // verus!
