//! The path classifier: turns one slash-delimited path into the pair of its
//! lower-cased parent-directory name (the folder key) and the base identifier
//! of its final segment (the component id), or finds the path unclassifiable.
use crate::strings::{lower, lower_exec};
use vstd::prelude::*;

verus! {

/// Index of the last slash in `s`, or -1 when `s` holds none.
pub open spec fn last_slash(s: Seq<char>) -> int
    decreases s.len(),
{
    if s.len() == 0 {
        -1
    } else if s[s.len() - 1] == '/' {
        s.len() - 1
    } else {
        last_slash(s.drop_last())
    }
}

/// Index of the first dot in `s`, or `s.len()` when `s` holds none.
pub open spec fn first_dot(s: Seq<char>) -> int
    decreases s.len(),
{
    if s.len() == 0 {
        0
    } else if s[0] == '.' {
        0
    } else {
        1 + first_dot(s.drop_first())
    }
}

pub proof fn lemma_last_slash(s: Seq<char>)
    ensures
        -1 <= last_slash(s) < s.len(),
        last_slash(s) >= 0 ==> s[last_slash(s)] == '/',
        forall|j: int| last_slash(s) < j < s.len() ==> s[j] != '/',
    decreases s.len(),
{
    if s.len() > 0 && s[s.len() - 1] != '/' {
        lemma_last_slash(s.drop_last());
        assert forall|j: int| last_slash(s) < j < s.len() implies s[j] != '/' by {
            if j < s.len() - 1 {
                assert(s.drop_last()[j] == s[j]);
            }
        }
    }
}

/// `last_slash` is the one index that carries a slash with none after it.
pub proof fn lemma_last_slash_is(s: Seq<char>, k: int)
    requires
        0 <= k < s.len(),
        s[k] == '/',
        forall|j: int| k < j < s.len() ==> s[j] != '/',
    ensures
        last_slash(s) == k,
    decreases s.len(),
{
    if s[s.len() - 1] != '/' {
        assert(forall|j: int| k < j < s.len() - 1 ==> s.drop_last()[j] == s[j]);
        lemma_last_slash_is(s.drop_last(), k);
    }
}

pub proof fn lemma_first_dot(s: Seq<char>)
    ensures
        0 <= first_dot(s) <= s.len(),
        first_dot(s) < s.len() ==> s[first_dot(s)] == '.',
        forall|j: int| 0 <= j < first_dot(s) ==> s[j] != '.',
    decreases s.len(),
{
    if s.len() > 0 && s[0] != '.' {
        lemma_first_dot(s.drop_first());
        assert forall|j: int| 0 <= j < first_dot(s) implies s[j] != '.' by {
            if j > 0 {
                assert(s.drop_first()[j - 1] == s[j]);
            }
        }
    }
}

/// `first_dot` is the one index that carries a dot with none before it.
pub proof fn lemma_first_dot_is(s: Seq<char>, k: int)
    requires
        0 <= k < s.len(),
        s[k] == '.',
        forall|j: int| 0 <= j < k ==> s[j] != '.',
    ensures
        first_dot(s) == k,
    decreases s.len(),
{
    if s.len() > 0 && s[0] != '.' {
        assert(forall|j: int| 0 <= j < k - 1 ==> s.drop_first()[j] == s[j + 1]);
        lemma_first_dot_is(s.drop_first(), k - 1);
    }
}

/// No dot anywhere means `first_dot` runs to the end.
pub proof fn lemma_first_dot_none(s: Seq<char>)
    requires
        forall|j: int| 0 <= j < s.len() ==> s[j] != '.',
    ensures
        first_dot(s) == s.len(),
    decreases s.len(),
{
    if s.len() > 0 {
        assert(forall|j: int| 0 <= j < s.drop_first().len() ==> s.drop_first()[j] == s[j + 1]);
        lemma_first_dot_none(s.drop_first());
    }
}

/// No slash anywhere means `last_slash` is -1.
pub proof fn lemma_last_slash_none(s: Seq<char>)
    requires
        forall|j: int| 0 <= j < s.len() ==> s[j] != '/',
    ensures
        last_slash(s) == -1,
    decreases s.len(),
{
    if s.len() > 0 {
        assert(forall|j: int| 0 <= j < s.drop_last().len() ==> s.drop_last()[j] == s[j]);
        lemma_last_slash_none(s.drop_last());
    }
}

/// The folder key of a classifiable path: the segment before the final one,
/// lower-cased under the ASCII fold (a non-ASCII character passes through
/// unchanged).
pub open spec fn folder_key_of(path: Seq<char>) -> Seq<char>
    recommends
        last_slash(path) >= 0,
{
    let last = last_slash(path);
    lower(path.subrange(last_slash(path.take(last)) + 1, last))
}

/// The final path segment.
pub open spec fn final_segment_of(path: Seq<char>) -> Seq<char>
    recommends
        last_slash(path) >= 0,
{
    path.subrange(last_slash(path) + 1, path.len() as int)
}

/// The component id of a classifiable path: the final segment up to its first
/// dot (the whole segment when it holds no dot).
pub open spec fn component_id_of(path: Seq<char>) -> Seq<char>
    recommends
        last_slash(path) >= 0,
{
    let fin = final_segment_of(path);
    fin.subrange(0, first_dot(fin))
}

/// What the classifier yields: `Some((folder key, component id))` when the
/// path has at least two segments and a non-empty parent-directory name,
/// `None` otherwise. The component id may be empty (a final segment that is
/// only an extension); rejecting that is the aggregator's concern.
pub open spec fn spec_classify(path: Seq<char>) -> Option<(Seq<char>, Seq<char>)> {
    if last_slash(path) < 0 {
        None
    } else if folder_key_of(path).len() == 0 {
        None
    } else {
        Some((folder_key_of(path), component_id_of(path)))
    }
}

/// Finds the last slash of `s`, scanning from the end.
fn find_last_slash(s: &str) -> (r: Option<usize>)
    ensures
        match r {
            Some(k) => last_slash(s@) == k as int,
            None => last_slash(s@) == -1,
        },
{
    let n = s.unicode_len();
    let mut i: usize = n;
    while i > 0
        invariant
            n == s@.len(),
            i <= n,
            forall|j: int| i <= j < n ==> s@[j] != '/',
        decreases i,
    {
        i = i - 1;
        if s.get_char(i) == '/' {
            proof {
                lemma_last_slash_is(s@, i as int);
            }
            return Some(i);
        }
    }
    proof {
        lemma_last_slash_none(s@);
    }
    None
}

/// Finds the first dot of `s`, scanning from the start; yields `s`'s length
/// when there is none.
fn find_first_dot(s: &str) -> (r: usize)
    ensures
        first_dot(s@) == r as int,
{
    let n = s.unicode_len();
    let mut i: usize = 0;
    while i < n
        invariant
            n == s@.len(),
            i <= n,
            forall|j: int| 0 <= j < i ==> s@[j] != '.',
        decreases n - i,
    {
        if s.get_char(i) == '.' {
            proof {
                lemma_first_dot_is(s@, i as int);
            }
            return i;
        }
        i = i + 1;
    }
    proof {
        lemma_first_dot_none(s@);
    }
    n
}

/// Classifies one path: `Some((folder_key, component_id))` exactly when the
/// path has a parent directory with a non-empty name; the folder key comes
/// out lower-cased and the component id is the final segment shorn of every
/// extension suffix.
pub fn classify(path: &str) -> (r: Option<(String, String)>)
    ensures
        match r {
            Some(fc) => spec_classify(path@) == Some((fc.0@, fc.1@)),
            None => spec_classify(path@) is None,
        },
{
    let n = path.unicode_len();
    let last = match find_last_slash(path) {
        None => {
            return None;
        },
        Some(k) => k,
    };
    proof {
        lemma_last_slash(path@);
    }
    let head = path.substring_char(0, last);
    proof {
        assert(head@ =~= path@.take(last as int));
        lemma_last_slash(head@);
    }
    let prev = match find_last_slash(head) {
        None => 0,
        Some(k) => k + 1,
    };
    proof {
        lemma_last_slash(path@.take(last as int));
    }
    let folder = lower_exec(path.substring_char(prev, last));
    if folder.as_str().is_empty() {
        return None;
    }
    let fin = path.substring_char(last + 1, n);
    let d = find_first_dot(fin);
    proof {
        lemma_first_dot(fin@);
    }
    let component = fin.substring_char(0, d).to_owned();
    proof {
        assert(folder@ =~= folder_key_of(path@));
        assert(component@ =~= component_id_of(path@));
    }
    Some((folder, component))
}

/// Extension stripping: the component id of a classifiable path is the base
/// identifier of the final segment and nothing more — it holds no dot, and it
/// is either the whole final segment (one without a dot) or cut exactly where
/// the segment's first dot begins, so every extension suffix is removed.
pub proof fn lemma_extension_stripping(path: Seq<char>)
    requires
        spec_classify(path) is Some,
    ensures
        ({
            let c = spec_classify(path)->Some_0.1;
            let fin = final_segment_of(path);
            &&& c == fin.subrange(0, first_dot(fin))
            &&& forall|j: int| 0 <= j < c.len() ==> c[j] != '.'
            &&& (c.len() == fin.len() || fin[c.len() as int] == '.')
        }),
{
    let fin = final_segment_of(path);
    lemma_first_dot(fin);
}

} // verus!
