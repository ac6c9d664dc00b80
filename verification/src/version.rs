//! The version of a migration: read from its name, and ordered as text.

use crate::error::{ErrorView, MigrationError};
use crate::path::{DirectoryView, MigrationDirectory};
use crate::text::{
    lemma_bytes_less_irreflexive, lemma_bytes_less_total, lemma_bytes_less_transitive,
    lemma_encoding_injective, text_less,
};
use vstd::prelude::*;
use vstd::string::*;
use vstd::utf8::encode_utf8;

verus! {

/// How many characters of a name stand before its first `_`.
pub open spec fn prefix_len(name: Seq<char>) -> nat
    decreases name.len(),
{
    if name.len() == 0 || name[0] == '_' {
        0
    } else {
        1 + prefix_len(name.drop_first())
    }
}

/// The text without its hyphens.
pub open spec fn without_hyphens(text: Seq<char>) -> Seq<char> {
    text.filter(|c: char| c != '-')
}

/// The version that a migration's name carries: what stands before the
/// first `_`, hyphens left out.
pub open spec fn version_of_name(name: Seq<char>) -> Seq<char> {
    without_hyphens(name.take(prefix_len(name) as int))
}

/// The version of the migration in a directory: that of the last name of
/// its path, and none where the path has no last name.
pub open spec fn version_of_path(path: DirectoryView) -> Seq<char> {
    match path.name {
        Some(name) => version_of_name(name),
        None => Seq::empty(),
    }
}

/// Versions are ordered as texts are.
pub open spec fn version_less(a: Seq<char>, b: Seq<char>) -> bool {
    text_less(a, b)
}

/// Versions are totally ordered: none is less than itself, the order is
/// transitive, and of two different versions one is less than the other.
pub proof fn lemma_version_order(a: Seq<char>, b: Seq<char>, c: Seq<char>)
    ensures
        !version_less(a, a),
        version_less(a, b) && version_less(b, c) ==> version_less(a, c),
        a != b ==> version_less(a, b) || version_less(b, a),
        !(version_less(a, b) && version_less(b, a)),
{
    lemma_bytes_less_irreflexive(encode_utf8(a));
    if version_less(a, b) && version_less(b, c) {
        lemma_bytes_less_transitive(encode_utf8(a), encode_utf8(b), encode_utf8(c));
    }
    if !version_less(a, b) && !version_less(b, a) {
        lemma_bytes_less_total(encode_utf8(a), encode_utf8(b));
        lemma_encoding_injective(a, b);
    }
    if version_less(a, b) && version_less(b, a) {
        lemma_bytes_less_transitive(encode_utf8(a), encode_utf8(b), encode_utf8(a));
    }
}

/// `prefix_len` is the place of the first `_`, or the length where there is
/// none.
pub proof fn lemma_prefix_len(name: Seq<char>, k: int)
    requires
        0 <= k <= name.len(),
        forall|i: int| 0 <= i < k ==> name[i] != '_',
        k == name.len() || name[k] == '_',
    ensures
        prefix_len(name) == k,
    decreases k,
{
    if k > 0 {
        lemma_prefix_len(name.drop_first(), k - 1);
    }
}

/// A text without hyphens is left as it is.
pub proof fn lemma_without_hyphens_identity(text: Seq<char>)
    requires
        forall|i: int| 0 <= i < text.len() ==> text[i] != '-',
    ensures
        without_hyphens(text) == text,
    decreases text.len(),
{
    reveal(Seq::filter);
    if text.len() > 0 {
        lemma_without_hyphens_identity(text.drop_last());
        assert(text.drop_last().push(text.last()) =~= text);
    }
}

/// A name made of a version, a `_` and any description carries that
/// version, provided the version holds neither `_` nor `-`.
pub proof fn lemma_version_of_name(version: Seq<char>, description: Seq<char>)
    requires
        forall|i: int| 0 <= i < version.len() ==> version[i] != '_' && version[i] != '-',
    ensures
        version_of_name(version + seq!['_'] + description) == version,
{
    let name = version + seq!['_'] + description;
    lemma_prefix_len(name, version.len() as int);
    assert(name.take(version.len() as int) =~= version);
    lemma_without_hyphens_identity(version);
}

/// A name without any `_` is its own prefix: its version is the whole name
/// with the hyphens left out.
pub proof fn lemma_version_without_separator(name: Seq<char>)
    requires
        forall|i: int| 0 <= i < name.len() ==> name[i] != '_',
    ensures
        version_of_name(name) == without_hyphens(name),
{
    lemma_prefix_len(name, name.len() as int);
    assert(name.take(name.len() as int) =~= name);
}

/// The version that the name carries. It is empty where nothing is left of
/// the name's prefix once the hyphens are gone.
pub fn version_from_name(name: &str) -> (version: String)
    ensures
        version@ == version_of_name(name@),
{
    let mut version = String::new();
    let mut open = true;
    let ghost mut end: int = 0;
    for c in it: name.chars()
        invariant
            it.seq() == name@,
            0 <= end <= it.index(),
            open ==> end == it.index(),
            !open ==> end < name@.len() && name@[end] == '_',
            forall|i: int| 0 <= i < end ==> name@[i] != '_',
            version@ == without_hyphens(name@.take(end)),
    {
        if open {
            if c == '_' {
                open = false;
            } else {
                proof {
                    reveal(Seq::filter);
                    assert(name@.take(end + 1).drop_last() =~= name@.take(end));
                    end = end + 1;
                }
                if c != '-' {
                    version.push(c);
                }
            }
        }
    }
    proof {
        lemma_prefix_len(name@, end);
    }
    version
}

/// The version of the migration in the directory `path`. There is none
/// where the path has no last name, and none where the name carries none.
pub fn version_from_path(path: &MigrationDirectory) -> (r: Result<String, MigrationError>)
    ensures
        match r {
            Ok(v) => v@ == version_of_path(path@) && v@.len() > 0,
            Err(e) => version_of_path(path@).len() == 0 && e@
                == ErrorView::UnknownMigrationFormat(path@.path),
        },
{
    match &path.name {
        Some(name) => {
            let version = version_from_name(name.as_str());
            if version.as_str().is_empty() {
                Err(MigrationError::UnknownMigrationFormat(path.path.clone()))
            } else {
                Ok(version)
            }
        },
        None => Err(MigrationError::UnknownMigrationFormat(path.path.clone())),
    }
}

} // verus!
