//! Finding the migrations directory: the entry `migrations` of a directory or
//! of the nearest directory above it.

use crate::error::{ErrorView, MigrationError};
use crate::path::{Candidate, CandidateView};
use vstd::prelude::*;
use vstd::string::*;

verus! {

/// The search ends at the candidate `k`: it is a directory, and none before
/// it is.
pub open spec fn found_at(candidates: Seq<CandidateView>, k: int) -> bool {
    &&& 0 <= k < candidates.len()
    &&& candidates[k].is_dir
    &&& forall|j: int| 0 <= j < k ==> !(#[trigger] candidates[j]).is_dir
}

/// No candidate is a directory.
pub open spec fn found_nowhere(candidates: Seq<CandidateView>) -> bool {
    forall|k: int| 0 <= k < candidates.len() ==> !(#[trigger] candidates[k]).is_dir
}

/// What a search among the candidates comes to: the path of the first that
/// is a directory, or nothing where none is.
pub open spec fn search_outcome(candidates: Seq<CandidateView>, found: Option<Seq<char>>) -> bool {
    match found {
        Some(dir) => exists|k: int| found_at(candidates, k) && dir == candidates[k].path,
        None => found_nowhere(candidates),
    }
}

/// The search has one answer: two candidates that both end it are the same.
pub proof fn lemma_found_at_unique(candidates: Seq<CandidateView>, a: int, b: int)
    requires
        found_at(candidates, a),
        found_at(candidates, b),
    ensures
        a == b,
{
    if a < b {
        assert(!candidates[a].is_dir);
    }
    if b < a {
        assert(!candidates[b].is_dir);
    }
}

/// Looks for the migrations directory of `path`. The candidates are the
/// entries `migrations` of `path` itself and of each directory above it, in
/// that order, up to the root. The first that is a directory is the
/// answer, whatever the ones after it are; where none is, the error names
/// the path the search began at.
pub fn search_for_migrations_directory(path: &str, candidates: &Vec<Candidate>) -> (r: Result<
    String,
    MigrationError,
>)
    ensures
        match r {
            Ok(dir) => search_outcome(candidates.deep_view(), Some(dir@)),
            Err(e) => search_outcome(candidates.deep_view(), None) && e@
                == ErrorView::MigrationDirectoryNotFound(path@),
        },
{
    let mut i: usize = 0;
    while i < candidates.len()
        invariant
            i <= candidates.len(),
            forall|j: int| 0 <= j < i ==> !(#[trigger] candidates.deep_view()[j]).is_dir,
        decreases candidates.len() - i,
    {
        if candidates[i].is_dir {
            assert(found_at(candidates.deep_view(), i as int));
            return Ok(candidates[i].path.clone());
        }
        i += 1;
    }
    Err(MigrationError::MigrationDirectoryNotFound(String::from_str(path)))
}

/// The migrations directory of a project: the given one or, where none is
/// given, what a search from the project's `src` finds. `given` is the
/// given path inside the directory of the project's manifest, `src_dir` the
/// entry `src` of that directory, and the candidates are those of a search
/// from `src_dir`.
pub fn resolve_migrations_directory(
    given: Option<&str>,
    src_dir: &str,
    candidates: &Vec<Candidate>,
) -> (r: Result<String, MigrationError>)
    ensures
        match given {
            Some(dir) => r matches Ok(found) && found@ == dir@,
            None => match r {
                Ok(found) => search_outcome(candidates.deep_view(), Some(found@)),
                Err(e) => search_outcome(candidates.deep_view(), None) && e@
                    == ErrorView::MigrationDirectoryNotFound(src_dir@),
            },
        },
{
    match given {
        Some(dir) => Ok(String::from_str(dir)),
        // Migrations are commonly kept in src/migrations, so the search
        // starts there and not at the root of the project.
        None => search_for_migrations_directory(src_dir, candidates),
    }
}

} // verus!
