//! Finding the registered project that a working directory belongs to.
use vstd::prelude::*;
use crate::registry::{Project, DB, ProjectView, StoreError};
use crate::seqs::{first_index, lemma_first_index};
use crate::text::chars_of;

verus! {

/// `dir` is the directory `root` or lies below it: `root` is a prefix of
/// `dir` that ends where a path component ends, so `/a/b` holds `/a/b/c` but
/// not `/a/bc`.
pub open spec fn within(root: Seq<char>, dir: Seq<char>) -> bool {
    &&& root.len() <= dir.len()
    &&& dir.take(root.len() as int) == root
    &&& (dir.len() == root.len() || dir[root.len() as int] == '/' || (root.len() > 0
        && root.last() == '/'))
}

/// Position of the first project whose directory holds `dir`, or `ps.len()`
/// when there is none.
pub open spec fn owner_index(ps: Seq<ProjectView>, dir: Seq<char>) -> nat {
    first_index(ps, |p: ProjectView| within(p.path, dir))
}

fn is_within(root: &Vec<char>, dir: &Vec<char>) -> (r: bool)
    ensures
        r == within(root@, dir@),
{
    let n = root.len();
    if n > dir.len() {
        return false;
    }
    let mut k: usize = 0;
    while k < n
        invariant
            k <= n,
            n == root@.len(),
            n <= dir@.len(),
            forall|j: int| 0 <= j < k ==> dir@[j] == root@[j],
        decreases n - k,
    {
        if root[k] != dir[k] {
            assert(dir@.take(n as int)[k as int] != root@[k as int]);
            return false;
        }
        k = k + 1;
    }
    assert(dir@.take(n as int) =~= root@);
    n == dir.len() || dir[n] == '/' || (n > 0 && root[n - 1] == '/')
}

/// The first registered project whose directory holds `dir`, a canonical
/// absolute path, so that the tool works from any subdirectory of a project.
/// `NotFound` when no project holds it.
pub fn get_project_from_path(db: &DB, dir: &str) -> (r: Result<Project, StoreError>)
    ensures
        owner_index(db@, dir@) == db@.len() ==> r is Err && r->Err_0 == StoreError::NotFound,
        owner_index(db@, dir@) < db@.len() ==> r is Ok && r->Ok_0@ == db@[owner_index(
            db@,
            dir@,
        ) as int],
{
    let d = chars_of(dir);
    let mut i: usize = 0;
    while i < db.projects.len()
        invariant
            i <= db.projects.len(),
            d@ == dir@,
            forall|j: int| 0 <= j < i ==> !within(#[trigger] db@[j].path, dir@),
        decreases db.projects.len() - i,
    {
        let root = chars_of(db.projects[i].path.as_str());
        assert(db@[i as int] == db.projects@[i as int]@);
        if is_within(&root, &d) {
            proof {
                lemma_first_index(db@, |p: ProjectView| within(p.path, dir@), i as int);
            }
            return Ok(db.projects[i].duplicate());
        }
        i = i + 1;
    }
    proof {
        lemma_first_index(db@, |p: ProjectView| within(p.path, dir@), i as int);
    }
    Err(StoreError::NotFound)
}

} // verus!
