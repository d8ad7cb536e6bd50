//! Changes to the registry and lookups in it, by project path. Each one works
//! on a registry loaded from its file; the caller writes the result back.
use vstd::prelude::*;
use vstd::string::StringExecFns;
use crate::registry::{Branch, Project, DB, ProjectView, StoreError, branch_names, copy_branches, project_views};
use crate::seqs::{first_index, lemma_first_index, lemma_first_index_bounds};

verus! {

/// Position of the first project registered at `path`, or `ps.len()` when
/// there is none.
pub open spec fn project_index(ps: Seq<ProjectView>, path: Seq<char>) -> nat {
    first_index(ps, |p: ProjectView| p.path == path)
}

/// The project with `branch` added at the end of its list, unless the list
/// already holds it.
pub open spec fn with_branch(p: ProjectView, branch: Seq<char>) -> ProjectView {
    if p.branches.contains(branch) {
        p
    } else {
        ProjectView { path: p.path, branches: p.branches.push(branch) }
    }
}

/// The project without any branch named `branch`.
pub open spec fn without_branch(p: ProjectView, branch: Seq<char>) -> ProjectView {
    ProjectView { path: p.path, branches: p.branches.filter(|b: Seq<char>| b != branch) }
}

/// Every project registered at a different path than `path`.
pub open spec fn without_project(ps: Seq<ProjectView>, path: Seq<char>) -> Seq<ProjectView> {
    ps.filter(|p: ProjectView| p.path != path)
}

/// Paths are unique in the registry.
pub open spec fn unique_paths(ps: Seq<ProjectView>) -> bool {
    forall|i: int, j: int| 0 <= i < j < ps.len() ==> ps[i].path != ps[j].path
}

/// Position of the first project at `path`, or the number of projects.
fn find_project(db: &DB, path: &String) -> (r: usize)
    ensures
        r == project_index(db@, path@),
        r <= db@.len(),
{
    let mut i: usize = 0;
    while i < db.projects.len()
        invariant
            i <= db.projects.len(),
            forall|j: int| 0 <= j < i ==> db@[j].path != path@,
        decreases db.projects.len() - i,
    {
        if db.projects[i].path == *path {
            proof {
                lemma_first_index(db@, |p: ProjectView| p.path == path@, i as int);
            }
            return i;
        }
        i = i + 1;
    }
    proof {
        lemma_first_index(db@, |p: ProjectView| p.path == path@, i as int);
    }
    i
}

/// Whether `bs` holds a branch named `name`.
fn holds_branch(bs: &Vec<Branch>, name: &String) -> (r: bool)
    ensures
        r == branch_names(bs@).contains(name@),
{
    let mut i: usize = 0;
    while i < bs.len()
        invariant
            i <= bs.len(),
            forall|j: int| 0 <= j < i ==> bs@[j]@ != name@,
        decreases bs.len() - i,
    {
        if bs[i].name == *name {
            assert(branch_names(bs@)[i as int] == name@);
            return true;
        }
        i = i + 1;
    }
    proof {
        if branch_names(bs@).contains(name@) {
            let k = choose|k: int| 0 <= k < branch_names(bs@).len() && branch_names(bs@)[k] == name@;
            assert(bs@[k]@ == name@);
        }
    }
    false
}

/// Registers a project at `path`, after the others. A path that is already
/// registered is left as it is, so that paths stay unique.
pub fn add_project(db: &mut DB, path: &str)
    ensures
        final(db)@ == if project_index(old(db)@, path@) < old(db)@.len() {
            old(db)@
        } else {
            old(db)@.push(ProjectView { path: path@, branches: seq![] })
        },
        unique_paths(old(db)@) ==> unique_paths(final(db)@),
{
    let key = String::from_str(path);
    let i = find_project(db, &key);
    if i == db.projects.len() {
        let ghost before = db@;
        proof {
            lemma_first_index_bounds(before, |p: ProjectView| p.path == path@);
        }
        db.projects.push(Project::new(key));
        assert(db@ =~= before.push(ProjectView { path: path@, branches: seq![] }));
    }
}

proof fn lemma_without_project_unique(ps: Seq<ProjectView>, path: Seq<char>)
    requires
        unique_paths(ps),
    ensures
        unique_paths(without_project(ps, path)),
        forall|i: int|
            0 <= i < without_project(ps, path).len() ==> exists|j: int|
                0 <= j < ps.len() && #[trigger] without_project(ps, path)[i] == ps[j],
    decreases ps.len(),
{
    reveal(Seq::filter);
    if ps.len() > 0 {
        let init = ps.drop_last();
        assert(unique_paths(init)) by {
            assert forall|i: int, j: int| 0 <= i < j < init.len() implies init[i].path
                != init[j].path by {
                assert(init[i] == ps[i] && init[j] == ps[j]);
            }
        }
        lemma_without_project_unique(init, path);
        let f = without_project(init, path);
        assert forall|i: int| 0 <= i < f.len() implies exists|j: int|
            0 <= j < ps.len() - 1 && #[trigger] f[i] == ps[j] by {
            let j = choose|j: int| 0 <= j < init.len() && f[i] == init[j];
            assert(init[j] == ps[j]);
        }
        if ps.last().path != path {
            let g = f.push(ps.last());
            assert(without_project(ps, path) == g);
            assert forall|i: int| 0 <= i < g.len() implies exists|j: int|
                0 <= j < ps.len() && #[trigger] g[i] == ps[j] by {
                if i < f.len() {
                    assert(g[i] == f[i]);
                } else {
                    assert(g[i] == ps[ps.len() - 1]);
                }
            }
            assert forall|a: int, b: int| 0 <= a < b < g.len() implies g[a].path != g[b].path by {
                if b < f.len() {
                    assert(g[a] == f[a] && g[b] == f[b]);
                } else {
                    assert(g[a] == f[a]);
                    let j = choose|j: int| 0 <= j < ps.len() - 1 && f[a] == ps[j];
                    assert(g[b] == ps[ps.len() - 1]);
                }
            }
        } else {
            assert(without_project(ps, path) == f);
        }
    }
}

/// Removes every project registered at `path`.
pub fn remove_project(db: &mut DB, path: &str)
    ensures
        final(db)@ == without_project(old(db)@, path@),
        unique_paths(old(db)@) ==> unique_paths(final(db)@),
{
    proof {
        if unique_paths(db@) {
            lemma_without_project_unique(db@, path@);
        }
    }
    let key = String::from_str(path);
    let ghost ps = db@;
    let mut kept: Vec<Project> = Vec::new();
    let mut k: usize = 0;
    while k < db.projects.len()
        invariant
            k <= db.projects.len(),
            ps == db@,
            key@ == path@,
            project_views(kept@) == without_project(ps.take(k as int), path@),
        decreases db.projects.len() - k,
    {
        proof {
            reveal(Seq::filter);
        }
        let ghost pre = ps.take(k as int);
        let ghost post = ps.take(k + 1);
        assert(ps[k as int] == db.projects@[k as int]@);
        assert(post.last() == ps[k as int]);
        assert(post.drop_last() =~= pre);
        assert(without_project(post, path@) == if ps[k as int].path != path@ {
            without_project(pre, path@).push(ps[k as int])
        } else {
            without_project(pre, path@)
        });
        if !(db.projects[k].path == key) {
            let ghost before = kept@;
            kept.push(db.projects[k].duplicate());
            assert(project_views(kept@) =~= project_views(before).push(ps[k as int]));
        }
        k = k + 1;
    }
    assert(ps.take(ps.len() as int) =~= ps);
    db.projects = kept;
}


/// `bs` without the branches named `name`.
fn branches_without(bs: &Vec<Branch>, name: &String) -> (r: Vec<Branch>)
    ensures
        branch_names(r@) == branch_names(bs@).filter(|b: Seq<char>| b != name@),
{
    let ghost names = branch_names(bs@);
    let mut kept: Vec<Branch> = Vec::new();
    let mut k: usize = 0;
    while k < bs.len()
        invariant
            k <= bs.len(),
            names == branch_names(bs@),
            branch_names(kept@) == names.take(k as int).filter(|b: Seq<char>| b != name@),
        decreases bs.len() - k,
    {
        proof {
            reveal(Seq::filter);
        }
        let ghost pre = names.take(k as int);
        let ghost post = names.take(k + 1);
        assert(names[k as int] == bs@[k as int]@);
        assert(post.last() == names[k as int]);
        assert(post.drop_last() =~= pre);
        if !(bs[k].name == *name) {
            let ghost before = kept@;
            kept.push(Branch { name: bs[k].name.clone() });
            assert(branch_names(kept@) =~= branch_names(before).push(names[k as int]));
        }
        k = k + 1;
    }
    assert(names.take(names.len() as int) =~= names);
    kept
}

/// Adds `branch` at the end of the list of the project at `path`, unless the
/// list already holds it. `NotFound` when no project is registered there.
pub fn add_branch(db: &mut DB, path: &str, branch: String) -> (r: Result<(), StoreError>)
    ensures
        project_index(old(db)@, path@) == old(db)@.len() ==> r == Err::<(), StoreError>(
            StoreError::NotFound,
        ) && final(db)@ == old(db)@,
        project_index(old(db)@, path@) < old(db)@.len() ==> r is Ok && final(db)@ == old(db)@.update(
            project_index(old(db)@, path@) as int,
            with_branch(old(db)@[project_index(old(db)@, path@) as int], branch@),
        ),
        unique_paths(old(db)@) ==> unique_paths(final(db)@),
{
    let key = String::from_str(path);
    let i = find_project(db, &key);
    if i == db.projects.len() {
        return Err(StoreError::NotFound);
    }
    let ghost before = db@;
    let ghost pv = db@[i as int];
    assert(pv == db.projects@[i as int]@);
    if holds_branch(&db.projects[i].branches, &branch) {
        assert(before.update(i as int, with_branch(pv, branch@)) =~= before);
        return Ok(());
    }
    let mut p = db.projects[i].duplicate();
    p.branches.push(Branch { name: branch });
    assert(p@.branches =~= pv.branches.push(branch@));
    db.projects.set(i, p);
    assert(db@ =~= before.update(i as int, with_branch(pv, branch@)));
    Ok(())
}

/// Removes the branch named `branch` from the project at `path`. `NotFound`
/// when no project is registered there.
pub fn remove_branch(db: &mut DB, path: &str, branch: String) -> (r: Result<(), StoreError>)
    ensures
        project_index(old(db)@, path@) == old(db)@.len() ==> r == Err::<(), StoreError>(
            StoreError::NotFound,
        ) && final(db)@ == old(db)@,
        project_index(old(db)@, path@) < old(db)@.len() ==> r is Ok && final(db)@ == old(db)@.update(
            project_index(old(db)@, path@) as int,
            without_branch(old(db)@[project_index(old(db)@, path@) as int], branch@),
        ),
        unique_paths(old(db)@) ==> unique_paths(final(db)@),
{
    let key = String::from_str(path);
    let i = find_project(db, &key);
    if i == db.projects.len() {
        return Err(StoreError::NotFound);
    }
    let ghost before = db@;
    let ghost pv = db@[i as int];
    assert(pv == db.projects@[i as int]@);
    let kept = branches_without(&db.projects[i].branches, &branch);
    let p = Project { path: db.projects[i].path.clone(), branches: kept };
    db.projects.set(i, p);
    assert(db@ =~= before.update(i as int, without_branch(pv, branch@)));
    Ok(())
}

/// The branches of the project at `path`, in order. `NotFound` when no
/// project is registered there.
pub fn get_branches(db: &DB, path: &str) -> (r: Result<Vec<Branch>, StoreError>)
    ensures
        project_index(db@, path@) == db@.len() ==> r is Err && r->Err_0 == StoreError::NotFound,
        project_index(db@, path@) < db@.len() ==> r is Ok && branch_names(r->Ok_0@) == db@[project_index(
            db@,
            path@,
        ) as int].branches,
{
    let key = String::from_str(path);
    let i = find_project(db, &key);
    if i == db.projects.len() {
        return Err(StoreError::NotFound);
    }
    assert(db@[i as int] == db.projects@[i as int]@);
    Ok(copy_branches(&db.projects[i].branches))
}

/// Replaces the branch list of the project at `path` with `branches`, in the
/// given order. `NotFound` when no project is registered there.
pub fn set_branches(db: &mut DB, path: &str, branches: Vec<&str>) -> (r: Result<(), StoreError>)
    ensures
        project_index(old(db)@, path@) == old(db)@.len() ==> r == Err::<(), StoreError>(
            StoreError::NotFound,
        ) && final(db)@ == old(db)@,
        project_index(old(db)@, path@) < old(db)@.len() ==> r is Ok && final(db)@ == old(db)@.update(
            project_index(old(db)@, path@) as int,
            ProjectView {
                path: old(db)@[project_index(old(db)@, path@) as int].path,
                branches: branches@.map_values(|b: &str| b@),
            },
        ),
        unique_paths(old(db)@) ==> unique_paths(final(db)@),
{
    let key = String::from_str(path);
    let i = find_project(db, &key);
    if i == db.projects.len() {
        return Err(StoreError::NotFound);
    }
    let ghost before = db@;
    let ghost pv = db@[i as int];
    assert(pv == db.projects@[i as int]@);
    let ghost want = branches@.map_values(|b: &str| b@);
    let mut list: Vec<Branch> = Vec::new();
    let mut k: usize = 0;
    while k < branches.len()
        invariant
            k <= branches.len(),
            want == branches@.map_values(|b: &str| b@),
            branch_names(list@) == want.take(k as int),
        decreases branches.len() - k,
    {
        let ghost prev = list@;
        list.push(Branch { name: String::from_str(branches[k]) });
        assert(branch_names(list@) =~= branch_names(prev).push(want[k as int]));
        assert(want.take(k + 1) =~= want.take(k as int).push(want[k as int]));
        k = k + 1;
    }
    assert(want.take(k as int) =~= want);
    let p = Project { path: db.projects[i].path.clone(), branches: list };
    db.projects.set(i, p);
    assert(db@ =~= before.update(i as int, ProjectView { path: pv.path, branches: want }));
    Ok(())
}

} // verus!
