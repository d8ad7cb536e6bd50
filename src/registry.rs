//! The registry of projects and their curated branch lists, and its text
//! format: a header line `;;;;<path>` opens each project, and the lines after
//! it, up to the next header, are that project's branches in display order.
use vstd::prelude::*;
use vstd::string::StrSliceExecFns;
use vstd::string::StringExecFns;
use crate::text::{
    lines, views_of, split_lines, text_of_lines, plain_line, lemma_split_text_of_lines,
    lemma_text_of_lines_concat,
};

verus! {

/// A branch that the user keeps in a project's list.
pub struct Branch {
    pub name: String,
}

/// A git working directory and the branches the user switches between there,
/// in the order they are shown.
pub struct Project {
    pub path: String,
    pub branches: Vec<Branch>,
}

/// The registry: every project, in the order they were added.
pub struct DB {
    pub projects: Vec<Project>,
}

/// What a project holds: its path and the names of its branches.
pub struct ProjectView {
    pub path: Seq<char>,
    pub branches: Seq<Seq<char>>,
}

/// Why the registry could not be read or changed.
#[derive(PartialEq, Eq, Structural, Debug)]
pub enum StoreError {
    /// No registered project has the given path.
    NotFound,
    /// The registry text has a branch line before any project header.
    MalformedStore,
}

impl View for Branch {
    type V = Seq<char>;

    open spec fn view(&self) -> Seq<char> {
        self.name@
    }
}

/// The names of a list of branches.
pub open spec fn branch_names(bs: Seq<Branch>) -> Seq<Seq<char>> {
    bs.map_values(|b: Branch| b@)
}

impl View for Project {
    type V = ProjectView;

    open spec fn view(&self) -> ProjectView {
        ProjectView { path: self.path@, branches: branch_names(self.branches@) }
    }
}

/// The views of a list of projects.
pub open spec fn project_views(ps: Seq<Project>) -> Seq<ProjectView> {
    ps.map_values(|p: Project| p@)
}

impl View for DB {
    type V = Seq<ProjectView>;

    open spec fn view(&self) -> Seq<ProjectView> {
        project_views(self.projects@)
    }
}

/// The token that starts a project header line.
pub open spec fn delimiter() -> Seq<char> {
    seq![';', ';', ';', ';']
}

/// A line that opens a project.
pub open spec fn is_header(l: Seq<char>) -> bool {
    l.len() >= 4 && l.take(4) == delimiter()
}

/// The lines that stand for one project: its header, then its branches.
pub open spec fn project_lines(p: ProjectView) -> Seq<Seq<char>> {
    seq![delimiter() + p.path] + p.branches
}

/// The lines of the registry text, project after project.
pub open spec fn registry_lines(ps: Seq<ProjectView>) -> Seq<Seq<char>>
    decreases ps.len(),
{
    if ps.len() == 0 {
        seq![]
    } else {
        registry_lines(ps.drop_last()) + project_lines(ps.last())
    }
}

/// The registry written as text.
pub open spec fn registry_text(ps: Seq<ProjectView>) -> Seq<char> {
    text_of_lines(registry_lines(ps))
}

/// `ps` with one more line read: a header adds a project without branches, any
/// other line is a branch of the last project, and a branch line with no
/// project before it makes the text malformed.
pub open spec fn read_line(acc: Option<Seq<ProjectView>>, l: Seq<char>) -> Option<Seq<ProjectView>> {
    match acc {
        None => None,
        Some(ps) => if is_header(l) {
            Some(ps.push(ProjectView { path: l.skip(4), branches: seq![] }))
        } else if ps.len() == 0 {
            None
        } else {
            Some(
                ps.update(
                    ps.len() - 1,
                    ProjectView { path: ps.last().path, branches: ps.last().branches.push(l) },
                ),
            )
        },
    }
}

/// The projects that a sequence of lines describes, or `None` when it is malformed.
pub open spec fn parse_lines(ls: Seq<Seq<char>>) -> Option<Seq<ProjectView>>
    decreases ls.len(),
{
    if ls.len() == 0 {
        Some(seq![])
    } else {
        read_line(parse_lines(ls.drop_last()), ls.last())
    }
}

/// The projects that a registry text describes, or `None` when it is malformed.
pub open spec fn parse_text(s: Seq<char>) -> Option<Seq<ProjectView>> {
    parse_lines(split_lines(s))
}

/// A registry that its text describes exactly: no path or branch name holds a
/// line feed or ends with a carriage return, and no branch name starts with the
/// header token.
pub open spec fn storable(ps: Seq<ProjectView>) -> bool {
    &&& forall|i: int| 0 <= i < ps.len() ==> plain_line(delimiter() + #[trigger] ps[i].path)
    &&& forall|i: int, j: int|
        0 <= i < ps.len() && 0 <= j < ps[i].branches.len() ==> {
            &&& plain_line(#[trigger] ps[i].branches[j])
            &&& !is_header(ps[i].branches[j])
        }
}

proof fn lemma_parse_prefix_malformed(ls: Seq<Seq<char>>, k: int)
    requires
        0 <= k <= ls.len(),
        parse_lines(ls.take(k)) is None,
    ensures
        parse_lines(ls) is None,
    decreases ls.len() - k,
{
    if k < ls.len() {
        assert(ls.take(k + 1).drop_last() =~= ls.take(k));
        lemma_parse_prefix_malformed(ls, k + 1);
    } else {
        assert(ls.take(k) =~= ls);
    }
}

proof fn lemma_parse_branches(
    ls: Seq<Seq<char>>,
    ps: Seq<ProjectView>,
    p: ProjectView,
    k: int,
)
    requires
        parse_lines(ls) == Some(ps),
        0 <= k <= p.branches.len(),
        forall|j: int| 0 <= j < p.branches.len() ==> !is_header(#[trigger] p.branches[j]),
    ensures
        parse_lines(ls + seq![delimiter() + p.path] + p.branches.take(k)) == Some(
            ps.push(ProjectView { path: p.path, branches: p.branches.take(k) }),
        ),
    decreases k,
{
    let h = delimiter() + p.path;
    if k == 0 {
        assert(ls + seq![h] + p.branches.take(0) =~= ls.push(h));
        assert(ls.push(h).drop_last() =~= ls);
        assert(h.take(4) =~= delimiter());
        assert(h.skip(4) =~= p.path);
        assert(p.branches.take(0) =~= seq![]);
    } else {
        lemma_parse_branches(ls, ps, p, k - 1);
        let prev = ls + seq![h] + p.branches.take(k - 1);
        let cur = ls + seq![h] + p.branches.take(k);
        assert(cur.drop_last() =~= prev);
        assert(cur.last() == p.branches[k - 1]);
        assert(p.branches.take(k - 1).push(p.branches[k - 1]) =~= p.branches.take(k));
        let q = ps.push(ProjectView { path: p.path, branches: p.branches.take(k - 1) });
        assert(q.update(q.len() - 1, ProjectView { path: p.path, branches: p.branches.take(k) })
            =~= ps.push(ProjectView { path: p.path, branches: p.branches.take(k) }));
    }
}

proof fn lemma_parse_registry_lines(ps: Seq<ProjectView>)
    requires
        storable(ps),
    ensures
        parse_lines(registry_lines(ps)) == Some(ps),
    decreases ps.len(),
{
    if ps.len() == 0 {
        assert(registry_lines(ps) =~= seq![]);
        assert(ps =~= seq![]);
    } else {
        let init = ps.drop_last();
        let p = ps.last();
        assert(storable(init)) by {
            assert forall|i: int| 0 <= i < init.len() implies plain_line(
                delimiter() + #[trigger] init[i].path,
            ) by {
                assert(init[i] == ps[i]);
            }
            assert forall|i: int, j: int|
                0 <= i < init.len() && 0 <= j < init[i].branches.len() implies {
                &&& plain_line(#[trigger] init[i].branches[j])
                &&& !is_header(init[i].branches[j])
            } by {
                assert(init[i] == ps[i]);
            }
        }
        lemma_parse_registry_lines(init);
        assert forall|j: int| 0 <= j < p.branches.len() implies !is_header(
            #[trigger] p.branches[j],
        ) by {
            assert(p == ps[ps.len() - 1]);
        }
        assert((delimiter() + p.path).take(4) =~= delimiter());
        lemma_parse_branches(registry_lines(init), init, p, p.branches.len() as int);
        assert(p.branches.take(p.branches.len() as int) =~= p.branches);
        assert(registry_lines(init) + seq![delimiter() + p.path] + p.branches =~= registry_lines(
            ps,
        ));
        assert(init.push(ProjectView { path: p.path, branches: p.branches }) =~= ps);
    }
}

proof fn lemma_registry_lines_plain(ps: Seq<ProjectView>)
    requires
        storable(ps),
    ensures
        forall|i: int|
            0 <= i < registry_lines(ps).len() ==> plain_line(#[trigger] registry_lines(ps)[i]),
    decreases ps.len(),
{
    if ps.len() > 0 {
        let init = ps.drop_last();
        let p = ps.last();
        assert(storable(init)) by {
            assert forall|i: int| 0 <= i < init.len() implies plain_line(
                delimiter() + #[trigger] init[i].path,
            ) by {
                assert(init[i] == ps[i]);
            }
            assert forall|i: int, j: int|
                0 <= i < init.len() && 0 <= j < init[i].branches.len() implies {
                &&& plain_line(#[trigger] init[i].branches[j])
                &&& !is_header(init[i].branches[j])
            } by {
                assert(init[i] == ps[i]);
            }
        }
        lemma_registry_lines_plain(init);
        let a = registry_lines(init);
        let b = project_lines(p);
        assert forall|i: int| 0 <= i < registry_lines(ps).len() implies plain_line(
            #[trigger] registry_lines(ps)[i],
        ) by {
            if i >= a.len() {
                let j = i - a.len();
                assert(registry_lines(ps)[i] == b[j]);
                if j > 0 {
                    assert(b[j] == p.branches[j - 1]);
                    assert(p == ps[ps.len() - 1]);
                } else {
                    assert(p == ps[ps.len() - 1]);
                }
            } else {
                assert(registry_lines(ps)[i] == a[i]);
            }
        }
    }
}

/// Writing a registry out and reading the text back gives the same projects,
/// with the same paths and the same branches, in the same order.
pub proof fn lemma_round_trip(ps: Seq<ProjectView>)
    requires
        storable(ps),
    ensures
        parse_text(registry_text(ps)) == Some(ps),
{
    lemma_registry_lines_plain(ps);
    lemma_split_text_of_lines(registry_lines(ps));
    lemma_parse_registry_lines(ps);
}


proof fn lemma_text_push(ls: Seq<Seq<char>>, x: Seq<char>)
    ensures
        text_of_lines(ls.push(x)) == text_of_lines(ls) + x + seq!['\n'],
{
    lemma_text_of_lines_concat(ls, seq![x]);
    assert(seq![x].drop_first() =~= Seq::<Seq<char>>::empty());
    assert(text_of_lines(Seq::<Seq<char>>::empty()) == Seq::<char>::empty());
    assert(seq![x][0] == x);
    assert(text_of_lines(seq![x]) == x + seq!['\n'] + text_of_lines(seq![x].drop_first()));
    assert(text_of_lines(seq![x]) =~= x + seq!['\n']);
    assert(ls + seq![x] =~= ls.push(x));
    assert(text_of_lines(ls) + (x + seq!['\n']) =~= text_of_lines(ls) + x + seq!['\n']);
}

/// A copy of a list of branches.
pub fn copy_branches(bs: &Vec<Branch>) -> (r: Vec<Branch>)
    ensures
        branch_names(r@) == branch_names(bs@),
{
    let mut r: Vec<Branch> = Vec::new();
    let mut i: usize = 0;
    while i < bs.len()
        invariant
            i <= bs.len(),
            branch_names(r@) == branch_names(bs@).take(i as int),
        decreases bs.len() - i,
    {
        let ghost before = r@;
        r.push(Branch { name: bs[i].name.clone() });
        assert(branch_names(r@) =~= branch_names(before).push(bs@[i as int]@));
        assert(branch_names(bs@).take(i + 1) =~= branch_names(bs@).take(i as int).push(
            bs@[i as int]@,
        ));
        i = i + 1;
    }
    assert(branch_names(bs@).take(i as int) =~= branch_names(bs@));
    r
}

/// The path of a header line, or `None` for a branch line.
fn header_path(line: &str) -> (r: Option<String>)
    ensures
        is_header(line@) <==> r is Some,
        r is Some ==> r->0@ == line@.skip(4),
{
    let n = line.unicode_len();
    if n >= 4 && line.get_char(0) == ';' && line.get_char(1) == ';' && line.get_char(2) == ';'
        && line.get_char(3) == ';' {
        assert(line@.take(4) =~= delimiter());
        Some(String::from_str(line.substring_char(4, n)))
    } else {
        proof {
            if line@.len() >= 4 {
                assert(line@.take(4)[0] == line@[0]);
                assert(line@.take(4)[1] == line@[1]);
                assert(line@.take(4)[2] == line@[2]);
                assert(line@.take(4)[3] == line@[3]);
            }
        }
        None
    }
}

impl Project {
    /// A copy of the project, with its own branch list.
    pub fn duplicate(&self) -> (r: Project)
        ensures
            r@ == self@,
    {
        Project { path: self.path.clone(), branches: copy_branches(&self.branches) }
    }

    /// A project at `path` with no branches yet.
    pub fn new(path: String) -> (r: Project)
        ensures
            r@ == (ProjectView { path: path@, branches: seq![] }),
    {
        let r = Project { path, branches: Vec::new() };
        assert(r@.branches =~= seq![]);
        r
    }
}

impl DB {
    /// A registry without projects.
    pub fn new() -> (r: DB)
        ensures
            r@ == Seq::<ProjectView>::empty(),
    {
        let r = DB { projects: Vec::new() };
        assert(r@ =~= Seq::<ProjectView>::empty());
        r
    }

    /// Reads the registry from the contents of its file. Empty contents, as
    /// for a file that does not exist yet, give an empty registry; a branch
    /// line before any project header is `MalformedStore`.
    pub fn load_from_disk(contents: &str) -> (r: Result<DB, StoreError>)
        ensures
            parse_text(contents@) is Some <==> r is Ok,
            r is Ok ==> r->Ok_0@ == parse_text(contents@)->0,
            r is Err ==> r->Err_0 == StoreError::MalformedStore,
    {
        let ls = lines(contents);
        let ghost gl = views_of(ls@);
        let mut db = DB::new();
        let mut k: usize = 0;
        assert(gl.take(0) =~= seq![]);
        while k < ls.len()
            invariant
                k <= ls.len(),
                gl == views_of(ls@),
                gl == split_lines(contents@),
                parse_lines(gl.take(k as int)) == Some(db@),
            decreases ls.len() - k,
        {
            let line = &ls[k];
            assert(gl.take(k + 1).drop_last() =~= gl.take(k as int));
            assert(gl.take(k + 1).last() == line@);
            match header_path(line.as_str()) {
                Some(path) => {
                    let ghost before = db@;
                    db.projects.push(Project::new(path));
                    assert(db@ =~= before.push(ProjectView { path: line@.skip(4), branches: seq![] }));
                },
                None => {
                    if db.projects.len() == 0 {
                        proof {
                            lemma_parse_prefix_malformed(gl, k + 1);
                        }
                        return Err(StoreError::MalformedStore);
                    }
                    let ghost before = db@;
                    let mut p = db.projects.pop().unwrap();
                    let ghost pb = p@;
                    p.branches.push(Branch { name: line.clone() });
                    assert(p@.branches =~= pb.branches.push(line@));
                    db.projects.push(p);
                    assert(db@ =~= before.update(
                        before.len() - 1,
                        ProjectView { path: before.last().path, branches: before.last().branches.push(line@) },
                    ));
                },
            }
            k = k + 1;
        }
        assert(gl.take(ls.len() as int) =~= gl);
        Ok(db)
    }

    /// The registry written as the text of its file.
    pub fn disk_contents(&self) -> (r: String)
        ensures
            r@ == registry_text(self@),
    {
        let ghost ps = self@;
        let mut out = String::new();
        let mut i: usize = 0;
        proof {
            reveal_strlit(";;;;");
            reveal_strlit("\n");
            assert(ps.take(0) =~= seq![]);
            assert(out@ =~= text_of_lines(registry_lines(ps.take(0))));
        }
        while i < self.projects.len()
            invariant
                i <= self.projects.len(),
                ps == self@,
                out@ == text_of_lines(registry_lines(ps.take(i as int))),
                ";;;;"@ == delimiter(),
                "\n"@ == seq!['\n'],
            decreases self.projects.len() - i,
        {
            let p = &self.projects[i];
            let ghost pv = p@;
            assert(pv == ps[i as int]);
            let ghost base = registry_lines(ps.take(i as int));
            out.append(";;;;");
            out.append(p.path.as_str());
            out.append("\n");
            proof {
                lemma_text_push(base, delimiter() + pv.path);
                assert(out@ =~= text_of_lines(base.push(delimiter() + pv.path)));
                assert(base.push(delimiter() + pv.path) =~= base + seq![delimiter() + pv.path]
                    + pv.branches.take(0));
            }
            let mut j: usize = 0;
            while j < p.branches.len()
                invariant
                    j <= p.branches.len(),
                    pv == p@,
                    "\n"@ == seq!['\n'],
                    out@ == text_of_lines(base + seq![delimiter() + pv.path] + pv.branches.take(j as int)),
                decreases p.branches.len() - j,
            {
                let ghost prev = base + seq![delimiter() + pv.path] + pv.branches.take(j as int);
                out.append(p.branches[j].name.as_str());
                out.append("\n");
                proof {
                    assert(p.branches@[j as int]@ == pv.branches[j as int]);
                    lemma_text_push(prev, pv.branches[j as int]);
                    assert(prev.push(pv.branches[j as int]) =~= base + seq![delimiter() + pv.path]
                        + pv.branches.take(j + 1));
                }
                j = j + 1;
            }
            proof {
                assert(pv.branches.take(j as int) =~= pv.branches);
                assert(ps.take(i + 1).drop_last() =~= ps.take(i as int));
                assert(registry_lines(ps.take(i + 1)) =~= base + project_lines(pv));
                assert(base + seq![delimiter() + pv.path] + pv.branches =~= base + project_lines(pv));
            }
            i = i + 1;
        }
        assert(ps.take(i as int) =~= ps);
        out
    }
}

} // verus!
