//! The state and rules of the two views of the branch picker: adding a branch
//! with completion from the repository's branches, and choosing, searching,
//! reordering and removing saved branches. Drawing them is left to the
//! terminal front end; changes to the registry go through the `DB` handed in.
use vstd::prelude::*;
use vstd::string::StrSliceExecFns;
use vstd::string::StringExecFns;
use crate::list::{StatefulList, ListView, swap_down_spec, swap_up_spec};
use crate::registry::{DB, ProjectView, StoreError, branch_names};
use crate::seqs::{first_index, lemma_first_index, lemma_first_index_bounds};
use crate::store::{add_branch, remove_branch, get_branches, set_branches, project_index, with_branch, without_branch};
use crate::text::{chars_of, views_of};

verus! {

/// What leaving the current context of the add view does.
#[derive(PartialEq, Eq, Structural, Debug, Clone, Copy)]
pub enum ExitContextResult {
    /// The add view is left.
    Exit,
    /// Only the selection was dropped; the add view stays.
    Continue,
}

/// Whether typed characters go to the search field.
#[derive(PartialEq, Eq, Structural, Debug, Clone, Copy)]
pub enum ChangeBranchesWidgetMode {
    Normal,
    Search,
}

/// Why a request of the branch list could not be met.
#[derive(PartialEq, Eq, Structural, Debug)]
pub enum WidgetError {
    /// No branch is selected.
    NoBranchSelected,
    /// The registry refused the change.
    Store(StoreError),
}

/// Relies on `String::push`: the character is added at the end.
#[verifier::external_body]
fn push_char(s: &mut String, c: char)
    ensures
        final(s)@ == old(s)@.push(c),
{
    s.push(c)
}

/// Relies on `String::pop`: the last character is removed, and an empty
/// string stays empty.
#[verifier::external_body]
fn pop_char(s: &mut String)
    ensures
        old(s)@.len() == 0 ==> final(s)@ == old(s)@,
        old(s)@.len() > 0 ==> final(s)@ == old(s)@.drop_last(),
{
    s.pop();
}

/// `p` is a prefix of `s`.
pub open spec fn starts_with(s: Seq<char>, p: Seq<char>) -> bool {
    p.len() <= s.len() && s.take(p.len() as int) == p
}

/// The branches that start with what was typed, in order.
pub open spec fn completions(all: Seq<Seq<char>>, input: Seq<char>) -> Seq<Seq<char>> {
    all.filter(|b: Seq<char>| starts_with(b, input))
}

/// The selected item of a list of names, if the selection points at one.
pub open spec fn selected_name(l: ListView<String>) -> Option<Seq<char>> {
    match l.selected {
        Some(i) => if i < l.items.len() {
            Some(l.items[i as int]@)
        } else {
            None
        },
        None => None,
    }
}

/// The position of the first name that starts with `input`, if any.
pub open spec fn first_match(items: Seq<Seq<char>>, input: Seq<char>) -> Option<usize> {
    let k = first_index(items, |b: Seq<char>| starts_with(b, input));
    if k < items.len() {
        Some(k as usize)
    } else {
        None
    }
}

fn has_prefix(s: &str, p: &Vec<char>) -> (r: bool)
    ensures
        r == starts_with(s@, p@),
{
    let cs = chars_of(s);
    if p.len() > cs.len() {
        return false;
    }
    let mut k: usize = 0;
    while k < p.len()
        invariant
            k <= p.len(),
            p.len() <= cs.len(),
            cs@ == s@,
            forall|j: int| 0 <= j < k ==> cs@[j] == p@[j],
        decreases p.len() - k,
    {
        if cs[k] != p[k] {
            assert(s@.take(p@.len() as int)[k as int] != p@[k as int]);
            return false;
        }
        k = k + 1;
    }
    assert(s@.take(p@.len() as int) =~= p@);
    true
}

fn names_of(items: &Vec<String>) -> (r: Vec<&str>)
    ensures
        r@.map_values(|b: &str| b@) == views_of(items@),
{
    let mut r: Vec<&str> = Vec::new();
    let mut k: usize = 0;
    while k < items.len()
        invariant
            k <= items.len(),
            r@.map_values(|b: &str| b@) == views_of(items@).take(k as int),
        decreases items.len() - k,
    {
        let ghost prev = r@;
        r.push(items[k].as_str());
        assert(r@.map_values(|b: &str| b@) =~= prev.map_values(|b: &str| b@).push(items@[k as int]@));
        assert(views_of(items@).take(k + 1) =~= views_of(items@).take(k as int).push(items@[k as int]@));
        k = k + 1;
    }
    assert(views_of(items@).take(k as int) =~= views_of(items@));
    r
}

fn copy_names(items: &Vec<String>) -> (r: Vec<String>)
    ensures
        views_of(r@) == views_of(items@),
{
    let mut r: Vec<String> = Vec::new();
    let mut k: usize = 0;
    while k < items.len()
        invariant
            k <= items.len(),
            views_of(r@) == views_of(items@).take(k as int),
        decreases items.len() - k,
    {
        let ghost prev = r@;
        r.push(items[k].clone());
        assert(views_of(r@) =~= views_of(prev).push(items@[k as int]@));
        assert(views_of(items@).take(k + 1) =~= views_of(items@).take(k as int).push(items@[k as int]@));
        k = k + 1;
    }
    assert(views_of(items@).take(k as int) =~= views_of(items@));
    r
}

/// The names in `all` that start with `input`.
fn matching(all: &Vec<String>, input: &String) -> (r: Vec<String>)
    ensures
        views_of(r@) == completions(views_of(all@), input@),
{
    let p = chars_of(input.as_str());
    let ghost names = views_of(all@);
    let ghost pred = |b: Seq<char>| starts_with(b, input@);
    let mut r: Vec<String> = Vec::new();
    let mut k: usize = 0;
    while k < all.len()
        invariant
            k <= all.len(),
            p@ == input@,
            names == views_of(all@),
            pred == (|b: Seq<char>| starts_with(b, input@)),
            views_of(r@) == names.take(k as int).filter(pred),
        decreases all.len() - k,
    {
        proof {
            reveal(Seq::filter);
        }
        let ghost pre = names.take(k as int);
        let ghost post = names.take(k + 1);
        assert(names[k as int] == all@[k as int]@);
        assert(post.last() == names[k as int]);
        assert(post.drop_last() =~= pre);
        if has_prefix(all[k].as_str(), &p) {
            let ghost prev = r@;
            r.push(all[k].clone());
            assert(views_of(r@) =~= views_of(prev).push(names[k as int]));
        }
        k = k + 1;
    }
    assert(names.take(k as int) =~= names);
    r
}

/// The position of the first name in `items` that starts with `input`.
fn first_prefixed(items: &Vec<String>, input: &String) -> (r: Option<usize>)
    ensures
        r == first_match(views_of(items@), input@),
{
    let p = chars_of(input.as_str());
    let ghost names = views_of(items@);
    let ghost pred = |b: Seq<char>| starts_with(b, input@);
    let mut k: usize = 0;
    while k < items.len()
        invariant
            k <= items.len(),
            p@ == input@,
            names == views_of(items@),
            pred == (|b: Seq<char>| starts_with(b, input@)),
            forall|j: int| 0 <= j < k ==> !pred(names[j]),
        decreases items.len() - k,
    {
        assert(names[k as int] == items@[k as int]@);
        if has_prefix(items[k].as_str(), &p) {
            proof {
                lemma_first_index(names, pred, k as int);
            }
            return Some(k);
        }
        k = k + 1;
    }
    proof {
        lemma_first_index(names, pred, k as int);
    }
    None
}

/// The view that adds a branch to a project: what was typed, and the
/// repository's branches that start with it, one of which may be selected.
pub struct AddBranchWidget {
    project_path: String,
    all_branches: Vec<String>,
    add_branch_input: String,
    add_branch_autocomplete: StatefulList<String>,
}

impl AddBranchWidget {
    /// The project's path.
    pub closed spec fn path(&self) -> Seq<char> {
        self.project_path@
    }

    /// Every branch the repository has.
    pub closed spec fn all(&self) -> Seq<Seq<char>> {
        views_of(self.all_branches@)
    }

    /// What was typed.
    pub closed spec fn typed(&self) -> Seq<char> {
        self.add_branch_input@
    }

    /// The completions offered and the selected one.
    pub closed spec fn completion(&self) -> ListView<String> {
        self.add_branch_autocomplete@
    }

    /// The view for the project at `project_path`, offering every branch of
    /// `all_branches` before anything is typed.
    pub fn new(project_path: String, all_branches: Vec<String>) -> (r: AddBranchWidget)
        ensures
            r.path() == project_path@,
            r.all() == views_of(all_branches@),
            r.typed() == Seq::<char>::empty(),
            views_of(r.completion().items) == views_of(all_branches@),
            r.completion().selected is None,
    {
        let offered = copy_names(&all_branches);
        AddBranchWidget {
            project_path,
            all_branches,
            add_branch_input: String::new(),
            add_branch_autocomplete: StatefulList::with_items(offered),
        }
    }

    /// The branch to add: the selected completion, or else what was typed.
    pub fn get_branch_name(&self) -> (r: String)
        ensures
            r@ == match selected_name(self.completion()) {
                Some(n) => n,
                None => self.typed(),
            },
    {
        match self.add_branch_autocomplete.selected() {
            Some(i) => {
                if i < self.add_branch_autocomplete.items().len() {
                    self.add_branch_autocomplete.items()[i].clone()
                } else {
                    self.add_branch_input.clone()
                }
            },
            None => self.add_branch_input.clone(),
        }
    }

    /// Adds the branch of `get_branch_name` to the project in `db`; an empty
    /// name adds nothing.
    pub fn add_branch(&self, db: &mut DB) -> (r: Result<(), StoreError>)
        ensures
            ({
                let name = match selected_name(self.completion()) {
                    Some(n) => n,
                    None => self.typed(),
                };
                let i = project_index(old(db)@, self.path());
                if name.len() == 0 {
                    r is Ok && final(db)@ == old(db)@
                } else if i == old(db)@.len() {
                    r == Err::<(), StoreError>(StoreError::NotFound) && final(db)@ == old(db)@
                } else {
                    r is Ok && final(db)@ == old(db)@.update(i as int, with_branch(old(db)@[i as int], name))
                }
            }),
    {
        proof {
            lemma_first_index_bounds(old(db)@, |p: ProjectView| p.path == self.path());
        }
        let new_branch = self.get_branch_name();
        if new_branch.as_str().is_empty() {
            return Ok(());
        }
        add_branch(db, self.project_path.as_str(), new_branch)
    }

    /// Offers again the branches that start with what was typed, none selected.
    pub fn update_autocomplete(&mut self)
        ensures
            final(self).path() == old(self).path(),
            final(self).all() == old(self).all(),
            final(self).typed() == old(self).typed(),
            views_of(final(self).completion().items) == completions(old(self).all(), old(self).typed()),
            final(self).completion().selected is None,
    {
        let items = matching(&self.all_branches, &self.add_branch_input);
        self.add_branch_autocomplete.set_items(items);
        self.add_branch_autocomplete.select(None);
    }

    /// Types a character and updates the completions.
    pub fn input_char(&mut self, c: char)
        ensures
            final(self).path() == old(self).path(),
            final(self).all() == old(self).all(),
            final(self).typed() == old(self).typed().push(c),
            views_of(final(self).completion().items) == completions(old(self).all(), old(self).typed().push(c)),
            final(self).completion().selected is None,
    {
        push_char(&mut self.add_branch_input, c);
        self.update_autocomplete();
    }

    /// Erases the last typed character and updates the completions.
    pub fn remove_char(&mut self)
        ensures
            final(self).path() == old(self).path(),
            final(self).all() == old(self).all(),
            final(self).typed() == if old(self).typed().len() == 0 {
                old(self).typed()
            } else {
                old(self).typed().drop_last()
            },
            views_of(final(self).completion().items) == completions(final(self).all(), final(self).typed()),
            final(self).completion().selected is None,
    {
        pop_char(&mut self.add_branch_input);
        self.update_autocomplete();
    }

    /// Erases what was typed and offers every branch again.
    pub fn clear(&mut self)
        ensures
            final(self).path() == old(self).path(),
            final(self).all() == old(self).all(),
            final(self).typed() == Seq::<char>::empty(),
            views_of(final(self).completion().items) == completions(old(self).all(), Seq::<char>::empty()),
            final(self).completion().selected is None,
    {
        self.add_branch_input = String::new();
        self.update_autocomplete();
    }

    /// Leaves the current context: with a completion selected, only the
    /// selection is dropped; otherwise the typed text is cleared and the
    /// view is left.
    pub fn exit_context(&mut self) -> (r: ExitContextResult)
        ensures
            old(self).completion().selected is Some ==> r == ExitContextResult::Continue
                && final(self).typed() == old(self).typed()
                && final(self).completion().items == old(self).completion().items
                && final(self).completion().selected is None,
            old(self).completion().selected is None ==> r == ExitContextResult::Exit
                && final(self).typed() == Seq::<char>::empty()
                && views_of(final(self).completion().items) == completions(old(self).all(), Seq::<char>::empty())
                && final(self).completion().selected is None,
            final(self).path() == old(self).path(),
            final(self).all() == old(self).all(),
    {
        match self.add_branch_autocomplete.selected() {
            Some(_) => {
                self.add_branch_autocomplete.select(None);
                ExitContextResult::Continue
            },
            None => {
                self.clear();
                ExitContextResult::Exit
            },
        }
    }

    /// Selects the next completion.
    pub fn next(&mut self)
        ensures
            final(self).completion() == crate::list::next_spec(old(self).completion()),
            final(self).typed() == old(self).typed(),
            final(self).path() == old(self).path(),
            final(self).all() == old(self).all(),
    {
        self.add_branch_autocomplete.next();
    }

    /// Selects the previous completion.
    pub fn previous(&mut self)
        ensures
            final(self).completion() == crate::list::previous_spec(old(self).completion()),
            final(self).typed() == old(self).typed(),
            final(self).path() == old(self).path(),
            final(self).all() == old(self).all(),
    {
        self.add_branch_autocomplete.previous();
    }

    /// What was typed.
    pub fn input(&self) -> (r: &String)
        ensures
            r@ == self.typed(),
    {
        &self.add_branch_input
    }

    /// The completions and the selected one.
    pub fn autocomplete(&self) -> (r: &StatefulList<String>)
        ensures
            r@ == self.completion(),
    {
        &self.add_branch_autocomplete
    }
}


/// The view that lists a project's saved branches: choosing one to check
/// out, searching by prefix, reordering and removing.
pub struct ChangeBranchesWidget {
    pub mode: ChangeBranchesWidgetMode,
    project_path: String,
    saved_branches: StatefulList<String>,
    input: String,
    cur_branch: String,
}

/// The names of a list's items.
pub open spec fn item_names(l: ListView<String>) -> Seq<Seq<char>> {
    views_of(l.items)
}

impl ChangeBranchesWidget {
    /// Whether typed characters go to the search text.
    pub closed spec fn current_mode(&self) -> ChangeBranchesWidgetMode {
        self.mode
    }

    /// The project's path.
    pub closed spec fn path(&self) -> Seq<char> {
        self.project_path@
    }

    /// The saved branches and the selected one.
    pub closed spec fn list(&self) -> ListView<String> {
        self.saved_branches@
    }

    /// The search text.
    pub closed spec fn typed(&self) -> Seq<char> {
        self.input@
    }

    /// The branch checked out when the view was made.
    pub closed spec fn current(&self) -> Seq<char> {
        self.cur_branch@
    }

    /// The view of the project at `project_path` with its `saved_branches`,
    /// where `cur_branch` is checked out; nothing selected or typed yet.
    pub fn new(project_path: String, saved_branches: Vec<String>, cur_branch: String) -> (r:
        ChangeBranchesWidget)
        ensures
            r.current_mode() == ChangeBranchesWidgetMode::Normal,
            r.path() == project_path@,
            r.list() == (ListView { items: saved_branches@, selected: None }),
            r.typed() == Seq::<char>::empty(),
            r.current() == cur_branch@,
    {
        ChangeBranchesWidget {
            mode: ChangeBranchesWidgetMode::Normal,
            project_path,
            saved_branches: StatefulList::with_items(saved_branches),
            input: String::new(),
            cur_branch,
        }
    }

    /// Selects the next saved branch.
    pub fn next(&mut self)
        ensures
            final(self).list() == crate::list::next_spec(old(self).list()),
            final(self).current_mode() == old(self).current_mode(),
            final(self).path() == old(self).path(),
            final(self).typed() == old(self).typed(),
            final(self).current() == old(self).current(),
    {
        self.saved_branches.next();
    }

    /// Selects the previous saved branch.
    pub fn previous(&mut self)
        ensures
            final(self).list() == crate::list::previous_spec(old(self).list()),
            final(self).current_mode() == old(self).current_mode(),
            final(self).path() == old(self).path(),
            final(self).typed() == old(self).typed(),
            final(self).current() == old(self).current(),
    {
        self.saved_branches.previous();
    }

    fn store_order(&self, db: &mut DB) -> (r: Result<(), StoreError>)
        ensures
            project_index(old(db)@, self.path()) == old(db)@.len() ==> r == Err::<(), StoreError>(
                StoreError::NotFound,
            ) && final(db)@ == old(db)@,
            project_index(old(db)@, self.path()) < old(db)@.len() ==> r is Ok && final(db)@ == old(db)@.update(
                project_index(old(db)@, self.path()) as int,
                ProjectView {
                    path: old(db)@[project_index(old(db)@, self.path()) as int].path,
                    branches: item_names(self.list()),
                },
            ),
    {
        let order = names_of(self.saved_branches.items());
        set_branches(db, self.project_path.as_str(), order)
    }

    /// Moves the selected branch one place down, the last one to the top, and
    /// stores the new order for the project in `db`.
    pub fn swap_down(&mut self, db: &mut DB) -> (r: Result<(), StoreError>)
        ensures
            final(self).list() == swap_down_spec(old(self).list()),
            final(self).current_mode() == old(self).current_mode(),
            final(self).path() == old(self).path(),
            final(self).typed() == old(self).typed(),
            final(self).current() == old(self).current(),
            project_index(old(db)@, old(self).path()) == old(db)@.len() ==> r == Err::<(), StoreError>(
                StoreError::NotFound,
            ) && final(db)@ == old(db)@,
            project_index(old(db)@, old(self).path()) < old(db)@.len() ==> r is Ok && final(db)@
                == old(db)@.update(
                project_index(old(db)@, old(self).path()) as int,
                ProjectView {
                    path: old(db)@[project_index(old(db)@, old(self).path()) as int].path,
                    branches: item_names(final(self).list()),
                },
            ),
    {
        self.saved_branches.swap_down();
        self.store_order(db)
    }

    /// Moves the selected branch one place up, the first one to the bottom,
    /// and stores the new order for the project in `db`.
    pub fn swap_up(&mut self, db: &mut DB) -> (r: Result<(), StoreError>)
        ensures
            final(self).list() == swap_up_spec(old(self).list()),
            final(self).current_mode() == old(self).current_mode(),
            final(self).path() == old(self).path(),
            final(self).typed() == old(self).typed(),
            final(self).current() == old(self).current(),
            project_index(old(db)@, old(self).path()) == old(db)@.len() ==> r == Err::<(), StoreError>(
                StoreError::NotFound,
            ) && final(db)@ == old(db)@,
            project_index(old(db)@, old(self).path()) < old(db)@.len() ==> r is Ok && final(db)@
                == old(db)@.update(
                project_index(old(db)@, old(self).path()) as int,
                ProjectView {
                    path: old(db)@[project_index(old(db)@, old(self).path()) as int].path,
                    branches: item_names(final(self).list()),
                },
            ),
    {
        self.saved_branches.swap_up();
        self.store_order(db)
    }

    /// In search mode, types a character and selects the first saved branch
    /// that starts with the search text, or nothing when none does. In normal
    /// mode nothing changes.
    pub fn input_char(&mut self, c: char)
        ensures
            final(self).current_mode() == old(self).current_mode(),
            final(self).path() == old(self).path(),
            final(self).current() == old(self).current(),
            final(self).list().items == old(self).list().items,
            old(self).current_mode() == ChangeBranchesWidgetMode::Search ==> final(self).typed() == old(self).typed().push(c) && final(self).list().selected == first_match(
                item_names(old(self).list()),
                old(self).typed().push(c),
            ),
            old(self).current_mode() == ChangeBranchesWidgetMode::Normal ==> final(self).typed() == old(self).typed() && final(self).list() == old(self).list(),
    {
        if self.mode == ChangeBranchesWidgetMode::Search {
            push_char(&mut self.input, c);
            let found = first_prefixed(self.saved_branches.items(), &self.input);
            self.saved_branches.select(found);
        }
    }

    /// In search mode, erases the last character of the search text.
    pub fn remove_char(&mut self)
        ensures
            final(self).current_mode() == old(self).current_mode(),
            final(self).path() == old(self).path(),
            final(self).current() == old(self).current(),
            final(self).list() == old(self).list(),
            final(self).typed() == if old(self).current_mode() == ChangeBranchesWidgetMode::Search && old(self).typed().len() > 0 {
                old(self).typed().drop_last()
            } else {
                old(self).typed()
            },
    {
        if self.mode == ChangeBranchesWidgetMode::Search {
            pop_char(&mut self.input);
        }
    }

    /// Erases the search text.
    pub fn clear_input(&mut self)
        ensures
            final(self).current_mode() == old(self).current_mode(),
            final(self).path() == old(self).path(),
            final(self).current() == old(self).current(),
            final(self).list() == old(self).list(),
            final(self).typed() == Seq::<char>::empty(),
    {
        self.input = String::new();
    }

    /// The branch to check out for the selection: `None` when it is the
    /// branch already checked out, `NoBranchSelected` without a selection.
    pub fn checkout_selected(&self) -> (r: Result<Option<String>, WidgetError>)
        ensures
            selected_name(self.list()) is None ==> r == Err::<Option<String>, WidgetError>(
                WidgetError::NoBranchSelected,
            ),
            selected_name(self.list()) is Some && selected_name(self.list())->0 == self.current()
                ==> r matches Ok(None),
            selected_name(self.list()) is Some && selected_name(self.list())->0 != self.current()
                ==> (r matches Ok(Some(b)) && b@ == selected_name(self.list())->0),
    {
        match self.saved_branches.selected() {
            Some(i) => {
                if i >= self.saved_branches.items().len() {
                    return Err(WidgetError::NoBranchSelected);
                }
                let branch = &self.saved_branches.items()[i];
                if *branch == self.cur_branch {
                    Ok(None)
                } else {
                    Ok(Some(branch.clone()))
                }
            },
            None => Err(WidgetError::NoBranchSelected),
        }
    }

    /// Lists again the branches that `db` holds for the project, with
    /// nothing selected.
    pub fn reload_saved_branches(&mut self, db: &DB) -> (r: Result<(), StoreError>)
        ensures
            final(self).current_mode() == old(self).current_mode(),
            final(self).path() == old(self).path(),
            final(self).current() == old(self).current(),
            final(self).typed() == old(self).typed(),
            project_index(db@, old(self).path()) == db@.len() ==> r == Err::<(), StoreError>(
                StoreError::NotFound,
            ) && final(self).list() == old(self).list(),
            project_index(db@, old(self).path()) < db@.len() ==> r is Ok && item_names(
                final(self).list(),
            ) == db@[project_index(db@, old(self).path()) as int].branches && final(self).list().selected is None,
    {
        let branches = match get_branches(db, self.project_path.as_str()) {
            Ok(bs) => bs,
            Err(e) => return Err(e),
        };
        let mut names: Vec<String> = Vec::new();
        let mut k: usize = 0;
        while k < branches.len()
            invariant
                k <= branches.len(),
                views_of(names@) == branch_names(branches@).take(k as int),
            decreases branches.len() - k,
        {
            let ghost prev = names@;
            names.push(branches[k].name.clone());
            assert(views_of(names@) =~= views_of(prev).push(branches@[k as int]@));
            assert(branch_names(branches@).take(k + 1) =~= branch_names(branches@).take(k as int).push(branches@[k as int]@));
            k = k + 1;
        }
        assert(branch_names(branches@).take(k as int) =~= branch_names(branches@));
        self.saved_branches = StatefulList::with_items(names);
        Ok(())
    }

    /// Removes the selected branch from the project in `db` and lists the
    /// remaining ones. `NoBranchSelected` without a selection.
    pub fn remove_selected(&mut self, db: &mut DB) -> (r: Result<(), WidgetError>)
        ensures
            final(self).current_mode() == old(self).current_mode(),
            final(self).path() == old(self).path(),
            selected_name(old(self).list()) is None ==> r == Err::<(), WidgetError>(
                WidgetError::NoBranchSelected,
            ) && final(db)@ == old(db)@,
            selected_name(old(self).list()) is Some && project_index(old(db)@, old(self).path())
                == old(db)@.len() ==> r == Err::<(), WidgetError>(
                WidgetError::Store(StoreError::NotFound),
            ) && final(db)@ == old(db)@,
            selected_name(old(self).list()) is Some && project_index(old(db)@, old(self).path())
                < old(db)@.len() ==> r is Ok && final(db)@ == old(db)@.update(
                project_index(old(db)@, old(self).path()) as int,
                without_branch(
                    old(db)@[project_index(old(db)@, old(self).path()) as int],
                    selected_name(old(self).list())->0,
                ),
            ) && item_names(final(self).list()) == final(db)@[project_index(
                old(db)@,
                old(self).path(),
            ) as int].branches,
    {
        let branch = match self.saved_branches.selected() {
            Some(i) => {
                if i >= self.saved_branches.items().len() {
                    return Err(WidgetError::NoBranchSelected);
                }
                self.saved_branches.items()[i].clone()
            },
            None => return Err(WidgetError::NoBranchSelected),
        };
        match remove_branch(db, self.project_path.as_str(), branch) {
            Ok(()) => {},
            Err(e) => return Err(WidgetError::Store(e)),
        }
        proof {
            lemma_first_index_bounds(old(db)@, |p: ProjectView| p.path == self.path());
            let i = project_index(old(db)@, self.path()) as int;
            lemma_first_index(db@, |p: ProjectView| p.path == self.path(), i);
        }
        match self.reload_saved_branches(db) {
            Ok(()) => Ok(()),
            Err(e) => Err(WidgetError::Store(e)),
        }
    }

    /// The search text.
    pub fn input(&self) -> (r: &String)
        ensures
            r@ == self.typed(),
    {
        &self.input
    }

    /// The saved branches and the selected one.
    pub fn saved_branches(&self) -> (r: &StatefulList<String>)
        ensures
            r@ == self.list(),
    {
        &self.saved_branches
    }

    /// The branch checked out when the view was made.
    pub fn cur_branch(&self) -> (r: &String)
        ensures
            r@ == self.current(),
    {
        &self.cur_branch
    }

    /// The project's path.
    pub fn project_path(&self) -> (r: &String)
        ensures
            r@ == self.path(),
    {
        &self.project_path
    }
}

} // verus!
