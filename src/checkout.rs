//! The decisions of a checkout: which git command comes next and what the
//! caller is told, from the result of the command before. The worker that runs
//! the commands feeds each result to `Checkout::step` and performs what it
//! returns, until no command is left.
//!
//! The sequence: read the current branch; stash local changes under the tag
//! of that branch; check out the target; look up the newest stash with that
//! tag and, when there is one, pop it; then report `Done`. A failure ends the
//! sequence with `Failed`, except that a failed stash is reported as progress
//! text and the sequence goes on. After a failed checkout nothing is popped:
//! the user's changes stay in the stash.
use vstd::prelude::*;
use vstd::string::StringExecFns;
use crate::git::{
    GitError, ErrorView, Git, args_of, current_branch_of, error_text, last_stashed, stash_tag,
    trim_text,
};
use crate::text::views_of;

verus! {

/// Where a checkout stands: the command whose result it waits for, or the end.
#[derive(PartialEq, Eq, Structural, Clone, Copy, Debug)]
pub enum CheckoutPhase {
    ReadingHead,
    Stashing,
    CheckingOut,
    FindingStash,
    PoppingStash,
    Finished,
}

/// A message to the caller that follows a checkout.
#[derive(Debug, PartialEq, Eq)]
pub enum CheckoutStatus {
    /// The output of a step, or the text of a stash that could not be made.
    Progress(String),
    /// The checkout ended well.
    Done,
    /// The checkout stopped at the given error.
    Failed(GitError),
}

/// What a `CheckoutStatus` holds.
pub enum StatusView {
    Progress(Seq<char>),
    Done,
    Failed(ErrorView),
}

impl View for CheckoutStatus {
    type V = StatusView;

    open spec fn view(&self) -> StatusView {
        match self {
            CheckoutStatus::Progress(t) => StatusView::Progress(t@),
            CheckoutStatus::Done => StatusView::Done,
            CheckoutStatus::Failed(e) => StatusView::Failed(e@),
        }
    }
}

/// `Done` and `Failed` end a checkout.
pub open spec fn status_ends(s: StatusView) -> bool {
    !(s is Progress)
}

impl CheckoutStatus {
    /// Whether the status ends a checkout.
    pub fn is_terminal(&self) -> (r: bool)
        ensures
            r == status_ends(self@),
    {
        !matches!(self, CheckoutStatus::Progress(_))
    }
}

/// A checkout of one branch, from its first command to its end.
pub struct Checkout {
    branch: String,
    current: String,
    phase: CheckoutPhase,
}

/// What a checkout holds: where it stands, the target branch, and the branch
/// it left (known once the first command has answered).
pub struct CheckoutView {
    pub phase: CheckoutPhase,
    pub branch: Seq<char>,
    pub current: Seq<char>,
}

impl View for Checkout {
    type V = CheckoutView;

    closed spec fn view(&self) -> CheckoutView {
        CheckoutView { phase: self.phase, branch: self.branch@, current: self.current@ }
    }
}

/// What one step decides: the statuses to hand the caller, in order, and the
/// next command to run, if any.
pub struct CheckoutStep {
    pub statuses: Vec<CheckoutStatus>,
    pub command: Option<Vec<String>>,
}

/// What a step decides, over views.
pub struct StepView {
    pub machine: CheckoutView,
    pub statuses: Seq<StatusView>,
    pub command: Option<Seq<Seq<char>>>,
}

/// The result of a git run, as a step reads it.
pub open spec fn event_view(ev: Result<String, GitError>) -> Result<Seq<char>, ErrorView> {
    match ev {
        Ok(t) => Ok(t@),
        Err(e) => Err(e@),
    }
}

/// `git rev-parse --abbrev-ref HEAD`: names the current branch.
pub open spec fn head_args() -> Seq<Seq<char>> {
    seq!["rev-parse"@, "--abbrev-ref"@, "HEAD"@]
}

/// `git stash -m <tag>`: stashes local changes under the tag of `current`.
pub open spec fn stash_args(current: Seq<char>) -> Seq<Seq<char>> {
    seq!["stash"@, "-m"@, stash_tag(current)]
}

/// `git checkout <branch>`.
pub open spec fn checkout_args(branch: Seq<char>) -> Seq<Seq<char>> {
    seq!["checkout"@, branch]
}

/// `git stash list`: every stash, newest first.
pub open spec fn stash_list_args() -> Seq<Seq<char>> {
    seq!["stash"@, "list"@]
}

/// `git stash pop <stash>`.
pub open spec fn pop_args(stash: Seq<char>) -> Seq<Seq<char>> {
    seq!["stash"@, "pop"@, stash]
}

/// A command that pops a stash.
pub open spec fn is_pop(c: Seq<Seq<char>>) -> bool {
    c.len() >= 2 && c[0] == "stash"@ && c[1] == "pop"@
}

/// `m` moved to `phase`.
pub open spec fn at(m: CheckoutView, phase: CheckoutPhase) -> CheckoutView {
    CheckoutView { phase, branch: m.branch, current: m.current }
}

/// The step that ends a checkout with the error `e`.
pub open spec fn fail(m: CheckoutView, e: ErrorView) -> StepView {
    StepView {
        machine: at(m, CheckoutPhase::Finished),
        statuses: seq![StatusView::Failed(e)],
        command: None,
    }
}

/// The step a checkout takes on the result of the command it waits for.
pub open spec fn next_step(m: CheckoutView, ev: Result<Seq<char>, ErrorView>) -> StepView {
    match m.phase {
        CheckoutPhase::ReadingHead => match ev {
            Ok(out) => {
                let current = current_branch_of(out);
                StepView {
                    machine: CheckoutView {
                        phase: CheckoutPhase::Stashing,
                        branch: m.branch,
                        current,
                    },
                    statuses: seq![],
                    command: Some(stash_args(current)),
                }
            },
            Err(e) => fail(m, e),
        },
        CheckoutPhase::Stashing => StepView {
            machine: at(m, CheckoutPhase::CheckingOut),
            statuses: match ev {
                Ok(out) => seq![StatusView::Progress(out)],
                Err(e) => seq![StatusView::Progress(error_text(e))],
            },
            command: Some(checkout_args(m.branch)),
        },
        CheckoutPhase::CheckingOut => match ev {
            Ok(out) => StepView {
                machine: at(m, CheckoutPhase::FindingStash),
                statuses: seq![StatusView::Progress(out)],
                command: Some(stash_list_args()),
            },
            Err(e) => fail(m, e),
        },
        CheckoutPhase::FindingStash => match ev {
            Ok(listing) => match last_stashed(listing, m.current) {
                Some(stash) => StepView {
                    machine: at(m, CheckoutPhase::PoppingStash),
                    statuses: seq![],
                    command: Some(pop_args(stash)),
                },
                None => StepView {
                    machine: at(m, CheckoutPhase::Finished),
                    statuses: seq![StatusView::Done],
                    command: None,
                },
            },
            Err(e) => fail(m, e),
        },
        CheckoutPhase::PoppingStash => match ev {
            Ok(out) => StepView {
                machine: at(m, CheckoutPhase::Finished),
                statuses: seq![StatusView::Progress(out), StatusView::Done],
                command: None,
            },
            Err(e) => fail(m, e),
        },
        CheckoutPhase::Finished => StepView { machine: m, statuses: seq![], command: None },
    }
}

/// The views of a list of statuses.
pub open spec fn status_views(v: Seq<CheckoutStatus>) -> Seq<StatusView> {
    v.map_values(|s: CheckoutStatus| s@)
}

impl CheckoutStep {
    /// The step over views, with `machine` the checkout after it.
    pub open spec fn view_with(self, machine: CheckoutView) -> StepView {
        StepView {
            machine,
            statuses: status_views(self.statuses@),
            command: match self.command {
                Some(c) => Some(views_of(c@)),
                None => None,
            },
        }
    }
}

impl Checkout {
    /// A checkout of `branch`, and its first command: the one that reads the
    /// current branch.
    pub fn start(branch: String) -> (r: (Checkout, Vec<String>))
        ensures
            r.0@ == (CheckoutView {
                phase: CheckoutPhase::ReadingHead,
                branch: branch@,
                current: seq![],
            }),
            views_of(r.1@) == head_args(),
    {
        (
            Checkout { branch, current: String::new(), phase: CheckoutPhase::ReadingHead },
            Git::current_branch_args(),
        )
    }

    /// Whether the checkout has ended.
    pub fn is_finished(&self) -> (r: bool)
        ensures
            r == (self@.phase == CheckoutPhase::Finished),
    {
        self.phase == CheckoutPhase::Finished
    }

    /// Takes the result of the command the checkout waits for and decides
    /// what the caller is told and which command comes next.
    pub fn step(&mut self, ev: Result<String, GitError>) -> (r: CheckoutStep)
        ensures
            r.view_with(final(self)@) == next_step(old(self)@, event_view(ev)),
    {
        let ghost m = self@;
        match self.phase {
            CheckoutPhase::ReadingHead => match ev {
                Ok(out) => {
                    let current = String::from_str(trim_text(out.as_str()));
                    let msg = Git::stash_message(current.as_str());
                    let command = args_of(vec!["stash", "-m", msg.as_str()]);
                    self.current = current;
                    self.phase = CheckoutPhase::Stashing;
                    let r = CheckoutStep { statuses: Vec::new(), command: Some(command) };
                    assert(status_views(r.statuses@) =~= seq![]);
                    assert(views_of(command@) =~= stash_args(self.current@));
                    r
                },
                Err(e) => self.fail(e),
            },
            CheckoutPhase::Stashing => {
                let text = match ev {
                    Ok(out) => out,
                    Err(e) => e.message(),
                };
                let command = args_of(vec!["checkout", self.branch.as_str()]);
                self.phase = CheckoutPhase::CheckingOut;
                let r = CheckoutStep {
                    statuses: vec![CheckoutStatus::Progress(text)],
                    command: Some(command),
                };
                assert(status_views(r.statuses@) =~= next_step(m, event_view(ev)).statuses);
                assert(views_of(command@) =~= checkout_args(self.branch@));
                r
            },
            CheckoutPhase::CheckingOut => match ev {
                Ok(out) => {
                    self.phase = CheckoutPhase::FindingStash;
                    let r = CheckoutStep {
                        statuses: vec![CheckoutStatus::Progress(out)],
                        command: Some(Git::stash_list_args()),
                    };
                    assert(status_views(r.statuses@) =~= next_step(m, event_view(ev)).statuses);
                    r
                },
                Err(e) => self.fail(e),
            },
            CheckoutPhase::FindingStash => match ev {
                Ok(listing) => match Git::get_last_stashed(self.current.as_str(), listing.as_str()) {
                    Some(stash) => {
                        let command = args_of(vec!["stash", "pop", stash.as_str()]);
                        self.phase = CheckoutPhase::PoppingStash;
                        let r = CheckoutStep { statuses: Vec::new(), command: Some(command) };
                        assert(status_views(r.statuses@) =~= seq![]);
                        assert(views_of(command@) =~= pop_args(stash@));
                        r
                    },
                    None => {
                        self.phase = CheckoutPhase::Finished;
                        let r = CheckoutStep { statuses: vec![CheckoutStatus::Done], command: None };
                        assert(status_views(r.statuses@) =~= seq![StatusView::Done]);
                        r
                    },
                },
                Err(e) => self.fail(e),
            },
            CheckoutPhase::PoppingStash => match ev {
                Ok(out) => {
                    self.phase = CheckoutPhase::Finished;
                    let r = CheckoutStep {
                        statuses: vec![CheckoutStatus::Progress(out), CheckoutStatus::Done],
                        command: None,
                    };
                    assert(status_views(r.statuses@) =~= next_step(m, event_view(ev)).statuses);
                    r
                },
                Err(e) => self.fail(e),
            },
            CheckoutPhase::Finished => {
                let r = CheckoutStep { statuses: Vec::new(), command: None };
                assert(status_views(r.statuses@) =~= seq![]);
                r
            },
        }
    }

    fn fail(&mut self, e: GitError) -> (r: CheckoutStep)
        ensures
            r.view_with(final(self)@) == fail(old(self)@, e@),
    {
        self.phase = CheckoutPhase::Finished;
        let ghost ev = e@;
        let r = CheckoutStep { statuses: vec![CheckoutStatus::Failed(e)], command: None };
        assert(status_views(r.statuses@) =~= seq![StatusView::Failed(ev)]);
        r
    }
}


/// The statuses and commands of a checkout that starts at `m` and receives
/// the results `evs`, one for each command, and where it stands after them.
pub struct RunView {
    pub machine: CheckoutView,
    pub statuses: Seq<StatusView>,
    pub commands: Seq<Seq<Seq<char>>>,
}

/// Steps `m` through `evs` in order.
pub open spec fn run(m: CheckoutView, evs: Seq<Result<Seq<char>, ErrorView>>) -> RunView
    decreases evs.len(),
{
    if evs.len() == 0 {
        RunView { machine: m, statuses: seq![], commands: seq![] }
    } else {
        let s = next_step(m, evs[0]);
        let rest = run(s.machine, evs.drop_first());
        RunView {
            machine: rest.machine,
            statuses: s.statuses + rest.statuses,
            commands: match s.command {
                Some(c) => seq![c] + rest.commands,
                None => rest.commands,
            },
        }
    }
}

/// A checkout of `branch` just started, waiting for its first result.
pub open spec fn started(branch: Seq<char>) -> CheckoutView {
    CheckoutView { phase: CheckoutPhase::ReadingHead, branch, current: seq![] }
}

/// The commands of a whole checkout: the first one and those its steps return.
pub open spec fn issued(branch: Seq<char>, evs: Seq<Result<Seq<char>, ErrorView>>) -> Seq<
    Seq<Seq<char>>,
> {
    seq![head_args()] + run(started(branch), evs).commands
}

proof fn lemma_run_finished(m: CheckoutView, evs: Seq<Result<Seq<char>, ErrorView>>)
    requires
        m.phase == CheckoutPhase::Finished,
    ensures
        run(m, evs) == (RunView { machine: m, statuses: seq![], commands: seq![] }),
    decreases evs.len(),
{
    if evs.len() > 0 {
        lemma_run_finished(m, evs.drop_first());
        assert(seq![] + Seq::<StatusView>::empty() =~= Seq::<StatusView>::empty());
    }
}

proof fn lemma_literals_differ()
    ensures
        "pop"@ != "-m"@,
        "pop"@ != "--abbrev-ref"@,
        "stash"@ != "checkout"@,
        "stash"@ != "rev-parse"@,
{
    reveal_strlit("pop");
    reveal_strlit("-m");
    reveal_strlit("--abbrev-ref");
    reveal_strlit("stash");
    reveal_strlit("checkout");
    reveal_strlit("rev-parse");
    assert("pop"@.len() != "-m"@.len());
    assert("pop"@.len() != "--abbrev-ref"@.len());
    assert("stash"@.len() != "checkout"@.len());
    assert("stash"@.len() != "rev-parse"@.len());
}

/// A checkout where every command succeeds tells the caller, in this order,
/// the output of the stash, the output of the checkout, the output of the pop
/// when a stash tagged for the branch it left exists, and `Done`; it runs the
/// commands in the order read HEAD, stash, check out, list stashes, pop.
pub proof fn lemma_successful_checkout_order(
    branch: Seq<char>,
    head: Seq<char>,
    stash_out: Seq<char>,
    checkout_out: Seq<char>,
    listing: Seq<char>,
    pop_out: Seq<char>,
)
    ensures
        ({
            let current = current_branch_of(head);
            match last_stashed(listing, current) {
                Some(stash) => {
                    let evs = seq![Ok(head), Ok(stash_out), Ok(checkout_out), Ok(listing), Ok(pop_out)];
                    &&& run(started(branch), evs).statuses == seq![
                        StatusView::Progress(stash_out),
                        StatusView::Progress(checkout_out),
                        StatusView::Progress(pop_out),
                        StatusView::Done,
                    ]
                    &&& issued(branch, evs) == seq![
                        head_args(),
                        stash_args(current),
                        checkout_args(branch),
                        stash_list_args(),
                        pop_args(stash),
                    ]
                    &&& run(started(branch), evs).machine.phase == CheckoutPhase::Finished
                },
                None => {
                    let evs = seq![Ok(head), Ok(stash_out), Ok(checkout_out), Ok(listing)];
                    &&& run(started(branch), evs).statuses == seq![
                        StatusView::Progress(stash_out),
                        StatusView::Progress(checkout_out),
                        StatusView::Done,
                    ]
                    &&& issued(branch, evs) == seq![
                        head_args(),
                        stash_args(current),
                        checkout_args(branch),
                        stash_list_args(),
                    ]
                    &&& run(started(branch), evs).machine.phase == CheckoutPhase::Finished
                },
            }
        }),
{
    let current = current_branch_of(head);
    let m0 = started(branch);
    let m1 = CheckoutView { phase: CheckoutPhase::Stashing, branch, current };
    let m2 = at(m1, CheckoutPhase::CheckingOut);
    let m3 = at(m1, CheckoutPhase::FindingStash);
    let m4 = at(m1, CheckoutPhase::PoppingStash);
    let m5 = at(m1, CheckoutPhase::Finished);
    match last_stashed(listing, current) {
        Some(stash) => {
            let evs: Seq<Result<Seq<char>, ErrorView>> = seq![Ok(head), Ok(stash_out), Ok(checkout_out), Ok(listing), Ok(pop_out)];
            let e1 = evs.drop_first();
            let e2 = e1.drop_first();
            let e3 = e2.drop_first();
            let e4 = e3.drop_first();
            let e5 = e4.drop_first();
            assert(e5.len() == 0);
            assert(e4[0] == Ok::<Seq<char>, ErrorView>(pop_out));
            assert(e3[0] == Ok::<Seq<char>, ErrorView>(listing));
            assert(e2[0] == Ok::<Seq<char>, ErrorView>(checkout_out));
            assert(e1[0] == Ok::<Seq<char>, ErrorView>(stash_out));
            let r5 = run(m5, e5);
            let r4 = run(m4, e4);
            let r3 = run(m3, e3);
            let r2 = run(m2, e2);
            let r1 = run(m1, e1);
            let r0 = run(m0, evs);
            assert(r4.statuses =~= seq![StatusView::Progress(pop_out), StatusView::Done]);
            assert(r3.statuses =~= r4.statuses);
            assert(r2.statuses =~= seq![StatusView::Progress(checkout_out)] + r3.statuses);
            assert(r1.statuses =~= seq![StatusView::Progress(stash_out)] + r2.statuses);
            assert(r0.statuses =~= r1.statuses);
            assert(r4.commands =~= seq![]);
            assert(r3.commands =~= seq![pop_args(stash)]);
            assert(r2.commands =~= seq![stash_list_args(), pop_args(stash)]);
            assert(r1.commands =~= seq![checkout_args(branch), stash_list_args(), pop_args(stash)]);
            assert(r0.commands =~= seq![stash_args(current), checkout_args(branch), stash_list_args(), pop_args(stash)]);
            assert(issued(branch, evs) =~= seq![head_args(), stash_args(current), checkout_args(branch), stash_list_args(), pop_args(stash)]);
        },
        None => {
            let evs: Seq<Result<Seq<char>, ErrorView>> = seq![Ok(head), Ok(stash_out), Ok(checkout_out), Ok(listing)];
            let e1 = evs.drop_first();
            let e2 = e1.drop_first();
            let e3 = e2.drop_first();
            let e4 = e3.drop_first();
            assert(e4.len() == 0);
            assert(e3[0] == Ok::<Seq<char>, ErrorView>(listing));
            assert(e2[0] == Ok::<Seq<char>, ErrorView>(checkout_out));
            assert(e1[0] == Ok::<Seq<char>, ErrorView>(stash_out));
            let r4 = run(m5, e4);
            let r3 = run(m3, e3);
            let r2 = run(m2, e2);
            let r1 = run(m1, e1);
            let r0 = run(m0, evs);
            assert(r3.statuses =~= seq![StatusView::Done]);
            assert(r2.statuses =~= seq![StatusView::Progress(checkout_out)] + r3.statuses);
            assert(r1.statuses =~= seq![StatusView::Progress(stash_out)] + r2.statuses);
            assert(r0.statuses =~= r1.statuses);
            assert(r3.commands =~= seq![]);
            assert(r2.commands =~= seq![stash_list_args()]);
            assert(r1.commands =~= seq![checkout_args(branch), stash_list_args()]);
            assert(r0.commands =~= seq![stash_args(current), checkout_args(branch), stash_list_args()]);
            assert(issued(branch, evs) =~= seq![head_args(), stash_args(current), checkout_args(branch), stash_list_args()]);
        },
    }
}

/// When the checkout command fails after a stash was made, the checkout ends
/// with `Failed` carrying that error, whatever results come after, and no
/// command that pops a stash is ever run: the commands are read HEAD, stash
/// and check out, nothing more.
pub proof fn lemma_failed_checkout_pops_nothing(
    branch: Seq<char>,
    head: Seq<char>,
    stash_out: Seq<char>,
    e: ErrorView,
    later: Seq<Result<Seq<char>, ErrorView>>,
)
    ensures
        ({
            let evs = seq![Ok(head), Ok(stash_out), Err(e)] + later;
            let r = run(started(branch), evs);
            &&& r.statuses == seq![StatusView::Progress(stash_out), StatusView::Failed(e)]
            &&& r.statuses.last() == StatusView::Failed(e)
            &&& r.machine.phase == CheckoutPhase::Finished
            &&& issued(branch, evs) == seq![
                head_args(),
                stash_args(current_branch_of(head)),
                checkout_args(branch),
            ]
            &&& forall|i: int| 0 <= i < issued(branch, evs).len() ==> !is_pop(
                #[trigger] issued(branch, evs)[i],
            )
        }),
{
    let current = current_branch_of(head);
    let evs: Seq<Result<Seq<char>, ErrorView>> = seq![Ok(head), Ok(stash_out), Err(e)] + later;
    let m0 = started(branch);
    let m1 = CheckoutView { phase: CheckoutPhase::Stashing, branch, current };
    let m2 = at(m1, CheckoutPhase::CheckingOut);
    let m3 = at(m1, CheckoutPhase::Finished);
    let e1 = evs.drop_first();
    let e2 = e1.drop_first();
    let e3 = e2.drop_first();
    assert(evs[0] == Ok::<Seq<char>, ErrorView>(head));
    assert(e1[0] == Ok::<Seq<char>, ErrorView>(stash_out));
    assert(e2[0] == Err::<Seq<char>, ErrorView>(e));
    assert(e3 =~= later);
    lemma_run_finished(m3, e3);
    let r2 = run(m2, e2);
    let r1 = run(m1, e1);
    let r0 = run(m0, evs);
    assert(r2.statuses =~= seq![StatusView::Failed(e)]);
    assert(r1.statuses =~= seq![StatusView::Progress(stash_out), StatusView::Failed(e)]);
    assert(r0.statuses =~= r1.statuses);
    assert(r2.commands =~= seq![]);
    assert(r1.commands =~= seq![checkout_args(branch)]);
    assert(r0.commands =~= seq![stash_args(current), checkout_args(branch)]);
    let cmds = issued(branch, evs);
    assert(cmds =~= seq![head_args(), stash_args(current), checkout_args(branch)]);
    lemma_literals_differ();
    assert forall|i: int| 0 <= i < cmds.len() implies !is_pop(#[trigger] cmds[i]) by {
        if i == 0 {
            assert(cmds[0][1] == "--abbrev-ref"@);
        } else if i == 1 {
            assert(cmds[1][1] == "-m"@);
        } else {
            assert(cmds[2][0] == "checkout"@);
        }
    }
}

} // verus!
