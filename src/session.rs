//! The checkout session of a git handle: open from an accepted checkout
//! request until the caller receives the status that ends it. While it is
//! open, another checkout is refused, so that two stash / checkout / pop
//! sequences never interleave in one working directory.
use vstd::prelude::*;
use crate::checkout::{CheckoutStatus, StatusView, status_ends};
use crate::git::GitError;

verus! {

/// Whether a checkout session is open.
pub struct CheckoutGate {
    open: bool,
}

impl View for CheckoutGate {
    type V = bool;

    closed spec fn view(&self) -> bool {
        self.open
    }
}

/// A checkout request is accepted exactly when no session is open.
pub open spec fn accepts(open: bool) -> bool {
    !open
}

/// Whether the session is open after the caller received `ss`.
pub open spec fn open_after(open: bool, ss: Seq<StatusView>) -> bool
    decreases ss.len(),
{
    if ss.len() == 0 {
        open
    } else {
        open_after(open && !status_ends(ss[0]), ss.drop_first())
    }
}

impl CheckoutGate {
    /// A gate with no session open.
    pub fn new() -> (r: CheckoutGate)
        ensures
            r@ == false,
    {
        CheckoutGate { open: false }
    }

    /// Whether a checkout session is open.
    pub fn is_open(&self) -> (r: bool)
        ensures
            r == self@,
    {
        self.open
    }

    /// Opens a session for a new checkout, or refuses with
    /// `AlreadyInProgress` while one is open.
    pub fn begin(&mut self) -> (r: Result<(), GitError>)
        ensures
            final(self)@ == true,
            r is Ok <==> accepts(old(self)@),
            r is Err ==> r->Err_0 == GitError::AlreadyInProgress,
    {
        if self.open {
            Err(GitError::AlreadyInProgress)
        } else {
            self.open = true;
            Ok(())
        }
    }

    /// Notes a status the caller received: one that ends the checkout closes
    /// the session.
    pub fn observe(&mut self, status: &CheckoutStatus) -> (r: bool)
        ensures
            final(self)@ == (old(self)@ && !status_ends(status@)),
            r == final(self)@,
    {
        if status.is_terminal() {
            self.open = false;
        }
        self.open
    }
}

proof fn lemma_progress_keeps_open(ss: Seq<StatusView>)
    requires
        forall|i: int| 0 <= i < ss.len() ==> !status_ends(#[trigger] ss[i]),
    ensures
        open_after(true, ss),
    decreases ss.len(),
{
    if ss.len() > 0 {
        let t = ss.drop_first();
        assert forall|i: int| 0 <= i < t.len() implies !status_ends(#[trigger] t[i]) by {
            assert(t[i] == ss[i + 1]);
        }
        lemma_progress_keeps_open(t);
    }
}

proof fn lemma_closed_stays_closed(ss: Seq<StatusView>)
    ensures
        !open_after(false, ss),
    decreases ss.len(),
{
    if ss.len() > 0 {
        lemma_closed_stays_closed(ss.drop_first());
    }
}

/// A second checkout request on one handle, made after the first was accepted
/// and before the caller has received a status that ends it, is refused;
/// once such a status has been received, the next request is accepted.
pub proof fn lemma_one_checkout_at_a_time(ss: Seq<StatusView>, end: StatusView, more: Seq<StatusView>)
    requires
        forall|i: int| 0 <= i < ss.len() ==> !status_ends(#[trigger] ss[i]),
        status_ends(end),
    ensures
        !accepts(open_after(true, ss)),
        accepts(open_after(true, ss + seq![end] + more)),
{
    lemma_progress_keeps_open(ss);
    lemma_open_after_concat(true, ss, seq![end] + more);
    assert(ss + seq![end] + more =~= ss + (seq![end] + more));
    assert((seq![end] + more)[0] == end);
    assert((seq![end] + more).drop_first() =~= more);
    lemma_closed_stays_closed(more);
}

proof fn lemma_open_after_concat(open: bool, a: Seq<StatusView>, b: Seq<StatusView>)
    ensures
        open_after(open, a + b) == open_after(open_after(open, a), b),
    decreases a.len(),
{
    if a.len() == 0 {
        assert(a + b =~= b);
    } else {
        assert((a + b)[0] == a[0]);
        assert((a + b).drop_first() =~= a.drop_first() + b);
        lemma_open_after_concat(open && !status_ends(a[0]), a.drop_first(), b);
    }
}

} // verus!
