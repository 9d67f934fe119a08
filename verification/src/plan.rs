//! Work done in phases, and what to report in the end.
//!
//! A phase is something to do or to ask, done by the caller. Its reply decides
//! what comes next.
use vstd::prelude::*;

verus! {

/// What came of a phase.
#[derive(Clone, Copy, Debug, PartialEq, Eq, Structural)]
pub enum Reply {
    /// It worked, or the answer is yes.
    Yes,
    /// The answer is no.
    No,
    /// It failed.
    Error,
}

/// The phases of some piece of work. A value of the type says what to do now.
pub trait Plan: Sized + Copy {
    /// The phase after this one.
    spec fn next(self, r: Reply) -> Self;

    /// Whether a failure of this phase is ignored.
    spec fn lenient(self) -> bool;

    /// Whether the work has ended, one way or the other.
    spec fn ended(self) -> bool;

    /// Whether the work has failed and what is left is to clean up.
    spec fn doomed(self) -> bool;

    /// An upper bound on the phases that are left.
    spec fn left(self) -> nat;

    /// The phase after this one.
    fn step(self, r: Reply) -> (p: Self)
        ensures
            p == self.next(r),
    ;

    /// Whether a failure of this phase is ignored.
    fn is_lenient(self) -> (b: bool)
        ensures
            b == self.lenient(),
    ;

    /// The work comes to an end, and stays there. It fails where a phase does whose
    /// failure is not ignored, and only there.
    proof fn lemma_ends(self, r: Reply)
        ensures
            !self.ended() ==> self.next(r).left() < self.left(),
            self.ended() ==> self.next(r) == self,
            !self.ended() ==> self.next(r).doomed() == (self.doomed() || r == Reply::Error
                && !self.lenient()),
    ;
}

/// The reply in a result.
pub open spec fn reply_of<E>(outcome: Result<bool, E>) -> Reply {
    match outcome {
        Ok(true) => Reply::Yes,
        Ok(false) => Reply::No,
        Err(_) => Reply::Error,
    }
}

/// Work in progress: the current phase, and the failure to report.
pub struct Run<P: Plan, E> {
    pub phase: P,
    pub error: Option<E>,
}

/// The failure to report after a phase that ended this way: the first one that
/// is not ignored.
pub open spec fn reported<P: Plan, E>(
    phase: P,
    error: Option<E>,
    outcome: Result<bool, E>,
) -> Option<E> {
    match (error, outcome) {
        (None, Err(e)) => if phase.lenient() {
            None
        } else {
            Some(e)
        },
        _ => error,
    }
}

impl<P: Plan, E> Run<P, E> {
    /// A failure is to be reported exactly where the work has failed.
    pub open spec fn honest(self) -> bool {
        self.error is Some <==> self.phase.doomed()
    }

    /// Work that starts with `phase`.
    pub fn start(phase: P) -> (r: Self)
        ensures
            r.phase == phase,
            r.error is None,
            r.honest() == !phase.doomed(),
    {
        Run { phase, error: None }
    }

    /// Takes note of how the current phase ended and moves to the next one.
    pub fn advance(&mut self, outcome: Result<bool, E>)
        ensures
            final(self).phase == old(self).phase.next(reply_of(outcome)),
            final(self).error == reported(old(self).phase, old(self).error, outcome),
            old(self).honest() ==> final(self).honest() || old(self).phase.ended(),
    {
        proof {
            self.phase.lemma_ends(reply_of(outcome));
        }
        let reply = match &outcome {
            Ok(true) => Reply::Yes,
            Ok(false) => Reply::No,
            Err(_) => Reply::Error,
        };
        let lenient = self.phase.is_lenient();
        self.phase = self.phase.step(reply);
        if self.error.is_none() && !lenient {
            if let Err(e) = outcome {
                self.error = Some(e);
            }
        }
    }
}

/// What a run is after it was told how its phases ended.
pub open spec fn after<P: Plan, E>(run: Run<P, E>, outcomes: Seq<Result<bool, E>>) -> Run<P, E>
    decreases outcomes.len(),
{
    if outcomes.len() == 0 || run.phase.ended() {
        run
    } else {
        after(
            Run {
                phase: run.phase.next(reply_of(outcomes[0])),
                error: reported(run.phase, run.error, outcomes[0]),
            },
            outcomes.skip(1),
        )
    }
}

/// Work that fails reports why, and work that succeeds reports no failure.
pub proof fn law_failures_are_reported<P: Plan, E>(
    run: Run<P, E>,
    outcomes: Seq<Result<bool, E>>,
)
    requires
        run.honest(),
    ensures
        after(run, outcomes).error is Some <==> after(run, outcomes).phase.doomed(),
    decreases outcomes.len(),
{
    if outcomes.len() > 0 && !run.phase.ended() {
        run.phase.lemma_ends(reply_of(outcomes[0]));
        law_failures_are_reported(
            Run {
                phase: run.phase.next(reply_of(outcomes[0])),
                error: reported(run.phase, run.error, outcomes[0]),
            },
            outcomes.skip(1),
        );
    }
}

/// Once there is a failure to report, nothing that happens later replaces it.
pub proof fn law_first_failure_is_reported<P: Plan, E>(
    run: Run<P, E>,
    outcomes: Seq<Result<bool, E>>,
)
    requires
        run.error is Some,
    ensures
        after(run, outcomes).error == run.error,
    decreases outcomes.len(),
{
    if outcomes.len() > 0 && !run.phase.ended() {
        law_first_failure_is_reported(
            Run {
                phase: run.phase.next(reply_of(outcomes[0])),
                error: reported(run.phase, run.error, outcomes[0]),
            },
            outcomes.skip(1),
        );
    }
}

/// Where a run that starts with `p` gets to, given the replies.
pub open spec fn reached<P: Plan>(p: P, replies: Seq<Reply>) -> P
    decreases replies.len(),
{
    if replies.len() == 0 || p.ended() {
        p
    } else {
        reached(p.next(replies[0]), replies.skip(1))
    }
}

/// Given enough replies, every run ends.
pub proof fn law_runs_end<P: Plan>(p: P, replies: Seq<Reply>)
    requires
        replies.len() >= p.left(),
    ensures
        reached(p, replies).ended(),
    decreases replies.len(),
{
    if !p.ended() {
        p.lemma_ends(Reply::Yes);
        p.lemma_ends(Reply::No);
        p.lemma_ends(Reply::Error);
        if replies.len() > 0 {
            law_runs_end(p.next(replies[0]), replies.skip(1));
        }
    }
}

/// Whether a run that starts with `p` has a phase and a reply to it of the given
/// kind.
pub open spec fn went<P: Plan>(p: P, replies: Seq<Reply>, kind: spec_fn(P, Reply) -> bool) -> bool
    decreases replies.len(),
{
    replies.len() > 0 && !p.ended() && (kind(p, replies[0]) || went(
        p.next(replies[0]),
        replies.skip(1),
        kind,
    ))
}

/// The steps that do the phase `q`, well or badly.
pub open spec fn doing<P: Plan>(q: P) -> spec_fn(P, Reply) -> bool {
    |x: P, r: Reply| x == q
}

/// The steps that do the phase `q` without failure.
pub open spec fn managing<P: Plan>(q: P) -> spec_fn(P, Reply) -> bool {
    |x: P, r: Reply| x == q && r != Reply::Error
}

/// The steps that get the reply `a` in the phase `q`.
pub open spec fn getting<P: Plan>(q: P, a: Reply) -> spec_fn(P, Reply) -> bool {
    |x: P, r: Reply| x == q && r == a
}

/// The steps of one kind or the other.
pub open spec fn either<P: Plan>(
    a: spec_fn(P, Reply) -> bool,
    b: spec_fn(P, Reply) -> bool,
) -> spec_fn(P, Reply) -> bool {
    |x: P, r: Reply| a(x, r) || b(x, r)
}

/// Whether a run comes to the phase `q` and does it, well or badly.
pub open spec fn does<P: Plan>(p: P, replies: Seq<Reply>, q: P) -> bool {
    went(p, replies, doing(q))
}

/// Whether a run comes to the phase `q` and does it without failure.
pub open spec fn manages<P: Plan>(p: P, replies: Seq<Reply>, q: P) -> bool {
    went(p, replies, managing(q))
}

/// Whether a run comes to the phase `q` and gets the reply `a`.
pub open spec fn gets<P: Plan>(p: P, replies: Seq<Reply>, q: P, a: Reply) -> bool {
    went(p, replies, getting(q, a))
}

/// A run with a step of either kind has one of the first or one of the second.
pub proof fn lemma_either<P: Plan>(
    p: P,
    replies: Seq<Reply>,
    a: spec_fn(P, Reply) -> bool,
    b: spec_fn(P, Reply) -> bool,
)
    ensures
        went(p, replies, either(a, b)) == (went(p, replies, a) || went(p, replies, b)),
    decreases replies.len(),
{
    if replies.len() > 0 && !p.ended() {
        lemma_either(p.next(replies[0]), replies.skip(1), a, b);
    }
}

/// Where the only way into some phases is by steps of one kind, a run that gets
/// there from outside takes such a step.
pub proof fn lemma_way_in<P: Plan>(
    p: P,
    replies: Seq<Reply>,
    inside: spec_fn(P) -> bool,
    way: spec_fn(P, Reply) -> bool,
)
    requires
        !inside(p),
        forall|q: P, r: Reply| !inside(q) && inside(#[trigger] q.next(r)) ==> way(q, r),
    ensures
        inside(reached(p, replies)) ==> went(p, replies, way),
        forall|t: P| inside(t) && #[trigger] does(p, replies, t) ==> went(p, replies, way),
    decreases replies.len(),
{
    if replies.len() > 0 && !p.ended() {
        let n = p.next(replies[0]);
        if !inside(n) {
            lemma_way_in(n, replies.skip(1), inside, way);
        }
        assert forall|t: P| inside(t) && #[trigger] does(p, replies, t) implies went(
            p,
            replies,
            way,
        ) by {
            if !inside(n) {
                assert(does(n, replies.skip(1), t));
            }
        }
    }
}

/// Where the only way out of some phases is by steps of one kind, a run that takes
/// a step into them and does not stay there takes such a step.
pub proof fn lemma_way_out<P: Plan>(
    p: P,
    replies: Seq<Reply>,
    enter: spec_fn(P, Reply) -> bool,
    inside: spec_fn(P) -> bool,
    way: spec_fn(P, Reply) -> bool,
)
    requires
        forall|q: P, r: Reply| enter(q, r) ==> inside(#[trigger] q.next(r)),
        forall|q: P, r: Reply|
            inside(q) && !q.ended() && !inside(#[trigger] q.next(r)) ==> way(q, r),
    ensures
        inside(p) || went(p, replies, enter) ==> inside(reached(p, replies)) || went(
            p,
            replies,
            way,
        ),
    decreases replies.len(),
{
    if replies.len() > 0 && !p.ended() {
        lemma_way_out(p.next(replies[0]), replies.skip(1), enter, inside, way);
    }
}

/// Where there is no way out of some phases, a run that takes a step into them
/// stays there.
pub proof fn lemma_stays<P: Plan>(
    p: P,
    replies: Seq<Reply>,
    enter: spec_fn(P, Reply) -> bool,
    inside: spec_fn(P) -> bool,
)
    requires
        forall|q: P, r: Reply| enter(q, r) || inside(q) ==> inside(#[trigger] q.next(r)),
    ensures
        inside(p) || went(p, replies, enter) ==> inside(reached(p, replies)),
    decreases replies.len(),
{
    if replies.len() > 0 && !p.ended() {
        lemma_stays(p.next(replies[0]), replies.skip(1), enter, inside);
    }
}

} // verus!
