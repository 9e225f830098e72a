//! A run over every project of a registry.
//!
//! A [`Batch`] keeps what came of each project.  The projects are taken in
//! the order of the registry, one after the other; whatever comes of one, the
//! next is taken, and the run ends when the last has been taken.

use vstd::prelude::*;
use crate::config::TkConfig;
use crate::project::ProjectOutcome;
use crate::project::ProjectOutcomeView;

verus! {

/// How many of the outcomes are failures of a whole project.
pub open spec fn failures(outcomes: Seq<ProjectOutcomeView>) -> nat
    decreases outcomes.len(),
{
    if outcomes.len() == 0 {
        0
    } else {
        let before = failures(outcomes.drop_last());
        if outcomes.last() is Failed {
            before + 1
        } else {
            before
        }
    }
}

/// A run, as mathematical values.
pub struct BatchView {
    /// How many projects the run takes.
    pub total: nat,
    /// What came of the projects that were taken, in their order.
    pub outcomes: Seq<ProjectOutcomeView>,
}

impl BatchView {
    /// No more outcomes are kept than there are projects.
    pub open spec fn wf(self) -> bool {
        self.outcomes.len() <= self.total
    }

    /// The run over `total` projects, at its start.
    pub open spec fn begin(total: nat) -> BatchView {
        BatchView { total, outcomes: Seq::empty() }
    }

    /// Whether every project has been taken.
    pub open spec fn done(self) -> bool {
        self.outcomes.len() >= self.total
    }

    /// The place, in the registry's order, of the project that is taken
    /// now; `None` once the run is done.
    pub open spec fn running(self) -> Option<nat> {
        if self.done() {
            None
        } else {
            Some(self.outcomes.len())
        }
    }

    /// The run once `outcome` is kept for the project that was taken.  A
    /// run that is done keeps no more.
    pub open spec fn record(self, outcome: ProjectOutcomeView) -> BatchView {
        if self.done() {
            self
        } else {
            BatchView { outcomes: self.outcomes.push(outcome), ..self }
        }
    }
}

/// A run over every project of a registry.
#[derive(Debug)]
pub struct Batch {
    total: usize,
    outcomes: Vec<ProjectOutcome>,
}

impl View for Batch {
    type V = BatchView;

    closed spec fn view(&self) -> BatchView {
        BatchView { total: self.total as nat, outcomes: self.outcomes.deep_view() }
    }
}

impl Batch {
    /// The run is well formed.  This holds of every run.
    #[verifier::type_invariant]
    pub open spec fn wf(&self) -> bool {
        self@.wf()
    }

    /// The run over the projects of `config`, at its start.
    pub fn new(config: &TkConfig) -> (r: Batch)
        ensures
            r@ == BatchView::begin(config.entries().len()),
            r@.wf(),
    {
        let r = Batch { total: config.len(), outcomes: Vec::new() };
        assert(r.outcomes.deep_view() =~= Seq::empty());
        r
    }

    /// Whether every project has been taken.
    pub fn is_done(&self) -> (r: bool)
        ensures
            r == self@.done(),
    {
        assert(self.outcomes.deep_view().len() == self.outcomes.len());
        self.outcomes.len() >= self.total
    }

    /// The place, in the order of [`TkConfig::iter`], of the project to take
    /// now; `None` once the run is done.
    pub fn current(&self) -> (r: Option<usize>)
        ensures
            match r {
                Some(i) => self@.running() == Some(i as nat),
                None => self@.running() is None,
            },
    {
        assert(self.outcomes.deep_view().len() == self.outcomes.len());
        if self.outcomes.len() >= self.total {
            None
        } else {
            Some(self.outcomes.len())
        }
    }

    /// Keeps what came of the project that was taken, and turns to the
    /// next.
    pub fn record(&mut self, outcome: ProjectOutcome)
        ensures
            old(self)@.wf(),
            final(self)@ == old(self)@.record(outcome@),
            final(self)@.wf(),
    {
        proof {
            use_type_invariant(&*self);
        }
        let ghost before = self.outcomes.deep_view();
        assert(before.len() == self.outcomes.len());
        if self.outcomes.len() < self.total {
            let mut outcomes: Vec<ProjectOutcome> = Vec::new();
            assert(outcomes.deep_view() =~= Seq::<ProjectOutcomeView>::empty());
            core::mem::swap(&mut self.outcomes, &mut outcomes);
            outcomes.push(outcome);
            assert(outcomes.deep_view() =~= before.push(outcome@));
            self.outcomes = outcomes;
        }
    }

    /// What came of the projects that were taken so far, in their order.
    pub fn outcomes(&self) -> (r: &Vec<ProjectOutcome>)
        ensures
            r.deep_view() == self@.outcomes,
    {
        &self.outcomes
    }

    /// How many of the projects that were taken failed as a whole.
    pub fn failed(&self) -> (r: usize)
        ensures
            r == failures(self@.outcomes),
    {
        let ghost all = self.outcomes.deep_view();
        let mut count: usize = 0;
        let mut i: usize = 0;
        assert(all.take(0) =~= Seq::empty());
        while i < self.outcomes.len()
            invariant
                i <= self.outcomes.len(),
                all == self.outcomes.deep_view(),
                count == failures(all.take(i as int)),
                count <= i,
            decreases self.outcomes.len() - i,
        {
            proof {
                assert(all.take(i + 1).drop_last() =~= all.take(i as int));
                assert(all.take(i + 1).last() == self.outcomes[i as int]@);
            }
            match &self.outcomes[i] {
                ProjectOutcome::Failed(_) => {
                    count += 1;
                },
                ProjectOutcome::Synced(_) => {},
            }
            i += 1;
        }
        assert(all.take(i as int) =~= all);
        count
    }
}

/// A project that fails holds up no other.  Whatever came of the project
/// that was taken, it is kept as the outcome of that project and of no other,
/// and the run turns to the next project, or is done where that was the
/// last.
pub proof fn failed_project_is_passed_over(batch: BatchView, outcome: ProjectOutcomeView)
    requires
        batch.wf(),
        !batch.done(),
    ensures
        batch.record(outcome).wf(),
        batch.record(outcome).total == batch.total,
        batch.record(outcome).outcomes == batch.outcomes.push(outcome),
        batch.running() matches Some(i) && (if i + 1 < batch.total {
            batch.record(outcome).running() == Some(i + 1)
        } else {
            batch.record(outcome).done()
        }),
{
}

/// A run ends.  Each outcome that is kept brings the run one project
/// nearer to its end, and a run that has kept one outcome for each project
/// is done, whatever the outcomes are.
pub proof fn batch_ends(batch: BatchView, outcome: ProjectOutcomeView)
    requires
        batch.wf(),
    ensures
        BatchView::begin(batch.total).wf(),
        batch.done() <==> batch.outcomes.len() == batch.total,
        !batch.done() ==> batch.total - batch.record(outcome).outcomes.len() < batch.total
            - batch.outcomes.len(),
{
}

} // verus!
