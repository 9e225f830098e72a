//! Taking a new project into the registry.
//!
//! An [`Enrollment`] is a machine.  It says what is to be done next
//! ([`Enrollment::action`]), and is told what came of it
//! ([`Enrollment::step`]).  A project is taken in once its id is free (or may
//! be replaced), its path has been resolved and found writable, and its
//! manifest has answered.

use vstd::prelude::*;
use std::path::PathBuf;
use crate::config::ProjectView;
use crate::config::TkConfig;
use crate::config::TkProject;
use crate::project::manifest_address;
use crate::project::manifest_url;
use crate::reconcile::STATUS_OK;

verus! {

/// Why a project was not taken in.
#[derive(Clone, Copy, Debug, PartialEq, Eq, Structural)]
pub enum AddError {
    /// A project is kept under the id already, and it may not be replaced.
    Duplicate,
    /// The path could not be resolved to an absolute one.
    Unresolved,
    /// The path could not be inspected.
    Uninspected,
    /// The path may not be written to.
    ReadOnly,
    /// The manifest's address could not be reached.
    Unreachable,
    /// The manifest's address answered with this status, which is not 200:
    /// no project has this id.
    Unknown(u16),
    /// The enrollment is not over yet.
    Unfinished,
}

/// What came of the action that an enrollment asked for.
#[derive(Debug, PartialEq, Eq)]
pub enum EnrollEvent {
    /// The path was resolved; this is the absolute path.
    Resolved(PathBuf),
    /// The path could not be resolved.
    ResolveFailed,
    /// The path was inspected: whether it is read-only.
    Inspected { readonly: bool },
    /// The path could not be inspected.
    InspectFailed,
    /// The manifest's address answered, with this status.
    Probed(u16),
    /// The manifest's address could not be reached.
    ProbeFailed,
}

/// What an enrollment asks for next.
#[derive(Debug, PartialEq, Eq)]
pub enum EnrollAction {
    /// Resolve the path that was given to an absolute one.
    Resolve,
    /// Inspect the resolved path, [`Enrollment::path`].
    Inspect,
    /// Ask for what is at this address, and report the status of the answer.
    Probe(String),
    /// Take the project in, with [`Enrollment::finish`].
    Store,
    /// Nothing: the project is not taken in, for this reason.
    Reject(AddError),
}

/// What an [`EnrollAction`] holds, as mathematical values.
pub enum EnrollActionView {
    Resolve,
    Inspect,
    Probe(Seq<char>),
    Store,
    Reject(AddError),
}

impl View for EnrollAction {
    type V = EnrollActionView;

    open spec fn view(&self) -> EnrollActionView {
        match self {
            EnrollAction::Resolve => EnrollActionView::Resolve,
            EnrollAction::Inspect => EnrollActionView::Inspect,
            EnrollAction::Probe(url) => EnrollActionView::Probe(url@),
            EnrollAction::Store => EnrollActionView::Store,
            EnrollAction::Reject(e) => EnrollActionView::Reject(*e),
        }
    }
}

/// Where an enrollment stands.
#[derive(Debug, PartialEq, Eq)]
pub enum EnrollState {
    /// The path is being resolved.
    Resolving,
    /// The resolved path is being inspected.
    Inspecting(PathBuf),
    /// The manifest is being asked for; the resolved path is kept.
    Probing(PathBuf),
    /// The project can be taken in, with this path.
    Accepted(PathBuf),
    /// The project is not taken in.
    Rejected(AddError),
}

/// An enrollment, as mathematical values.
pub struct EnrollView {
    /// The id under which the project is to be kept.
    pub id: Seq<char>,
    /// The project's name.
    pub name: Seq<char>,
    /// Where the enrollment stands.
    pub state: EnrollState,
}

impl EnrollView {
    /// The enrollment of a project, at its start: rejected at once where
    /// the id is taken and may not be replaced.
    pub open spec fn begin(id: Seq<char>, name: Seq<char>, taken: bool, replace: bool) -> EnrollView {
        EnrollView {
            id,
            name,
            state: if taken && !replace {
                EnrollState::Rejected(AddError::Duplicate)
            } else {
                EnrollState::Resolving
            },
        }
    }

    /// What the enrollment asks for.
    pub open spec fn action(self) -> EnrollActionView {
        match self.state {
            EnrollState::Resolving => EnrollActionView::Resolve,
            EnrollState::Inspecting(_) => EnrollActionView::Inspect,
            EnrollState::Probing(_) => EnrollActionView::Probe(manifest_url(self.id)),
            EnrollState::Accepted(_) => EnrollActionView::Store,
            EnrollState::Rejected(e) => EnrollActionView::Reject(e),
        }
    }

    /// Whether the enrollment is over.
    pub open spec fn over(self) -> bool {
        self.state is Accepted || self.state is Rejected
    }

    /// The enrollment once `event` has been reported.  An event that does
    /// not answer what the enrollment asked for changes nothing.
    pub open spec fn step(self, event: EnrollEvent) -> EnrollView {
        let state = match (self.state, event) {
            (EnrollState::Resolving, EnrollEvent::Resolved(path)) => EnrollState::Inspecting(path),
            (EnrollState::Resolving, EnrollEvent::ResolveFailed) => EnrollState::Rejected(
                AddError::Unresolved,
            ),
            (EnrollState::Inspecting(path), EnrollEvent::Inspected { readonly }) => {
                if readonly {
                    EnrollState::Rejected(AddError::ReadOnly)
                } else {
                    EnrollState::Probing(path)
                }
            },
            (EnrollState::Inspecting(_), EnrollEvent::InspectFailed) => EnrollState::Rejected(
                AddError::Uninspected,
            ),
            (EnrollState::Probing(path), EnrollEvent::Probed(status)) => {
                if status == STATUS_OK {
                    EnrollState::Accepted(path)
                } else {
                    EnrollState::Rejected(AddError::Unknown(status))
                }
            },
            (EnrollState::Probing(_), EnrollEvent::ProbeFailed) => EnrollState::Rejected(
                AddError::Unreachable,
            ),
            (state, _) => state,
        };
        EnrollView { state, ..self }
    }

    /// What [`Enrollment::finish`] answers.
    pub open spec fn verdict(self) -> Result<(), AddError> {
        match self.state {
            EnrollState::Accepted(_) => Ok(()),
            EnrollState::Rejected(e) => Err(e),
            _ => Err(AddError::Unfinished),
        }
    }

    /// The registry once [`Enrollment::finish`] is through with it: only an
    /// accepted project is taken in.
    pub open spec fn stored(self, projects: Map<Seq<char>, ProjectView>) -> Map<
        Seq<char>,
        ProjectView,
    > {
        match self.state {
            EnrollState::Accepted(path) => projects.insert(
                self.id,
                ProjectView { name: self.name, path },
            ),
            _ => projects,
        }
    }
}

/// The enrollment of one project.
#[derive(Debug)]
pub struct Enrollment {
    id: String,
    name: String,
    state: EnrollState,
}

impl View for Enrollment {
    type V = EnrollView;

    closed spec fn view(&self) -> EnrollView {
        EnrollView { id: self.id@, name: self.name@, state: self.state }
    }
}

impl Enrollment {
    /// Begins to take the project `name` into `config` under `id`.  Where a
    /// project is kept under `id` already and `replace` is not set, the
    /// enrollment is rejected at once.
    pub fn begin(config: &TkConfig, id: &str, name: &str, replace: bool) -> (r: Enrollment)
        ensures
            r@ == EnrollView::begin(id@, name@, config@.contains_key(id@), replace),
    {
        let state = if config.contains(id) && !replace {
            EnrollState::Rejected(AddError::Duplicate)
        } else {
            EnrollState::Resolving
        };
        Enrollment { id: String::from_str(id), name: String::from_str(name), state }
    }

    /// What is to be done next.
    pub fn action(&self) -> (r: EnrollAction)
        ensures
            r@ == self@.action(),
    {
        match &self.state {
            EnrollState::Resolving => EnrollAction::Resolve,
            EnrollState::Inspecting(_) => EnrollAction::Inspect,
            EnrollState::Probing(_) => EnrollAction::Probe(manifest_address(self.id.as_str())),
            EnrollState::Accepted(_) => EnrollAction::Store,
            EnrollState::Rejected(e) => EnrollAction::Reject(*e),
        }
    }

    /// The resolved path, once there is one.
    pub fn path(&self) -> (r: Option<&PathBuf>)
        ensures
            match self@.state {
                EnrollState::Inspecting(path) => r == Some(&path),
                EnrollState::Probing(path) => r == Some(&path),
                EnrollState::Accepted(path) => r == Some(&path),
                _ => r is None,
            },
    {
        match &self.state {
            EnrollState::Inspecting(path) => Some(path),
            EnrollState::Probing(path) => Some(path),
            EnrollState::Accepted(path) => Some(path),
            _ => None,
        }
    }

    /// Whether the enrollment is over.
    pub fn is_over(&self) -> (r: bool)
        ensures
            r == self@.over(),
    {
        match &self.state {
            EnrollState::Accepted(_) | EnrollState::Rejected(_) => true,
            _ => false,
        }
    }

    /// Takes in what came of the action that the enrollment asked for.
    pub fn step(self, event: EnrollEvent) -> (next: Enrollment)
        ensures
            next@ == self@.step(event),
    {
        let Enrollment { id, name, state } = self;
        let state = match (state, event) {
            (EnrollState::Resolving, EnrollEvent::Resolved(path)) => EnrollState::Inspecting(path),
            (EnrollState::Resolving, EnrollEvent::ResolveFailed) => EnrollState::Rejected(
                AddError::Unresolved,
            ),
            (EnrollState::Inspecting(path), EnrollEvent::Inspected { readonly }) => {
                if readonly {
                    EnrollState::Rejected(AddError::ReadOnly)
                } else {
                    EnrollState::Probing(path)
                }
            },
            (EnrollState::Inspecting(_), EnrollEvent::InspectFailed) => EnrollState::Rejected(
                AddError::Uninspected,
            ),
            (EnrollState::Probing(path), EnrollEvent::Probed(status)) => {
                if status == STATUS_OK {
                    EnrollState::Accepted(path)
                } else {
                    EnrollState::Rejected(AddError::Unknown(status))
                }
            },
            (EnrollState::Probing(_), EnrollEvent::ProbeFailed) => EnrollState::Rejected(
                AddError::Unreachable,
            ),
            (state, _) => state,
        };
        Enrollment { id, name, state }
    }

    /// Ends the enrollment.  An accepted project is kept in `config` under
    /// its id, in place of the one that was kept there; a rejected one
    /// leaves `config` as it is and gives its reason, and so does an
    /// enrollment that is not over.
    pub fn finish(self, config: &mut TkConfig) -> (r: Result<(), AddError>)
        ensures
            old(config).wf(),
            final(config).wf(),
            r == self@.verdict(),
            final(config)@ == self@.stored(old(config)@),
            !(self@.state is Accepted) ==> final(config).entries() == old(config).entries(),
    {
        proof {
            use_type_invariant(&*config);
        }
        let Enrollment { id, name, state } = self;
        match state {
            EnrollState::Accepted(path) => {
                config.add_or_replace(id.as_str(), TkProject { name, path });
                Ok(())
            },
            EnrollState::Rejected(e) => Err(e),
            _ => Err(AddError::Unfinished),
        }
    }
}

/// An enrollment that is over stays as it is.  A project is accepted only
/// after its path was resolved and found writable and its manifest answered
/// with 200, in this order: each of the three is asked for only once the one
/// before it went well.
pub proof fn enrollment_accepts_last(enrollment: EnrollView, event: EnrollEvent)
    ensures
        enrollment.over() ==> enrollment.step(event) == enrollment,
        enrollment.step(event).state is Accepted && !(enrollment.state is Accepted) ==> {
            &&& enrollment.state is Probing
            &&& event == EnrollEvent::Probed(STATUS_OK)
        },
        enrollment.step(event).state is Probing && !(enrollment.state is Probing) ==> {
            &&& enrollment.state is Inspecting
            &&& event == (EnrollEvent::Inspected { readonly: false })
        },
        enrollment.step(event).state is Inspecting && !(enrollment.state is Inspecting) ==> {
            &&& enrollment.state is Resolving
            &&& event is Resolved
        },
{
}

} // verus!
