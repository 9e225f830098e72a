//! The sync of one project, from the request for its manifest to the last
//! font.
//!
//! A [`ProjectSync`] is a machine.  It says what is to be done next
//! ([`ProjectSync::action`]), and is told what came of it
//! ([`ProjectSync::step`]).  The steps are: ask for the manifest, read it,
//! look at the project's path, make the project's folder, read the manifest's
//! fonts, list the folder, and run the pass over it.  Whatever goes wrong
//! before the pass ends the sync of this project, and of this project only.

use vstd::prelude::*;
use crate::reconcile::actions_are_fit;
use crate::reconcile::Download;
use crate::reconcile::DownloadView;
use crate::reconcile::FontOutcome;
use crate::reconcile::Pass;
use crate::reconcile::PassAction;
use crate::reconcile::PassActionView;
use crate::reconcile::PassEvent;
use crate::reconcile::PassView;
use crate::reconcile::Stage;
use crate::reconcile::STATUS_OK;
use crate::reconcile::fetches;
use crate::reconcile::is_desired;
use crate::reconcile::lemma_missing_holds;
use crate::reconcile::lemma_fit_only_holds;
use crate::reconcile::lemma_stale_holds;
use crate::reconcile::stale;
use crate::reconcile::plan_is_well_formed;
use crate::scan::fonts_present;
use crate::scan::lemma_present_holds;
use crate::scan::lemma_stem;
use crate::scan::lists_font;
use crate::scan::EntryKind;
use crate::scan::scan;
use crate::scan::font_of_entry;
use crate::scan::unreadable;
use crate::scan::ScanEntry;
use crate::scan::ScanEntryView;
use crate::sync::file_name_of;
use crate::sync::fit_for_file;
use crate::sync::manifest_reading;
use crate::sync::reading;
use crate::sync::FontView;
use crate::sync::ManifestError;
use crate::sync::ManifestErrorView;
use crate::sync::TkFont;
use crate::text::join3;

verus! {

/// Why a manifest could not be had.
#[derive(Clone, Copy, Debug, PartialEq, Eq, Structural)]
pub enum FetchFault {
    /// The address could not be reached.
    Unreachable,
    /// The address answered with this status, which is not 200.
    Status(u16),
    /// The answer could not be read as text.
    Unreadable,
}

/// What is wrong with a project's path.
#[derive(Clone, Copy, Debug, PartialEq, Eq, Structural)]
pub enum PathFault {
    /// Nothing is there.
    Missing,
    /// The path is not absolute.
    Relative,
    /// What is there is no directory.
    NotDirectory,
}

/// Why the sync of a project ended early.
#[derive(Debug, PartialEq, Eq)]
pub enum SyncError {
    /// The manifest could not be had.
    ManifestFetch(FetchFault),
    /// The manifest could not be read.
    ManifestFormat(ManifestError),
    /// The project's path is not fit.
    DirectoryValidation(PathFault),
    /// The project's folder could not be made.
    DirectoryCreate,
    /// The project's folder could not be listed.
    DirectoryRead,
    /// The file of the font with this key could not be deleted.
    FontDelete(String),
}

/// What a [`SyncError`] holds, as mathematical values.
pub enum SyncErrorView {
    ManifestFetch(FetchFault),
    ManifestFormat(ManifestErrorView),
    DirectoryValidation(PathFault),
    DirectoryCreate,
    DirectoryRead,
    FontDelete(Seq<char>),
}

impl View for SyncError {
    type V = SyncErrorView;

    open spec fn view(&self) -> SyncErrorView {
        match self {
            SyncError::ManifestFetch(fault) => SyncErrorView::ManifestFetch(*fault),
            SyncError::ManifestFormat(e) => SyncErrorView::ManifestFormat(e@),
            SyncError::DirectoryValidation(fault) => SyncErrorView::DirectoryValidation(*fault),
            SyncError::DirectoryCreate => SyncErrorView::DirectoryCreate,
            SyncError::DirectoryRead => SyncErrorView::DirectoryRead,
            SyncError::FontDelete(name) => SyncErrorView::FontDelete(name@),
        }
    }
}

/// What came of the action that a sync asked for.
#[derive(Debug, PartialEq, Eq)]
pub enum SyncEvent {
    /// The manifest's address answered, with this status.
    Responded(u16),
    /// The manifest's address could not be reached.
    Unreachable,
    /// The manifest was read; this is its text.
    ManifestRead(String),
    /// The manifest could not be read as text.
    ManifestUnreadable,
    /// The project's path was looked at: whether something is there, whether
    /// the path is absolute, whether it is a directory.
    PathChecked { exists: bool, absolute: bool, directory: bool },
    /// The project's folder is there.
    FolderCreated,
    /// The project's folder could not be made.
    FolderFailed,
    /// The project's folder was listed; these are its entries.
    Listed(Vec<ScanEntry>),
    /// The project's folder could not be listed.
    ListFailed,
    /// What came of an action of the pass.
    Font(PassEvent),
}

/// What a [`SyncEvent`] holds, as mathematical values.
pub enum SyncEventView {
    Responded(u16),
    Unreachable,
    ManifestRead(Seq<char>),
    ManifestUnreadable,
    PathChecked { exists: bool, absolute: bool, directory: bool },
    FolderCreated,
    FolderFailed,
    Listed(Seq<ScanEntryView>),
    ListFailed,
    Font(PassEvent),
}

impl View for SyncEvent {
    type V = SyncEventView;

    open spec fn view(&self) -> SyncEventView {
        match self {
            SyncEvent::Responded(status) => SyncEventView::Responded(*status),
            SyncEvent::Unreachable => SyncEventView::Unreachable,
            SyncEvent::ManifestRead(css) => SyncEventView::ManifestRead(css@),
            SyncEvent::ManifestUnreadable => SyncEventView::ManifestUnreadable,
            SyncEvent::PathChecked { exists, absolute, directory } => SyncEventView::PathChecked {
                exists: *exists,
                absolute: *absolute,
                directory: *directory,
            },
            SyncEvent::FolderCreated => SyncEventView::FolderCreated,
            SyncEvent::FolderFailed => SyncEventView::FolderFailed,
            SyncEvent::Listed(entries) => SyncEventView::Listed(entries.deep_view()),
            SyncEvent::ListFailed => SyncEventView::ListFailed,
            SyncEvent::Font(event) => SyncEventView::Font(*event),
        }
    }
}

/// What a sync asks for next.
#[derive(Debug, PartialEq, Eq)]
pub enum SyncAction {
    /// Ask for what is at this address, and report the status of the answer.
    Request(String),
    /// Read the answer as text.
    ReadManifest,
    /// Look at the project's path.
    CheckPath,
    /// Make the folder of this name below the project's path, with every
    /// directory above it that is not there yet.
    CreateFolder(String),
    /// List the project's folder.
    List,
    /// Do what the pass asks for, in the project's folder.
    Reconcile(PassAction),
    /// Nothing: the sync is over.
    Finish,
}

/// What a [`SyncAction`] holds, as mathematical values.
pub enum SyncActionView {
    Request(Seq<char>),
    ReadManifest,
    CheckPath,
    CreateFolder(Seq<char>),
    List,
    Reconcile(PassActionView),
    Finish,
}

impl View for SyncAction {
    type V = SyncActionView;

    open spec fn view(&self) -> SyncActionView {
        match self {
            SyncAction::Request(url) => SyncActionView::Request(url@),
            SyncAction::ReadManifest => SyncActionView::ReadManifest,
            SyncAction::CheckPath => SyncActionView::CheckPath,
            SyncAction::CreateFolder(folder) => SyncActionView::CreateFolder(folder@),
            SyncAction::List => SyncActionView::List,
            SyncAction::Reconcile(action) => SyncActionView::Reconcile(action@),
            SyncAction::Finish => SyncActionView::Finish,
        }
    }
}

/// The address of the manifest of the project with the id `id`.
pub open spec fn manifest_url(id: Seq<char>) -> Seq<char> {
    "https://use.typekit.net/"@ + id + ".css"@
}

/// The name of the folder that the fonts of a project are synced to: the
/// word `tksync`, the project's id and its name, joined by hyphens.
pub open spec fn sync_folder(id: Seq<char>, name: Seq<char>) -> Seq<char> {
    "tksync-"@ + id + "-"@ + name
}

/// The address of the manifest of the project with the id `id`, as in
/// `https://use.typekit.net/abc1def.css`.
pub fn manifest_address(id: &str) -> (r: String)
    ensures
        r@ == manifest_url(id@),
{
    join3("https://use.typekit.net/", id, ".css")
}

/// The name of the folder that the fonts of a project are synced to, as in
/// `tksync-abc1def-Acme`.
pub fn sync_folder_name(id: &str, name: &str) -> (r: String)
    ensures
        r@ == sync_folder(id@, name@),
{
    let mut out = join3("tksync-", id, "-");
    out.append(name);
    out
}

/// Where a sync stands.
#[derive(Debug)]
enum SyncState {
    Requesting,
    Reading,
    Checking(String),
    Creating(String),
    Listing(Vec<TkFont>),
    Reconciling(Pass),
    Synced(Pass),
    Failed(SyncError),
}

/// Where a sync stands, as mathematical values.
pub enum SyncStateView {
    /// The manifest has been asked for.
    Requesting,
    /// The manifest is being read.
    Reading,
    /// The project's path is being looked at; the manifest's text is kept.
    Checking(Seq<char>),
    /// The project's folder is being made; the manifest's text is kept.
    Creating(Seq<char>),
    /// The project's folder is being listed; the manifest's fonts are kept.
    Listing(Seq<FontView>),
    /// The pass is under way.
    Reconciling(PassView),
    /// The pass is finished.
    Synced(PassView),
    /// The sync ended early.
    Failed(SyncErrorView),
}

impl View for SyncState {
    type V = SyncStateView;

    closed spec fn view(&self) -> SyncStateView {
        match self {
            SyncState::Requesting => SyncStateView::Requesting,
            SyncState::Reading => SyncStateView::Reading,
            SyncState::Checking(css) => SyncStateView::Checking(css@),
            SyncState::Creating(css) => SyncStateView::Creating(css@),
            SyncState::Listing(fonts) => SyncStateView::Listing(fonts.deep_view()),
            SyncState::Reconciling(pass) => SyncStateView::Reconciling(pass@),
            SyncState::Synced(pass) => SyncStateView::Synced(pass@),
            SyncState::Failed(e) => SyncStateView::Failed(e@),
        }
    }
}

/// Where the sync stands once its pass has come to `pass`: done where the
/// pass is finished, ended early where a deletion failed, and else under
/// way.
pub open spec fn state_of_pass(pass: PassView) -> SyncStateView {
    match pass.stage {
        Stage::Finished => SyncStateView::Synced(pass),
        Stage::Aborted => SyncStateView::Failed(
            SyncErrorView::FontDelete(pass.deletions[pass.deleted as int]),
        ),
        _ => SyncStateView::Reconciling(pass),
    }
}

/// What is wrong with a path of which this is known, if anything is.  A
/// path where nothing is counts as missing, whatever else holds of it; a
/// relative path counts as relative even where it is no directory.
pub open spec fn path_fault(exists: bool, absolute: bool, directory: bool) -> Option<PathFault> {
    if !exists {
        Some(PathFault::Missing)
    } else if !absolute {
        Some(PathFault::Relative)
    } else if !directory {
        Some(PathFault::NotDirectory)
    } else {
        None
    }
}

/// The sync of one project, as mathematical values.
pub struct SyncView {
    /// The project's id.
    pub id: Seq<char>,
    /// The project's name.
    pub name: Seq<char>,
    /// Where the sync stands.
    pub state: SyncStateView,
}

impl SyncView {
    /// A pass under way is well formed and not over; a finished one is well
    /// formed and finished.
    pub open spec fn wf(self) -> bool {
        match self.state {
            SyncStateView::Reconciling(pass) => pass.wf() && pass.stage != Stage::Finished
                && pass.stage != Stage::Aborted,
            SyncStateView::Synced(pass) => pass.wf() && pass.stage == Stage::Finished,
            _ => true,
        }
    }

    /// The sync of the project with this id and name, at its start.
    pub open spec fn begin(id: Seq<char>, name: Seq<char>) -> SyncView {
        SyncView { id, name, state: SyncStateView::Requesting }
    }

    /// What the sync asks for.
    pub open spec fn action(self) -> SyncActionView {
        match self.state {
            SyncStateView::Requesting => SyncActionView::Request(manifest_url(self.id)),
            SyncStateView::Reading => SyncActionView::ReadManifest,
            SyncStateView::Checking(_) => SyncActionView::CheckPath,
            SyncStateView::Creating(_) => SyncActionView::CreateFolder(
                sync_folder(self.id, self.name),
            ),
            SyncStateView::Listing(_) => SyncActionView::List,
            SyncStateView::Reconciling(pass) => SyncActionView::Reconcile(pass.action()),
            SyncStateView::Synced(_) | SyncStateView::Failed(_) => SyncActionView::Finish,
        }
    }

    /// The text of the manifest, while the sync keeps it.
    pub open spec fn manifest(self) -> Seq<char> {
        match self.state {
            SyncStateView::Checking(css) => css,
            SyncStateView::Creating(css) => css,
            _ => Seq::empty(),
        }
    }

    /// The fonts that the pass of the sync fetches, once there is a pass.
    pub open spec fn downloads(self) -> Option<Seq<DownloadView>> {
        match self.state {
            SyncStateView::Reconciling(pass) => Some(pass.downloads),
            SyncStateView::Synced(pass) => Some(pass.downloads),
            _ => None,
        }
    }

    /// The key of the font that the pass of the sync has in hand, while
    /// the pass is under way.
    pub open spec fn font(self) -> Option<Seq<char>> {
        match self.state {
            SyncStateView::Reconciling(pass) => pass.font(),
            _ => None,
        }
    }

    /// Whether the sync is over.
    pub open spec fn over(self) -> bool {
        self.state is Synced || self.state is Failed
    }

    /// The sync once `event` has been reported, where reading the manifest
    /// gives `parsed`.  An event that does not answer what the sync asked
    /// for changes nothing.
    pub open spec fn step(
        self,
        event: SyncEventView,
        parsed: Result<Seq<FontView>, ManifestErrorView>,
    ) -> SyncView {
        let state = match (self.state, event) {
            (SyncStateView::Requesting, SyncEventView::Responded(status)) => {
                if status == STATUS_OK {
                    SyncStateView::Reading
                } else {
                    SyncStateView::Failed(SyncErrorView::ManifestFetch(FetchFault::Status(status)))
                }
            },
            (SyncStateView::Requesting, SyncEventView::Unreachable) => SyncStateView::Failed(
                SyncErrorView::ManifestFetch(FetchFault::Unreachable),
            ),
            (SyncStateView::Reading, SyncEventView::ManifestRead(css)) => SyncStateView::Checking(
                css,
            ),
            (SyncStateView::Reading, SyncEventView::ManifestUnreadable) => SyncStateView::Failed(
                SyncErrorView::ManifestFetch(FetchFault::Unreadable),
            ),
            (
                SyncStateView::Checking(css),
                SyncEventView::PathChecked { exists, absolute, directory },
            ) => {
                match path_fault(exists, absolute, directory) {
                    Some(fault) => SyncStateView::Failed(SyncErrorView::DirectoryValidation(fault)),
                    None => SyncStateView::Creating(css),
                }
            },
            (SyncStateView::Creating(_), SyncEventView::FolderCreated) => {
                match parsed {
                    Ok(fonts) => SyncStateView::Listing(fonts),
                    Err(e) => SyncStateView::Failed(SyncErrorView::ManifestFormat(e)),
                }
            },
            (SyncStateView::Creating(_), SyncEventView::FolderFailed) => SyncStateView::Failed(
                SyncErrorView::DirectoryCreate,
            ),
            (SyncStateView::Listing(fonts), SyncEventView::Listed(entries)) => {
                if unreadable(entries) {
                    SyncStateView::Failed(SyncErrorView::DirectoryRead)
                } else {
                    state_of_pass(PassView::plan(fonts, fonts_present(entries)))
                }
            },
            (SyncStateView::Listing(_), SyncEventView::ListFailed) => SyncStateView::Failed(
                SyncErrorView::DirectoryRead,
            ),
            (SyncStateView::Reconciling(pass), SyncEventView::Font(e)) => state_of_pass(
                pass.step(e),
            ),
            (state, _) => state,
        };
        SyncView { state, ..self }
    }
}

/// What came of the sync of one project.
#[derive(Debug, PartialEq, Eq)]
pub enum ProjectOutcome {
    /// The pass was finished; this is what came of each download that it
    /// tried, in their order.
    Synced(Vec<FontOutcome>),
    /// The sync ended early.
    Failed(SyncError),
}

/// What a [`ProjectOutcome`] holds, as mathematical values.
pub enum ProjectOutcomeView {
    Synced(Seq<FontOutcome>),
    Failed(SyncErrorView),
}

impl View for ProjectOutcome {
    type V = ProjectOutcomeView;

    open spec fn view(&self) -> ProjectOutcomeView {
        match self {
            ProjectOutcome::Synced(outcomes) => ProjectOutcomeView::Synced(outcomes@),
            ProjectOutcome::Failed(e) => ProjectOutcomeView::Failed(e@),
        }
    }
}

impl DeepView for ProjectOutcome {
    type V = ProjectOutcomeView;

    open spec fn deep_view(&self) -> ProjectOutcomeView {
        self@
    }
}

/// The sync of one project.
#[derive(Debug)]
pub struct ProjectSync {
    id: String,
    name: String,
    state: SyncState,
}

impl View for ProjectSync {
    type V = SyncView;

    closed spec fn view(&self) -> SyncView {
        SyncView { id: self.id@, name: self.name@, state: self.state@ }
    }
}

/// Where the sync stands once its pass has come to `pass`.
fn settle_pass(pass: Pass) -> (r: SyncState)
    ensures
        pass@.wf(),
        r@ == state_of_pass(pass@),
{
    match pass.stage() {
        Stage::Finished => SyncState::Synced(pass),
        Stage::Aborted => {
            let names = pass.deletions();
            let at = pass.deleted();
            assert(names.deep_view().len() == names.len());
            let name = &names[at];
            assert(names.deep_view()[at as int] == name@);
            SyncState::Failed(SyncError::FontDelete(name.clone()))
        },
        _ => SyncState::Reconciling(pass),
    }
}

/// What is wrong with a path of which this is known, if anything is.
pub fn check_path(exists: bool, absolute: bool, directory: bool) -> (r: Option<PathFault>)
    ensures
        r == path_fault(exists, absolute, directory),
{
    if !exists {
        Some(PathFault::Missing)
    } else if !absolute {
        Some(PathFault::Relative)
    } else if !directory {
        Some(PathFault::NotDirectory)
    } else {
        None
    }
}

impl ProjectSync {
    /// The sync is well formed.  This holds of every sync.
    #[verifier::type_invariant]
    pub open spec fn wf(&self) -> bool {
        self@.wf()
    }

    /// The sync of the project with this id and name, at its start.
    pub fn new(id: &str, name: &str) -> (r: ProjectSync)
        ensures
            r@ == SyncView::begin(id@, name@),
            r@.wf(),
    {
        ProjectSync {
            id: String::from_str(id),
            name: String::from_str(name),
            state: SyncState::Requesting,
        }
    }

    /// What is to be done next.  The name of a file to delete or to write
    /// is fit for the name of a file.
    pub fn action(&self) -> (r: SyncAction)
        ensures
            r@ == self@.action(),
            self@.wf(),
            r@ matches SyncActionView::Reconcile(PassActionView::Delete(file)) ==> fit_for_file(
                file,
            ),
            r@ matches SyncActionView::Reconcile(PassActionView::Write(file)) ==> fit_for_file(
                file,
            ),
    {
        proof {
            use_type_invariant(self);
        }
        match &self.state {
            SyncState::Requesting => SyncAction::Request(manifest_address(self.id.as_str())),
            SyncState::Reading => SyncAction::ReadManifest,
            SyncState::Checking(_) => SyncAction::CheckPath,
            SyncState::Creating(_) => SyncAction::CreateFolder(
                sync_folder_name(self.id.as_str(), self.name.as_str()),
            ),
            SyncState::Listing(_) => SyncAction::List,
            SyncState::Reconciling(pass) => SyncAction::Reconcile(pass.action()),
            SyncState::Synced(_) | SyncState::Failed(_) => SyncAction::Finish,
        }
    }

    /// The fonts that the pass of the sync fetches, in their order, once
    /// there is a pass.  What came of the download at one place is the
    /// outcome at that place.
    pub fn downloads(&self) -> (r: Option<&Vec<Download>>)
        ensures
            match r {
                Some(list) => self@.downloads() == Some(list.deep_view()),
                None => self@.downloads() is None,
            },
    {
        match &self.state {
            SyncState::Reconciling(pass) => Some(pass.downloads()),
            SyncState::Synced(pass) => Some(pass.downloads()),
            _ => None,
        }
    }

    /// The key of the font that the pass of the sync has in hand, for
    /// those who tell of it: the one whose file is being deleted, or the one
    /// that is being fetched, written or passed over.
    pub fn font(&self) -> (r: Option<&String>)
        ensures
            match r {
                Some(key) => self@.font() == Some(key@),
                None => self@.font() is None,
            },
    {
        proof {
            use_type_invariant(self);
        }
        match &self.state {
            SyncState::Reconciling(pass) => pass.font(),
            _ => None,
        }
    }

    /// Whether the sync is over.
    pub fn is_over(&self) -> (r: bool)
        ensures
            r == self@.over(),
    {
        match &self.state {
            SyncState::Synced(_) | SyncState::Failed(_) => true,
            _ => false,
        }
    }

    /// What came of the sync, once it is over.
    pub fn outcome(&self) -> (r: Option<ProjectOutcome>)
        ensures
            match self@.state {
                SyncStateView::Synced(pass) => r matches Some(o) && o@
                    == ProjectOutcomeView::Synced(pass.outcomes),
                SyncStateView::Failed(e) => r matches Some(o) && o@ == ProjectOutcomeView::Failed(
                    e,
                ),
                _ => r is None,
            },
    {
        match &self.state {
            SyncState::Synced(pass) => Some(ProjectOutcome::Synced(pass.outcomes().clone())),
            SyncState::Failed(e) => Some(ProjectOutcome::Failed(copy_error(e))),
            _ => None,
        }
    }

    /// Takes in what came of the action that the sync asked for, with
    /// `parsed` as the manifest's fonts where the event is that the folder
    /// is there.  `parsed` is not looked at for any other event.
    pub fn step_with(self, event: SyncEvent, parsed: Result<Vec<TkFont>, ManifestError>) -> (next:
        ProjectSync)
        ensures
            self@.wf(),
            next@.wf(),
            next@ == self@.step(event@, reading(parsed)),
    {
        proof {
            use_type_invariant(&self);
        }
        let ProjectSync { id, name, state } = self;
        let state = match (state, event) {
            (SyncState::Requesting, SyncEvent::Responded(status)) => {
                if status == STATUS_OK {
                    SyncState::Reading
                } else {
                    SyncState::Failed(SyncError::ManifestFetch(FetchFault::Status(status)))
                }
            },
            (SyncState::Requesting, SyncEvent::Unreachable) => SyncState::Failed(
                SyncError::ManifestFetch(FetchFault::Unreachable),
            ),
            (SyncState::Reading, SyncEvent::ManifestRead(css)) => SyncState::Checking(css),
            (SyncState::Reading, SyncEvent::ManifestUnreadable) => SyncState::Failed(
                SyncError::ManifestFetch(FetchFault::Unreadable),
            ),
            (SyncState::Checking(css), SyncEvent::PathChecked { exists, absolute, directory }) => {
                match check_path(exists, absolute, directory) {
                    Some(fault) => SyncState::Failed(SyncError::DirectoryValidation(fault)),
                    None => SyncState::Creating(css),
                }
            },
            (SyncState::Creating(_), SyncEvent::FolderCreated) => {
                match parsed {
                    Ok(fonts) => SyncState::Listing(fonts),
                    Err(e) => SyncState::Failed(SyncError::ManifestFormat(e)),
                }
            },
            (SyncState::Creating(_), SyncEvent::FolderFailed) => SyncState::Failed(
                SyncError::DirectoryCreate,
            ),
            (SyncState::Listing(fonts), SyncEvent::Listed(entries)) => {
                match scan(&entries) {
                    None => SyncState::Failed(SyncError::DirectoryRead),
                    Some(present) => settle_pass(Pass::new(&fonts, &present)),
                }
            },
            (SyncState::Listing(_), SyncEvent::ListFailed) => SyncState::Failed(
                SyncError::DirectoryRead,
            ),
            (SyncState::Reconciling(pass), SyncEvent::Font(e)) => {
                let mut pass = pass;
                pass.step(e);
                settle_pass(pass)
            },
            (state, _) => state,
        };
        ProjectSync { id, name, state }
    }

    /// Takes in what came of the action that the sync asked for.
    ///
    /// Once the folder is there the manifest is read, and the sync goes on
    /// as [`ProjectSync::step_with`] says for what the reading gives.
    pub fn step(self, event: SyncEvent) -> (next: ProjectSync)
        ensures
            self@.wf(),
            next@.wf(),
            next@ == self@.step(event@, manifest_reading(self@.manifest())),
    {
        let parsed = match (&self.state, &event) {
            (SyncState::Creating(css), SyncEvent::FolderCreated) => TkFont::parse_css(css.as_str()),
            _ => Ok(Vec::new()),
        };
        proof {
            let given = reading(parsed);
            if !(self@.state is Creating && event@ is FolderCreated) {
                assert(self@.step(event@, given) == self@.step(
                    event@,
                    manifest_reading(self@.manifest()),
                ));
            }
        }
        self.step_with(event, parsed)
    }
}

/// A copy of an error.
fn copy_error(e: &SyncError) -> (r: SyncError)
    ensures
        r@ == e@,
{
    match e {
        SyncError::ManifestFetch(fault) => SyncError::ManifestFetch(*fault),
        SyncError::ManifestFormat(ManifestError::Pattern) => SyncError::ManifestFormat(
            ManifestError::Pattern,
        ),
        SyncError::ManifestFormat(ManifestError::Style(word)) => SyncError::ManifestFormat(
            ManifestError::Style(word.clone()),
        ),
        SyncError::ManifestFormat(ManifestError::Weight(digits)) => SyncError::ManifestFormat(
            ManifestError::Weight(digits.clone()),
        ),
        SyncError::DirectoryValidation(fault) => SyncError::DirectoryValidation(*fault),
        SyncError::DirectoryCreate => SyncError::DirectoryCreate,
        SyncError::DirectoryRead => SyncError::DirectoryRead,
        SyncError::FontDelete(name) => SyncError::FontDelete(name.clone()),
    }
}

/// A sync that is well formed stays so.
pub proof fn sync_stays_well_formed(
    sync: SyncView,
    event: SyncEventView,
    parsed: Result<Seq<FontView>, ManifestErrorView>,
)
    requires
        sync.wf(),
    ensures
        SyncView::begin(sync.id, sync.name).wf(),
        sync.step(event, parsed).wf(),
        sync.step(event, parsed).id == sync.id,
        sync.step(event, parsed).name == sync.name,
{
    match (sync.state, event) {
        (SyncStateView::Listing(fonts), SyncEventView::Listed(entries)) => {
            let pass = PassView::plan(fonts, fonts_present(entries));
            plan_is_well_formed(fonts, fonts_present(entries));
            assert(pass.wf());
        },
        (SyncStateView::Reconciling(pass), SyncEventView::Font(e)) => {
            assert(pass.step(e).wf());
        },
        _ => {},
    }
}

/// A sync that is over stays as it is and asks for nothing more.  So a
/// sync that ended early, on its manifest or its path or its folder, never
/// comes to delete or fetch anything.
pub proof fn sync_over_asks_nothing(
    sync: SyncView,
    event: SyncEventView,
    parsed: Result<Seq<FontView>, ManifestErrorView>,
)
    requires
        sync.over(),
    ensures
        sync.action() == SyncActionView::Finish,
        sync.step(event, parsed) == sync,
{
}

/// A manifest that cannot be read ends the sync before the folder is
/// listed: the sync is over with the manifest's error, and nothing was
/// deleted or fetched on the way there, since only a pass under way asks for
/// that.
pub proof fn unread_manifest_ends_sync(sync: SyncView, e: ManifestErrorView)
    requires
        sync.state is Creating,
    ensures
        sync.step(SyncEventView::FolderCreated, Err(e)).state == SyncStateView::Failed(
            SyncErrorView::ManifestFormat(e),
        ),
        sync.step(SyncEventView::FolderCreated, Err(e)).over(),
        !(sync.action() is Reconcile),
{
}

/// A sync fails early or on a deletion.  Once the pass is under way the
/// sync can only go on with it, end with it, or fail on a deletion; and
/// before the pass is under way no failure is that of a deletion.  As a sync
/// that is over stays as it is, a sync that failed on its manifest, its path
/// or its folder has never had a pass under way, and so has never asked for
/// a file to be deleted or a font to be fetched.
pub proof fn sync_fails_early_or_on_deletion(
    sync: SyncView,
    event: SyncEventView,
    parsed: Result<Seq<FontView>, ManifestErrorView>,
)
    ensures
        sync.state is Reconciling ==> match sync.step(event, parsed).state {
            SyncStateView::Reconciling(_) | SyncStateView::Synced(_) => true,
            SyncStateView::Failed(e) => e is FontDelete,
            _ => false,
        },
        !(sync.state is Reconciling) && !sync.over() ==> match sync.step(event, parsed).state {
            SyncStateView::Failed(e) => !(e is FontDelete),
            _ => true,
        },
{
}

/// A sync asks for a deletion, a fetch or a write only while its pass is
/// under way, and then it asks for what the pass asks for; the name of a
/// file that it asks to delete or to write is fit for the name of a file.
pub proof fn sync_reconciles_by_pass(sync: SyncView)
    requires
        sync.wf(),
    ensures
        sync.action() is Reconcile <==> sync.state is Reconciling,
        sync.state matches SyncStateView::Reconciling(pass) ==> sync.action()
            == SyncActionView::Reconcile(pass.action()) && !(pass.action() is Stop),
        sync.action() matches SyncActionView::Reconcile(PassActionView::Delete(file))
            ==> fit_for_file(file),
        sync.action() matches SyncActionView::Reconcile(PassActionView::Write(file))
            ==> fit_for_file(file),
{
    if let SyncStateView::Reconciling(pass) = sync.state {
        actions_are_fit(pass);
    }
}

/// Only fonts are touched.  In a pass planned from a listing, a file that
/// is asked to be deleted is a regular file of that listing whose name ends
/// with the font extension and whose key no variant of the manifest has; and
/// a file that is asked to be written is named by the key of a variant of the
/// manifest that was not in the listing.  So a file that is no font is never
/// deleted, and a font that is present is never written again.
pub proof fn only_fonts_are_touched(
    fonts: Seq<FontView>,
    entries: Seq<ScanEntryView>,
    pass: PassView,
)
    requires
        pass.wf(),
        pass.deletions == PassView::plan(fonts, fonts_present(entries)).deletions,
        pass.downloads == PassView::plan(fonts, fonts_present(entries)).downloads,
    ensures
        pass.action() matches PassActionView::Delete(file) ==> exists|i: int, name: Seq<char>|
            {
                &&& 0 <= i < entries.len()
                &&& (#[trigger] entries[i]).kind == EntryKind::File
                &&& entries[i].name == Some(file)
                &&& file == #[trigger] file_name_of(name)
                &&& !is_desired(fonts, name)
            },
        pass.action() matches PassActionView::Write(file) ==> exists|name: Seq<char>|
            {
                &&& file == #[trigger] file_name_of(name)
                &&& is_desired(fonts, name)
                &&& !lists_font(entries, name)
            },
{
    let present = fonts_present(entries);
    match pass.action() {
        PassActionView::Delete(file) => {
            let name = pass.deletions[pass.deleted as int];
            assert(pass.deletions.contains(name));
            lemma_fit_only_holds(stale(present, fonts), name);
            lemma_stale_holds(present, fonts, name);
            lemma_present_holds(entries, name);
            let i = choose|i: int|
                0 <= i < entries.len() && font_of_entry(#[trigger] entries[i]) == Some(name);
            lemma_stem(entries[i].name->0, name);
            assert(entries[i].kind == EntryKind::File && entries[i].name == Some(file) && file
                == file_name_of(name) && !is_desired(fonts, name));
        },
        PassActionView::Write(file) => {
            let download = pass.downloads[pass.outcomes.len() as int];
            let name = download.name;
            assert(fetches(pass.downloads, name));
            lemma_missing_holds(fonts, present, name);
            lemma_present_holds(entries, name);
            assert(file == file_name_of(name) && is_desired(fonts, name) && !lists_font(
                entries,
                name,
            ));
        },
        _ => {},
    }
}

} // verus!
