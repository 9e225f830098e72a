//! One pass over a project's folder: which files go, which fonts are
//! fetched, and in what order.
//!
//! A [`Pass`] is a machine.  It says what is to be done next
//! ([`Pass::action`]), and is told what came of it ([`Pass::step`]).  All
//! deletions come first; a deletion that fails ends the pass.  The downloads
//! follow, each on its own: one that fails is noted and the next is tried.
//! No file is deleted or written whose name holds what no name of a file
//! can hold, a slash or the character with the number 0: a key with one of
//! these is left where it is, or passed over.

use vstd::prelude::*;
use crate::sync::file_name_of;
use crate::sync::fit_for_file;
use crate::sync::is_fit_for_file;
use crate::sync::lemma_fit_file_name;
use crate::sync::font_file_name;
use crate::sync::FontView;
use crate::sync::TkFont;
use crate::text::holds_text;
use crate::text::lemma_push_holds;

verus! {

/// Whether some variant of `desired` has the key `name`.
pub open spec fn is_desired(desired: Seq<FontView>, name: Seq<char>) -> bool {
    exists|i: int| 0 <= i < desired.len() && (#[trigger] desired[i]).full_name() == name
}

/// The keys of the variants of `desired`.
pub open spec fn desired_names(desired: Seq<FontView>) -> Set<Seq<char>> {
    Set::new(|name: Seq<char>| is_desired(desired, name))
}

/// Whether every one of `names` is fit for the name of a file.
pub open spec fn all_fit(names: Seq<Seq<char>>) -> bool {
    forall|k: int| 0 <= k < names.len() ==> fit_for_file(#[trigger] names[k])
}

/// Those of `names` that are fit for the name of a file, in their order.
pub open spec fn fit_only(names: Seq<Seq<char>>) -> Seq<Seq<char>>
    decreases names.len(),
{
    if names.len() == 0 {
        Seq::empty()
    } else {
        let front = fit_only(names.drop_last());
        if fit_for_file(names.last()) {
            front.push(names.last())
        } else {
            front
        }
    }
}

/// The keys of `present` that no variant of `desired` has, in their order.
pub open spec fn stale(present: Seq<Seq<char>>, desired: Seq<FontView>) -> Seq<Seq<char>>
    decreases present.len(),
{
    if present.len() == 0 {
        Seq::empty()
    } else {
        let front = stale(present.drop_last(), desired);
        if is_desired(desired, present.last()) {
            front
        } else {
            front.push(present.last())
        }
    }
}

/// A font to fetch: the key of the variant and the address of its desktop
/// format.
#[derive(Debug, PartialEq, Eq)]
pub struct Download {
    pub name: String,
    pub url: String,
}

/// What a [`Download`] holds, as mathematical values.
pub struct DownloadView {
    pub name: Seq<char>,
    pub url: Seq<char>,
}

impl View for Download {
    type V = DownloadView;

    open spec fn view(&self) -> DownloadView {
        DownloadView { name: self.name@, url: self.url@ }
    }
}

impl DeepView for Download {
    type V = DownloadView;

    open spec fn deep_view(&self) -> DownloadView {
        self@
    }
}

/// The download that brings the variant `font`.
pub open spec fn download_of(font: FontView) -> DownloadView {
    DownloadView { name: font.full_name(), url: font.opentype }
}

/// The downloads for the variants of `desired` whose key is not among
/// `present`, in the order of `desired`.  Two variants with one key give two
/// downloads to one file, of which the later one stays.
pub open spec fn missing(desired: Seq<FontView>, present: Seq<Seq<char>>) -> Seq<DownloadView>
    decreases desired.len(),
{
    if desired.len() == 0 {
        Seq::empty()
    } else {
        let front = missing(desired.drop_last(), present);
        if present.contains(desired.last().full_name()) {
            front
        } else {
            front.push(download_of(desired.last()))
        }
    }
}

/// Where a pass stands.
#[derive(Clone, Copy, Debug, PartialEq, Eq, Structural)]
pub enum Stage {
    /// A file is being deleted.
    Deleting,
    /// A font is being fetched.
    Fetching,
    /// A fetched font is being written.
    Writing,
    /// A font whose key is not fit for the name of a file is being passed
    /// over.
    Skipping,
    /// Nothing is left to do.
    Finished,
    /// A deletion failed; nothing more is done.
    Aborted,
}

/// What came of one download.
#[derive(Clone, Copy, Debug, PartialEq, Eq, Structural)]
pub enum FontOutcome {
    /// The font was fetched and written.
    Saved,
    /// The address could not be reached.
    Unreachable,
    /// The address answered with this status, which is not 200.
    Refused(u16),
    /// The font was fetched, and the file could not be written.
    Unwritten,
    /// The font's key is not fit for the name of a file; nothing was
    /// fetched.
    Unfit,
}

/// What came of the action that a pass asked for.
#[derive(Clone, Copy, Debug, PartialEq, Eq, Structural)]
pub enum PassEvent {
    /// The file was deleted.
    Deleted,
    /// The file could not be deleted.
    DeleteFailed,
    /// The address answered, with this status.
    Fetched(u16),
    /// The address could not be reached.
    FetchFailed,
    /// The file was written.
    Written,
    /// The file could not be written.
    WriteFailed,
    /// The font was passed over.
    Skipped,
}

/// What a pass asks for next.
#[derive(Debug, PartialEq, Eq)]
pub enum PassAction {
    /// Delete the file of this name from the folder.
    Delete(String),
    /// Fetch what is at this address.
    Fetch(String),
    /// Write what was just fetched to the file of this name in the folder.
    Write(String),
    /// Pass over the font at this address: its key is not fit for the name
    /// of a file.  There is nothing to do but to say so.
    Skip(String),
    /// Nothing: the pass is over.
    Stop,
}

/// What a [`PassAction`] holds, as mathematical values.
pub enum PassActionView {
    Delete(Seq<char>),
    Fetch(Seq<char>),
    Write(Seq<char>),
    Skip(Seq<char>),
    Stop,
}

impl View for PassAction {
    type V = PassActionView;

    open spec fn view(&self) -> PassActionView {
        match self {
            PassAction::Delete(file) => PassActionView::Delete(file@),
            PassAction::Fetch(url) => PassActionView::Fetch(url@),
            PassAction::Write(file) => PassActionView::Write(file@),
            PassAction::Skip(url) => PassActionView::Skip(url@),
            PassAction::Stop => PassActionView::Stop,
        }
    }
}

/// The status with which an address hands out what was asked for.
pub const STATUS_OK: u16 = 200;

/// The stage of a pass with `deleted` of its `deletions` deletions done and
/// `tried` of its downloads tried: the next download is fetched where its key
/// is fit for the name of a file, and else passed over.
pub open spec fn stage_at(
    deletions: nat,
    deleted: nat,
    downloads: Seq<DownloadView>,
    tried: nat,
) -> Stage {
    if deleted < deletions {
        Stage::Deleting
    } else if tried < downloads.len() {
        if fit_for_file(downloads[tried as int].name) {
            Stage::Fetching
        } else {
            Stage::Skipping
        }
    } else {
        Stage::Finished
    }
}

/// A pass, as mathematical values.
pub struct PassView {
    /// The keys of the files to delete.
    pub deletions: Seq<Seq<char>>,
    /// The fonts to fetch.
    pub downloads: Seq<DownloadView>,
    /// Where the pass stands.
    pub stage: Stage,
    /// How many deletions are done.
    pub deleted: nat,
    /// What came of the downloads that were tried, in their order.
    pub outcomes: Seq<FontOutcome>,
}

impl PassView {
    /// The counters fit the stage: while a file is deleted no download has
    /// been tried, and no download is tried before every deletion is done.
    /// Every key to delete is fit for the name of a file, and so is the key
    /// of a font that is fetched or written; the key of a font that is
    /// passed over is not.
    pub open spec fn wf(self) -> bool {
        &&& all_fit(self.deletions)
        &&& match self.stage {
            Stage::Deleting | Stage::Aborted => {
                self.deleted < self.deletions.len() && self.outcomes.len() == 0
            },
            Stage::Fetching | Stage::Writing => {
                &&& self.deleted == self.deletions.len()
                &&& self.outcomes.len() < self.downloads.len()
                &&& fit_for_file(self.downloads[self.outcomes.len() as int].name)
            },
            Stage::Skipping => {
                &&& self.deleted == self.deletions.len()
                &&& self.outcomes.len() < self.downloads.len()
                &&& !fit_for_file(self.downloads[self.outcomes.len() as int].name)
            },
            Stage::Finished => {
                self.deleted == self.deletions.len() && self.outcomes.len()
                    == self.downloads.len()
            },
        }
    }

    /// The pass that has these deletions and downloads before it.
    pub open spec fn begin(deletions: Seq<Seq<char>>, downloads: Seq<DownloadView>) -> PassView {
        PassView {
            deletions,
            downloads,
            stage: stage_at(deletions.len(), 0, downloads, 0),
            deleted: 0,
            outcomes: Seq::empty(),
        }
    }

    /// The pass that brings a folder with the fonts `present` to the
    /// variants `desired`: it deletes every present key that no variant has,
    /// and fetches every variant whose key is not present.  A key that is not
    /// fit for the name of a file, which no folder holds, is not deleted.
    pub open spec fn plan(desired: Seq<FontView>, present: Seq<Seq<char>>) -> PassView {
        PassView::begin(fit_only(stale(present, desired)), missing(desired, present))
    }

    /// What the pass asks for.
    pub open spec fn action(self) -> PassActionView {
        match self.stage {
            Stage::Deleting => PassActionView::Delete(
                file_name_of(self.deletions[self.deleted as int]),
            ),
            Stage::Fetching => PassActionView::Fetch(self.downloads[self.outcomes.len() as int].url),
            Stage::Writing => PassActionView::Write(
                file_name_of(self.downloads[self.outcomes.len() as int].name),
            ),
            Stage::Skipping => PassActionView::Skip(self.downloads[self.outcomes.len() as int].url),
            Stage::Finished | Stage::Aborted => PassActionView::Stop,
        }
    }

    /// The key of the font that the pass has in hand: the one whose file is
    /// being deleted (or could not be deleted), or the one that is being
    /// fetched, written or passed over.
    pub open spec fn font(self) -> Option<Seq<char>> {
        match self.stage {
            Stage::Deleting | Stage::Aborted => Some(self.deletions[self.deleted as int]),
            Stage::Fetching | Stage::Writing | Stage::Skipping => Some(
                self.downloads[self.outcomes.len() as int].name,
            ),
            Stage::Finished => None,
        }
    }

    /// The pass once `outcome` is noted for the download that was being
    /// tried: the next download is tried, or the pass is finished.
    pub open spec fn settle(self, outcome: FontOutcome) -> PassView {
        PassView {
            stage: stage_at(
                self.deletions.len(),
                self.deleted,
                self.downloads,
                self.outcomes.len() + 1,
            ),
            outcomes: self.outcomes.push(outcome),
            ..self
        }
    }

    /// The pass once `event` has been reported.  An event that does not
    /// answer what the pass asked for changes nothing.
    pub open spec fn step(self, event: PassEvent) -> PassView {
        match (self.stage, event) {
            (Stage::Deleting, PassEvent::Deleted) => PassView {
                stage: stage_at(self.deletions.len(), self.deleted + 1, self.downloads, 0),
                deleted: self.deleted + 1,
                ..self
            },
            (Stage::Deleting, PassEvent::DeleteFailed) => PassView { stage: Stage::Aborted, ..self },
            (Stage::Fetching, PassEvent::Fetched(status)) => {
                if status == STATUS_OK {
                    PassView { stage: Stage::Writing, ..self }
                } else {
                    self.settle(FontOutcome::Refused(status))
                }
            },
            (Stage::Fetching, PassEvent::FetchFailed) => self.settle(FontOutcome::Unreachable),
            (Stage::Writing, PassEvent::Written) => self.settle(FontOutcome::Saved),
            (Stage::Writing, PassEvent::WriteFailed) => self.settle(FontOutcome::Unwritten),
            (Stage::Skipping, PassEvent::Skipped) => self.settle(FontOutcome::Unfit),
            _ => self,
        }
    }

    /// Whether the pass has deleted the file with the key `name`.
    pub open spec fn has_removed(self, name: Seq<char>) -> bool {
        exists|k: int| 0 <= k < self.deleted && #[trigger] self.deletions[k] == name
    }

    /// Whether the pass has written the file with the key `name`.
    pub open spec fn has_saved(self, name: Seq<char>) -> bool {
        exists|k: int|
            0 <= k < self.outcomes.len() && #[trigger] self.outcomes[k] == FontOutcome::Saved
                && self.downloads[k].name == name
    }

    /// The keys of the fonts in the folder, given those that were there
    /// `before` the pass: what the pass deleted is gone, what it wrote is
    /// there.
    pub open spec fn directory(self, before: Set<Seq<char>>) -> Set<Seq<char>> {
        Set::new(
            |name: Seq<char>|
                (before.contains(name) && !self.has_removed(name)) || self.has_saved(name),
        )
    }

    /// How many answers the pass still waits for at most: one for each
    /// deletion that is left, two for each download that is left (the fetch
    /// and the write), less the fetch where the write is being waited for.
    pub open spec fn left(self) -> int {
        match self.stage {
            Stage::Aborted => 0,
            Stage::Writing => (self.deletions.len() - self.deleted) + 2 * (self.downloads.len()
                - self.outcomes.len()) - 1,
            _ => (self.deletions.len() - self.deleted) + 2 * (self.downloads.len()
                - self.outcomes.len()),
        }
    }

    /// Whether `event` answers what the pass asks for.
    pub open spec fn answers(self, event: PassEvent) -> bool {
        match self.stage {
            Stage::Deleting => event == PassEvent::Deleted || event == PassEvent::DeleteFailed,
            Stage::Fetching => event is Fetched || event == PassEvent::FetchFailed,
            Stage::Writing => event == PassEvent::Written || event == PassEvent::WriteFailed,
            Stage::Skipping => event == PassEvent::Skipped,
            Stage::Finished | Stage::Aborted => false,
        }
    }

    /// Whether the pass is finished and every download was saved.
    pub open spec fn clean(self) -> bool {
        &&& self.stage == Stage::Finished
        &&& forall|k: int|
            0 <= k < self.outcomes.len() ==> #[trigger] self.outcomes[k] == FontOutcome::Saved
    }
}

/// One pass over a project's folder.
#[derive(Debug)]
pub struct Pass {
    deletions: Vec<String>,
    downloads: Vec<Download>,
    stage: Stage,
    deleted: usize,
    outcomes: Vec<FontOutcome>,
}

impl View for Pass {
    type V = PassView;

    closed spec fn view(&self) -> PassView {
        PassView {
            deletions: self.deletions.deep_view(),
            downloads: self.downloads.deep_view(),
            stage: self.stage,
            deleted: self.deleted as nat,
            outcomes: self.outcomes@,
        }
    }
}

/// How many of the outcomes are not that the font was saved.
pub open spec fn unsaved(outcomes: Seq<FontOutcome>) -> nat
    decreases outcomes.len(),
{
    if outcomes.len() == 0 {
        0
    } else {
        let before = unsaved(outcomes.drop_last());
        if outcomes.last() == FontOutcome::Saved {
            before
        } else {
            before + 1
        }
    }
}

/// How many of the downloads went wrong.
pub fn count_unsaved(outcomes: &Vec<FontOutcome>) -> (r: usize)
    ensures
        r == unsaved(outcomes@),
{
    let mut count: usize = 0;
    let mut i: usize = 0;
    assert(outcomes@.take(0) =~= Seq::empty());
    while i < outcomes.len()
        invariant
            i <= outcomes.len(),
            count == unsaved(outcomes@.take(i as int)),
            count <= i,
        decreases outcomes.len() - i,
    {
        proof {
            assert(outcomes@.take(i + 1).drop_last() =~= outcomes@.take(i as int));
            assert(outcomes@.take(i + 1).last() == outcomes[i as int]);
        }
        match outcomes[i] {
            FontOutcome::Saved => {},
            _ => {
                count += 1;
            },
        }
        i += 1;
    }
    assert(outcomes@.take(i as int) =~= outcomes@);
    count
}

/// The stage of a pass with `deleted` of its deletions done and `tried` of
/// its downloads tried.
fn stage_of(deletions: usize, deleted: usize, downloads: &Vec<Download>, tried: usize) -> (r: Stage)
    ensures
        r == stage_at(deletions as nat, deleted as nat, downloads.deep_view(), tried as nat),
{
    assert(downloads.deep_view().len() == downloads.len());
    if deleted < deletions {
        Stage::Deleting
    } else if tried < downloads.len() {
        assert(downloads.deep_view()[tried as int] == downloads[tried as int]@);
        if is_fit_for_file(downloads[tried].name.as_str()) {
            Stage::Fetching
        } else {
            Stage::Skipping
        }
    } else {
        Stage::Finished
    }
}

/// The keys of the variants, in their order.
fn full_names(desired: &Vec<TkFont>) -> (names: Vec<String>)
    ensures
        names.len() == desired.len(),
        forall|k: int|
            0 <= k < desired.len() ==> (#[trigger] names.deep_view()[k])
                == desired.deep_view()[k].full_name(),
{
    let mut names: Vec<String> = Vec::new();
    let mut i: usize = 0;
    while i < desired.len()
        invariant
            i <= desired.len(),
            names.len() == i,
            forall|k: int|
                0 <= k < i ==> (#[trigger] names.deep_view()[k])
                    == desired.deep_view()[k].full_name(),
        decreases desired.len() - i,
    {
        let ghost before = names.deep_view();
        let name = desired[i].full_name();
        names.push(name);
        proof {
            assert(names.deep_view() =~= before.push(name@));
            assert(desired.deep_view()[i as int] == desired[i as int]@);
        }
        i += 1;
    }
    names
}

impl Pass {
    /// The pass is well formed.  This holds of every pass.
    #[verifier::type_invariant]
    pub open spec fn wf(&self) -> bool {
        self@.wf()
    }

    /// Plans the pass that brings a folder with the fonts `present` to the
    /// variants `desired`: every present font that is not desired is
    /// deleted, every desired font that is not present is fetched.  A key
    /// with a slash or the character with the number 0 in it, which no
    /// listing gives, is left alone where it is present, and passed over
    /// where it is desired.
    pub fn new(desired: &Vec<TkFont>, present: &Vec<String>) -> (r: Pass)
        ensures
            r@ == PassView::plan(desired.deep_view(), present.deep_view()),
            r@.wf(),
    {
        let ghost want = desired.deep_view();
        let ghost have = present.deep_view();
        let names = full_names(desired);
        let mut deletions: Vec<String> = Vec::new();
        let mut i: usize = 0;
        assert(have.take(0) =~= Seq::empty());
        assert(deletions.deep_view() =~= Seq::empty());
        while i < present.len()
            invariant
                i <= present.len(),
                want == desired.deep_view(),
                have == present.deep_view(),
                names.len() == desired.len(),
                forall|k: int|
                    0 <= k < desired.len() ==> (#[trigger] names.deep_view()[k])
                        == want[k].full_name(),
                deletions.deep_view() == fit_only(stale(have.take(i as int), want)),
                all_fit(deletions.deep_view()),
            decreases present.len() - i,
        {
            let ghost before = deletions.deep_view();
            let name = &present[i];
            proof {
                assert(have.take(i + 1).drop_last() =~= have.take(i as int));
                assert(have.take(i + 1).last() == name@);
                lemma_named(names.deep_view(), want, name@);
            }
            let ghost gone = stale(have.take(i as int), want);
            if !holds_text(&names, name.as_str()) {
                assert(gone.push(name@).drop_last() =~= gone);
                if is_fit_for_file(name.as_str()) {
                    deletions.push(name.clone());
                    assert(deletions.deep_view() =~= before.push(name@));
                }
            }
            i += 1;
        }
        assert(have.take(i as int) =~= have);
        let mut downloads: Vec<Download> = Vec::new();
        let mut j: usize = 0;
        assert(want.take(0) =~= Seq::empty());
        assert(downloads.deep_view() =~= Seq::empty());
        while j < desired.len()
            invariant
                j <= desired.len(),
                want == desired.deep_view(),
                have == present.deep_view(),
                names.len() == desired.len(),
                forall|k: int|
                    0 <= k < desired.len() ==> (#[trigger] names.deep_view()[k])
                        == want[k].full_name(),
                downloads.deep_view() == missing(want.take(j as int), have),
            decreases desired.len() - j,
        {
            let ghost before = downloads.deep_view();
            let font = &desired[j];
            let name = &names[j];
            proof {
                assert(want.take(j + 1).drop_last() =~= want.take(j as int));
                assert(want.take(j + 1).last() == font@);
                assert(names.deep_view()[j as int] == name@);
            }
            if !holds_text(present, name.as_str()) {
                let download = Download { name: name.clone(), url: font.opentype.clone() };
                downloads.push(download);
                assert(downloads.deep_view() =~= before.push(download_of(font@)));
            }
            j += 1;
        }
        assert(want.take(j as int) =~= want);
        let stage = stage_of(deletions.len(), 0, &downloads, 0);
        Pass { deletions, downloads, stage, deleted: 0, outcomes: Vec::new() }
    }

    /// Where the pass stands.
    pub fn stage(&self) -> (r: Stage)
        ensures
            r == self@.stage,
            self@.wf(),
    {
        proof {
            use_type_invariant(self);
        }
        self.stage
    }

    /// Whether the pass is over, finished or aborted.
    pub fn is_over(&self) -> (r: bool)
        ensures
            r == (self@.stage == Stage::Finished || self@.stage == Stage::Aborted),
    {
        match self.stage {
            Stage::Finished | Stage::Aborted => true,
            _ => false,
        }
    }

    /// The keys of the files that the pass deletes, in their order.
    pub fn deletions(&self) -> (r: &Vec<String>)
        ensures
            r.deep_view() == self@.deletions,
    {
        &self.deletions
    }

    /// The fonts that the pass fetches, in their order.
    pub fn downloads(&self) -> (r: &Vec<Download>)
        ensures
            r.deep_view() == self@.downloads,
    {
        &self.downloads
    }

    /// How many deletions are done.
    pub fn deleted(&self) -> (r: usize)
        ensures
            r == self@.deleted,
    {
        self.deleted
    }

    /// What came of the downloads that were tried so far, in their order.
    pub fn outcomes(&self) -> (r: &Vec<FontOutcome>)
        ensures
            r@ == self@.outcomes,
    {
        &self.outcomes
    }

    /// What is to be done next.  The name of a file to delete or to write
    /// is fit for the name of a file.
    pub fn action(&self) -> (r: PassAction)
        ensures
            r@ == self@.action(),
            self@.wf(),
            r@ matches PassActionView::Delete(file) ==> fit_for_file(file),
            r@ matches PassActionView::Write(file) ==> fit_for_file(file),
    {
        proof {
            use_type_invariant(self);
            actions_are_fit(self@);
        }
        match self.stage {
            Stage::Deleting => {
                let name = &self.deletions[self.deleted];
                PassAction::Delete(font_file_name(name.as_str()))
            },
            Stage::Fetching => {
                let download = &self.downloads[self.outcomes.len()];
                PassAction::Fetch(download.url.clone())
            },
            Stage::Writing => {
                let download = &self.downloads[self.outcomes.len()];
                PassAction::Write(font_file_name(download.name.as_str()))
            },
            Stage::Skipping => {
                let download = &self.downloads[self.outcomes.len()];
                PassAction::Skip(download.url.clone())
            },
            Stage::Finished | Stage::Aborted => PassAction::Stop,
        }
    }

    /// The key of the font that the pass has in hand, for those who tell
    /// of it: the one whose file is being deleted (or could not be deleted),
    /// or the one that is being fetched, written or passed over.  The key of
    /// a font that is passed over is not fit for the name of a file.
    pub fn font(&self) -> (r: Option<&String>)
        ensures
            self@.wf(),
            match r {
                Some(key) => self@.font() == Some(key@),
                None => self@.font() is None,
            },
    {
        proof {
            use_type_invariant(self);
        }
        match self.stage {
            Stage::Deleting | Stage::Aborted => {
                let key = &self.deletions[self.deleted];
                assert(self.deletions.deep_view()[self.deleted as int] == key@);
                Some(key)
            },
            Stage::Fetching | Stage::Writing | Stage::Skipping => {
                let download = &self.downloads[self.outcomes.len()];
                assert(self.downloads.deep_view()[self.outcomes.len() as int] == download@);
                Some(&download.name)
            },
            Stage::Finished => None,
        }
    }

    /// The pass that has nothing to do.
    fn idle() -> (r: Pass)
        ensures
            r@ == PassView::begin(Seq::empty(), Seq::empty()),
    {
        let r = Pass {
            deletions: Vec::new(),
            downloads: Vec::new(),
            stage: Stage::Finished,
            deleted: 0,
            outcomes: Vec::new(),
        };
        assert(r.deletions.deep_view() =~= Seq::empty() && r.downloads.deep_view()
            =~= Seq::empty());
        r
    }

    /// The pass once `event` has been reported.
    fn advance(self, event: PassEvent) -> (next: Pass)
        ensures
            self@.wf(),
            next@ == self@.step(event),
            next@.wf(),
    {
        proof {
            use_type_invariant(&self);
        }
        let Pass { deletions, downloads, stage, deleted, mut outcomes } = self;
        assert(deletions.deep_view().len() == deletions.len());
        assert(downloads.deep_view().len() == downloads.len());
        let (stage, deleted) = match (stage, event) {
            (Stage::Deleting, PassEvent::Deleted) => (
                stage_of(deletions.len(), deleted + 1, &downloads, 0),
                deleted + 1,
            ),
            (Stage::Deleting, PassEvent::DeleteFailed) => (Stage::Aborted, deleted),
            (Stage::Fetching, PassEvent::Fetched(status)) => {
                if status == STATUS_OK {
                    (Stage::Writing, deleted)
                } else {
                    outcomes.push(FontOutcome::Refused(status));
                    (stage_of(deletions.len(), deleted, &downloads, outcomes.len()), deleted)
                }
            },
            (Stage::Fetching, PassEvent::FetchFailed) => {
                outcomes.push(FontOutcome::Unreachable);
                (stage_of(deletions.len(), deleted, &downloads, outcomes.len()), deleted)
            },
            (Stage::Writing, PassEvent::Written) => {
                outcomes.push(FontOutcome::Saved);
                (stage_of(deletions.len(), deleted, &downloads, outcomes.len()), deleted)
            },
            (Stage::Writing, PassEvent::WriteFailed) => {
                outcomes.push(FontOutcome::Unwritten);
                (stage_of(deletions.len(), deleted, &downloads, outcomes.len()), deleted)
            },
            (Stage::Skipping, PassEvent::Skipped) => {
                outcomes.push(FontOutcome::Unfit);
                (stage_of(deletions.len(), deleted, &downloads, outcomes.len()), deleted)
            },
            (stage, _) => (stage, deleted),
        };
        Pass { deletions, downloads, stage, deleted, outcomes }
    }

    /// Takes in what came of the action that the pass asked for.
    pub fn step(&mut self, event: PassEvent)
        ensures
            old(self)@.wf(),
            final(self)@ == old(self)@.step(event),
            final(self)@.wf(),
    {
        let mut pass = Pass::idle();
        core::mem::swap(self, &mut pass);
        *self = pass.advance(event);
    }
}

/// A list of the variants' keys holds a key exactly where some variant has
/// it.
pub proof fn lemma_named(names: Seq<Seq<char>>, desired: Seq<FontView>, name: Seq<char>)
    requires
        names.len() == desired.len(),
        forall|k: int| 0 <= k < desired.len() ==> (#[trigger] names[k]) == desired[k].full_name(),
    ensures
        names.contains(name) == is_desired(desired, name),
{
    if names.contains(name) {
        let k = choose|k: int| 0 <= k < names.len() && names[k] == name;
        assert(desired[k].full_name() == name);
    }
    if is_desired(desired, name) {
        let k = choose|k: int| 0 <= k < desired.len() && (#[trigger] desired[k]).full_name() == name;
        assert(names[k] == name);
    }
}

/// Whether some download of `downloads` brings the font with the key
/// `name`.
pub open spec fn fetches(downloads: Seq<DownloadView>, name: Seq<char>) -> bool {
    exists|k: int| 0 <= k < downloads.len() && (#[trigger] downloads[k]).name == name
}

/// Of some names, those that are fit for the name of a file are kept, and
/// no other.
pub proof fn lemma_fit_only_holds(names: Seq<Seq<char>>, name: Seq<char>)
    ensures
        fit_only(names).contains(name) <==> names.contains(name) && fit_for_file(name),
        all_fit(fit_only(names)),
        all_fit(names) ==> fit_only(names) == names,
    decreases names.len(),
{
    if names.len() > 0 {
        let front = names.drop_last();
        let last = names.last();
        assert(front.push(last) =~= names);
        lemma_fit_only_holds(front, name);
        lemma_push_holds(front, last, name);
        lemma_push_holds(fit_only(front), last, name);
        if all_fit(names) {
            assert(all_fit(front)) by {
                assert forall|k: int| 0 <= k < front.len() implies fit_for_file(
                    #[trigger] front[k],
                ) by {
                    assert(front[k] == names[k]);
                }
            }
            assert(fit_for_file(names[names.len() - 1]));
        }
    }
}

/// A key is stale exactly where it is present and not desired.
pub proof fn lemma_stale_holds(present: Seq<Seq<char>>, desired: Seq<FontView>, name: Seq<char>)
    ensures
        stale(present, desired).contains(name) <==> present.contains(name) && !is_desired(
            desired,
            name,
        ),
    decreases present.len(),
{
    if present.len() > 0 {
        let front = present.drop_last();
        let last = present.last();
        assert(front.push(last) =~= present);
        lemma_stale_holds(front, desired, name);
        lemma_push_holds(front, last, name);
        lemma_push_holds(stale(front, desired), last, name);
    }
}

/// A font is fetched exactly where it is desired and not present.
pub proof fn lemma_missing_holds(desired: Seq<FontView>, present: Seq<Seq<char>>, name: Seq<char>)
    ensures
        fetches(missing(desired, present), name) <==> is_desired(desired, name)
            && !present.contains(name),
    decreases desired.len(),
{
    if desired.len() > 0 {
        let front = desired.drop_last();
        let last = desired.last();
        let before = missing(front, present);
        let all = missing(desired, present);
        lemma_missing_holds(front, present, name);
        if fetches(all, name) {
            let k = choose|k: int| 0 <= k < all.len() && (#[trigger] all[k]).name == name;
            if k < before.len() {
                assert(before[k].name == name);
                assert(fetches(before, name));
                let i = choose|i: int|
                    0 <= i < front.len() && (#[trigger] front[i]).full_name() == name;
                assert(desired[i].full_name() == name);
            } else {
                assert(desired[desired.len() - 1].full_name() == name);
            }
        }
        if is_desired(desired, name) && !present.contains(name) {
            let i = choose|i: int|
                0 <= i < desired.len() && (#[trigger] desired[i]).full_name() == name;
            if i < front.len() {
                assert(front[i].full_name() == name);
                assert(fetches(before, name));
                let k = choose|k: int| 0 <= k < before.len() && (#[trigger] before[k]).name == name;
                assert(all[k].name == name);
            } else {
                assert(all[all.len() - 1].name == name);
            }
        }
    }
}

/// A planned pass is well formed, whatever is desired and whatever is
/// present.
pub proof fn plan_is_well_formed(desired: Seq<FontView>, present: Seq<Seq<char>>)
    ensures
        PassView::plan(desired, present).wf(),
{
    lemma_fit_only_holds(stale(present, desired), Seq::empty());
}

/// Every pass that comes of a well formed one is well formed, and has the
/// same deletions and downloads before it.
pub proof fn pass_stays_well_formed(pass: PassView, event: PassEvent)
    requires
        pass.wf(),
    ensures
        PassView::begin(pass.deletions, pass.downloads).wf(),
        pass.step(event).wf(),
        pass.step(event).deletions == pass.deletions,
        pass.step(event).downloads == pass.downloads,
{
}

/// No file is touched whose name is not fit for the name of a file.  The
/// name of a file that a pass asks to delete or to write holds no slash and
/// no character with the number 0: joined to the folder, it is one step
/// below the folder.
pub proof fn actions_are_fit(pass: PassView)
    requires
        pass.wf(),
    ensures
        pass.action() matches PassActionView::Delete(file) ==> fit_for_file(file),
        pass.action() matches PassActionView::Write(file) ==> fit_for_file(file),
        pass.action() is Skip ==> pass.font() is Some && !fit_for_file(pass.font()->0),
{
    match pass.stage {
        Stage::Deleting => {
            lemma_fit_file_name(pass.deletions[pass.deleted as int]);
        },
        Stage::Writing => {
            lemma_fit_file_name(pass.downloads[pass.outcomes.len() as int].name);
        },
        _ => {},
    }
}

/// A pass ends, and nothing is tried twice.  Every answer brings the pass
/// nearer to its end: a file is asked to be deleted once, a font to be
/// fetched once and to be written at most once, whatever came of it.  A pass
/// that waits for no more answers is over, and an event that answers nothing
/// leaves the pass where it was.
pub proof fn pass_ends(pass: PassView, event: PassEvent)
    requires
        pass.wf(),
    ensures
        pass.left() >= 0,
        pass.left() == 0 <==> pass.stage == Stage::Finished || pass.stage == Stage::Aborted,
        pass.answers(event) ==> pass.step(event).left() < pass.left(),
        !pass.answers(event) ==> pass.step(event) == pass,
{
}

/// Deletions come before downloads.  While a pass asks for a deletion, no
/// download has been tried; once it asks for a fetch or a write, or passes
/// a font over, every deletion is done; and a pass that has left its
/// deletions behind never asks for one again.
pub proof fn deletions_come_first(pass: PassView, event: PassEvent)
    requires
        pass.wf(),
    ensures
        pass.action() is Delete ==> pass.outcomes.len() == 0,
        pass.action() is Fetch || pass.action() is Write || pass.action() is Skip ==> pass.deleted
            == pass.deletions.len(),
        !(pass.action() is Delete) ==> !(pass.step(event).action() is Delete),
        pass.step(event).deleted >= pass.deleted,
{
}

/// Whether `event` says that a download went wrong: the address could not
/// be reached or answered with another status than 200, the file could not
/// be written, or the font was passed over.
pub open spec fn font_failed(event: PassEvent) -> bool {
    ||| event == PassEvent::FetchFailed
    ||| event == PassEvent::WriteFailed
    ||| event == PassEvent::Skipped
    ||| event matches PassEvent::Fetched(status) && status != STATUS_OK
}

/// A font that fails holds up no other.  Whatever goes wrong with one
/// download, be it the fetch, the status, the write or the font's key, the
/// pass notes it for that font alone and goes on: with the next download
/// where there is one, and else to its end.  It never aborts on a download.
pub proof fn failed_font_is_passed_over(pass: PassView, event: PassEvent)
    requires
        pass.wf(),
        pass.stage == Stage::Fetching || pass.stage == Stage::Writing || pass.stage
            == Stage::Skipping,
        font_failed(event),
    ensures
        pass.step(event).stage != Stage::Aborted,
        pass.step(event) != pass ==> {
            let next = pass.step(event);
            let tried = pass.outcomes.len() as int;
            &&& next.outcomes.len() == tried + 1
            &&& next.outcomes.subrange(0, tried) == pass.outcomes
            &&& next.outcomes[tried] != FontOutcome::Saved
            &&& tried + 1 < pass.downloads.len() ==> next.font() == Some(
                pass.downloads[tried + 1].name,
            ) && (next.action() == PassActionView::Fetch(pass.downloads[tried + 1].url)
                || next.action() == PassActionView::Skip(pass.downloads[tried + 1].url))
            &&& tried + 1 == pass.downloads.len() ==> next.stage == Stage::Finished
        },
        pass.answers(event) ==> pass.step(event) != pass,
{
    let next = pass.step(event);
    if next != pass {
        assert(next.outcomes.subrange(0, pass.outcomes.len() as int) =~= pass.outcomes);
    }
}

/// Two passes with the same deletions, of which as many are done, have
/// deleted the same files.
pub proof fn lemma_same_removed(pass: PassView, next: PassView, name: Seq<char>)
    requires
        next.deletions == pass.deletions,
        next.deleted == pass.deleted,
    ensures
        next.has_removed(name) == pass.has_removed(name),
{
    if next.has_removed(name) {
        let k = choose|k: int| 0 <= k < next.deleted && #[trigger] next.deletions[k] == name;
        assert(pass.deletions[k] == name);
    }
    if pass.has_removed(name) {
        let k = choose|k: int| 0 <= k < pass.deleted && #[trigger] pass.deletions[k] == name;
        assert(next.deletions[k] == name);
    }
}

/// What each event does to the folder.  A deletion that succeeded takes the
/// file out, a write that succeeded puts the file in, and nothing else
/// changes what is there.
pub proof fn step_changes_directory(pass: PassView, event: PassEvent, before: Set<Seq<char>>)
    requires
        pass.wf(),
    ensures
        pass.stage == Stage::Deleting && event == PassEvent::Deleted ==> pass.step(
            event,
        ).directory(before) == pass.directory(before).remove(pass.deletions[pass.deleted as int]),
        pass.stage == Stage::Writing && event == PassEvent::Written ==> pass.step(event).directory(
            before,
        ) == pass.directory(before).insert(pass.downloads[pass.outcomes.len() as int].name),
        !(pass.stage == Stage::Deleting && event == PassEvent::Deleted) && !(pass.stage
            == Stage::Writing && event == PassEvent::Written) ==> pass.step(event).directory(before)
            == pass.directory(before),
{
    let next = pass.step(event);
    if pass.stage == Stage::Deleting && event == PassEvent::Deleted {
        let gone = pass.deletions[pass.deleted as int];
        assert forall|name: Seq<char>| next.has_removed(name) == (pass.has_removed(name) || name
            == gone) by {
            if next.has_removed(name) {
                let k = choose|k: int| 0 <= k < next.deleted && #[trigger] next.deletions[k] == name;
                if k < pass.deleted {
                    assert(pass.deletions[k] == name);
                }
            }
            if pass.has_removed(name) {
                let k = choose|k: int| 0 <= k < pass.deleted && #[trigger] pass.deletions[k] == name;
                assert(next.deletions[k] == name);
            }
            if name == gone {
                assert(next.deletions[pass.deleted as int] == name);
            }
        }
        assert forall|name: Seq<char>| !next.has_saved(name) && !pass.has_saved(name) by {}
        assert(next.directory(before) =~= pass.directory(before).remove(gone));
    } else if pass.stage == Stage::Writing && event == PassEvent::Written {
        let tried = pass.outcomes.len() as int;
        let new = pass.downloads[tried].name;
        assert forall|name: Seq<char>| next.has_saved(name) == (pass.has_saved(name) || name
            == new) by {
            if next.has_saved(name) {
                let k = choose|k: int|
                    0 <= k < next.outcomes.len() && #[trigger] next.outcomes[k]
                        == FontOutcome::Saved && next.downloads[k].name == name;
                if k < tried {
                    assert(pass.outcomes[k] == FontOutcome::Saved);
                }
            }
            if pass.has_saved(name) {
                let k = choose|k: int|
                    0 <= k < pass.outcomes.len() && #[trigger] pass.outcomes[k]
                        == FontOutcome::Saved && pass.downloads[k].name == name;
                assert(next.outcomes[k] == FontOutcome::Saved);
            }
            if name == new {
                assert(next.outcomes[tried] == FontOutcome::Saved);
            }
        }
        assert forall|name: Seq<char>| next.has_removed(name) == pass.has_removed(name) by {
            lemma_same_removed(pass, next, name);
        }
        assert(next.directory(before) =~= pass.directory(before).insert(new));
    } else {
        assert forall|name: Seq<char>| next.has_removed(name) == pass.has_removed(name) by {
            lemma_same_removed(pass, next, name);
        }
        assert forall|name: Seq<char>| next.has_saved(name) == pass.has_saved(name) by {
            if next.has_saved(name) {
                let k = choose|k: int|
                    0 <= k < next.outcomes.len() && #[trigger] next.outcomes[k]
                        == FontOutcome::Saved && next.downloads[k].name == name;
                assert(k < pass.outcomes.len());
                assert(pass.outcomes[k] == FontOutcome::Saved);
            }
            if pass.has_saved(name) {
                let k = choose|k: int|
                    0 <= k < pass.outcomes.len() && #[trigger] pass.outcomes[k]
                        == FontOutcome::Saved && pass.downloads[k].name == name;
                assert(next.outcomes[k] == FontOutcome::Saved);
            }
        }
        assert(next.directory(before) =~= pass.directory(before));
    }
}

/// A pass that went through leaves exactly the desired fonts.  Whatever the
/// manifest asks for and whatever the folder held: once the pass is finished
/// and every download was saved, the keys in the folder are those of the
/// manifest's variants, none more and none less.  Only a key with a slash or
/// the character with the number 0 in it may be left beside them; no folder
/// holds such a key, and the pass deletes no file for one.
pub proof fn clean_pass_is_complete(
    desired: Seq<FontView>,
    present: Seq<Seq<char>>,
    pass: PassView,
)
    requires
        pass.wf(),
        pass.deletions == PassView::plan(desired, present).deletions,
        pass.downloads == PassView::plan(desired, present).downloads,
        pass.clean(),
    ensures
        forall|name: Seq<char>|
            #[trigger] pass.directory(present.to_set()).contains(name) <==> is_desired(
                desired,
                name,
            ) || (present.contains(name) && !fit_for_file(name)),
        all_fit(present) ==> pass.directory(present.to_set()) == desired_names(desired),
{
    assert forall|name: Seq<char>|
        #[trigger] pass.directory(present.to_set()).contains(name) <==> is_desired(desired, name)
            || (present.contains(name) && !fit_for_file(name)) by {
        lemma_fit_only_holds(stale(present, desired), name);
        lemma_stale_holds(present, desired, name);
        lemma_missing_holds(desired, present, name);
        if pass.has_removed(name) {
            let k = choose|k: int| 0 <= k < pass.deleted && #[trigger] pass.deletions[k] == name;
            assert(pass.deletions.contains(name));
        }
        if pass.deletions.contains(name) {
            let k = choose|k: int| 0 <= k < pass.deletions.len() && pass.deletions[k] == name;
            assert(pass.deletions[k] == name);
            assert(pass.has_removed(name));
        }
        if pass.has_saved(name) {
            let k = choose|k: int|
                0 <= k < pass.outcomes.len() && #[trigger] pass.outcomes[k] == FontOutcome::Saved
                    && pass.downloads[k].name == name;
            assert(pass.downloads[k].name == name);
            assert(fetches(pass.downloads, name));
        }
        if fetches(pass.downloads, name) {
            let k = choose|k: int|
                0 <= k < pass.downloads.len() && (#[trigger] pass.downloads[k]).name == name;
            assert(pass.outcomes[k] == FontOutcome::Saved);
            assert(pass.has_saved(name));
        }
    }
    if all_fit(present) {
        assert forall|name: Seq<char>|
            pass.directory(present.to_set()).contains(name) == desired_names(desired).contains(
                name,
            ) by {
            if present.contains(name) {
                let k = choose|k: int| 0 <= k < present.len() && present[k] == name;
                assert(fit_for_file(present[k]));
            }
        }
        assert(pass.directory(present.to_set()) =~= desired_names(desired));
    }
}

/// A folder that holds exactly the desired fonts is left alone: the pass
/// planned for it deletes nothing, fetches nothing and is finished before
/// it has begun.
pub proof fn pass_in_step_is_idle(desired: Seq<FontView>, present: Seq<Seq<char>>)
    requires
        present.to_set() == desired_names(desired),
    ensures
        stale(present, desired).len() == 0,
        missing(desired, present).len() == 0,
        PassView::plan(desired, present).stage == Stage::Finished,
        PassView::plan(desired, present).action() == PassActionView::Stop,
        PassView::plan(desired, present).clean(),
        PassView::plan(desired, present).directory(present.to_set()) == present.to_set(),
{
    let gone = stale(present, desired);
    let new = missing(desired, present);
    if gone.len() > 0 {
        let name = gone[0];
        assert(gone.contains(name));
        lemma_stale_holds(present, desired, name);
        assert(present.to_set().contains(name));
        assert(desired_names(desired).contains(name));
    }
    if new.len() > 0 {
        let name = new[0].name;
        assert(fetches(new, name));
        lemma_missing_holds(desired, present, name);
        assert(desired_names(desired).contains(name));
        assert(present.to_set().contains(name));
    }
    let pass = PassView::plan(desired, present);
    assert(pass.directory(present.to_set()) =~= present.to_set());
}

/// Running twice does the work once.  After a pass that went through, a
/// second pass against the same manifest, planned from a listing of the
/// folder as the first left it, deletes nothing and fetches nothing, and
/// leaves the folder as it found it.
pub proof fn second_pass_is_idle(
    desired: Seq<FontView>,
    present: Seq<Seq<char>>,
    first: PassView,
    listing: Seq<Seq<char>>,
)
    requires
        first.wf(),
        first.deletions == PassView::plan(desired, present).deletions,
        first.downloads == PassView::plan(desired, present).downloads,
        first.clean(),
        listing.to_set() == first.directory(present.to_set()),
    ensures
        PassView::plan(desired, listing).deletions.len() == 0,
        PassView::plan(desired, listing).downloads.len() == 0,
        PassView::plan(desired, listing).action() == PassActionView::Stop,
        PassView::plan(desired, listing).directory(listing.to_set()) == first.directory(
            present.to_set(),
        ),
{
    clean_pass_is_complete(desired, present, first);
    let second = PassView::plan(desired, listing);
    let folder = first.directory(present.to_set());
    if second.deletions.len() > 0 {
        let name = second.deletions[0];
        assert(second.deletions.contains(name));
        lemma_fit_only_holds(stale(listing, desired), name);
        lemma_stale_holds(listing, desired, name);
        assert(listing.to_set().contains(name));
        assert(folder.contains(name));
    }
    if second.downloads.len() > 0 {
        let name = second.downloads[0].name;
        assert(fetches(second.downloads, name));
        lemma_missing_holds(desired, listing, name);
        assert(folder.contains(name));
        assert(listing.to_set().contains(name));
    }
    assert(second.directory(listing.to_set()) =~= listing.to_set());
}

} // verus!
