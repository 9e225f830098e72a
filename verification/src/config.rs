//! The projects that are kept in step, each under its id.

use vstd::prelude::*;
use std::path::PathBuf;
use crate::paths::join_path;
use crate::paths::joined_path;
use crate::text::join3;
use crate::text::same_text;

verus! {

/// One project: the name it is shown under and the directory that its fonts
/// are kept below.
#[derive(Debug, PartialEq)]
pub struct TkProject {
    pub name: String,
    pub path: PathBuf,
}

/// What a [`TkProject`] holds, as mathematical values.
pub struct ProjectView {
    pub name: Seq<char>,
    pub path: PathBuf,
}

impl View for TkProject {
    type V = ProjectView;

    open spec fn view(&self) -> ProjectView {
        ProjectView { name: self.name@, path: self.path }
    }
}

/// The name of a project's folder: the project's name, its id and the word
/// `tksync`, joined by hyphens.
pub open spec fn folder_name(name: Seq<char>, id: Seq<char>) -> Seq<char> {
    name + seq!['-'] + id + seq!['-', 't', 'k', 's', 'y', 'n', 'c']
}

/// The line that shows a project: its id, a colon, its name, an arrow and
/// its path.
pub open spec fn project_line(id: Seq<char>, name: Seq<char>, path: Seq<char>) -> Seq<char> {
    id + ": "@ + name + " -> "@ + path
}

impl TkProject {
    /// The name of this project's folder under the id `id`, as in
    /// `Acme-abc1def-tksync`.
    pub fn folder_name(&self, id: &str) -> (r: String)
        ensures
            r@ == folder_name(self.name@, id@),
    {
        proof {
            reveal_strlit("-");
            reveal_strlit("-tksync");
            assert("-"@ =~= seq!['-']);
            assert("-tksync"@ =~= seq!['-', 't', 'k', 's', 'y', 'n', 'c']);
        }
        let mut out = join3(self.name.as_str(), "-", id);
        out.append("-tksync");
        out
    }

    /// The line that shows this project under the id `id`, with its path
    /// written as `path`, as in `abc1def: Acme -> /home/me/fonts`.
    pub fn line(&self, id: &str, path: &str) -> (r: String)
        ensures
            r@ == project_line(id@, self.name@, path@),
    {
        let mut out = join3(id, ": ", self.name.as_str());
        out.append(" -> ");
        out.append(path);
        out
    }

    /// The project's folder under the id `id`: the folder named by
    /// [`TkProject::folder_name`], below the project's path.
    pub fn get_full_path_using_id(&self, id: &str) -> (r: PathBuf)
        ensures
            r == joined_path(self.path, folder_name(self.name@, id@)),
    {
        let folder = self.folder_name(id);
        join_path(&self.path, folder.as_str())
    }
}

/// An id with its project, as mathematical values.
pub type EntryView = (Seq<char>, ProjectView);

/// The ids and projects of a list of entries, as mathematical values.
pub open spec fn entries_of(list: Seq<(String, TkProject)>) -> Seq<EntryView> {
    Seq::new(list.len(), |i: int| (list[i].0@, list[i].1@))
}

/// Whether some entry is kept under `id`.
pub open spec fn has_id(entries: Seq<EntryView>, id: Seq<char>) -> bool {
    exists|i: int| 0 <= i < entries.len() && (#[trigger] entries[i]).0 == id
}

/// The place of an entry that is kept under `id`.
pub open spec fn place_of(entries: Seq<EntryView>, id: Seq<char>) -> int {
    choose|i: int| 0 <= i < entries.len() && (#[trigger] entries[i]).0 == id
}

/// No id is used twice.
pub open spec fn distinct_ids(entries: Seq<EntryView>) -> bool {
    forall|i: int, j: int|
        0 <= i < j < entries.len() ==> (#[trigger] entries[i]).0 != (#[trigger] entries[j]).0
}

/// The entries that are kept under another id than `id`, in their order.
pub open spec fn without_id(entries: Seq<EntryView>, id: Seq<char>) -> Seq<EntryView> {
    entries.filter(|e: EntryView| e.0 != id)
}

/// The entries as a map from id to project.
pub open spec fn as_map(entries: Seq<EntryView>) -> Map<Seq<char>, ProjectView> {
    Map::new(|id: Seq<char>| has_id(entries, id), |id: Seq<char>| entries[place_of(entries, id)].1)
}

/// The projects that are kept in step, each under its id.  No id is used
/// twice; the projects are kept in the order in which their ids came in.
#[derive(Debug)]
pub struct TkConfig {
    projects: Vec<(String, TkProject)>,
}

impl View for TkConfig {
    type V = Map<Seq<char>, ProjectView>;

    /// The projects by id.
    open spec fn view(&self) -> Map<Seq<char>, ProjectView> {
        as_map(self.entries())
    }
}

impl Default for TkConfig {
    /// A registry without projects.
    fn default() -> (r: TkConfig)
        ensures
            r.wf(),
            r.entries() == Seq::<EntryView>::empty(),
    {
        TkConfig::new()
    }
}

impl TkConfig {
    /// The ids with their projects, in the order in which [`TkConfig::iter`]
    /// gives them.
    pub closed spec fn entries(&self) -> Seq<EntryView> {
        entries_of(self.projects@)
    }

    /// No id is used twice.  This holds of every registry.
    #[verifier::type_invariant]
    pub open spec fn wf(&self) -> bool {
        distinct_ids(self.entries())
    }

    /// A registry without projects.
    pub fn new() -> (r: TkConfig)
        ensures
            r.wf(),
            r.entries() == Seq::<EntryView>::empty(),
            r@ == Map::<Seq<char>, ProjectView>::empty(),
    {
        let r = TkConfig { projects: Vec::new() };
        assert(r.entries() =~= Seq::<EntryView>::empty());
        assert(r@ =~= Map::<Seq<char>, ProjectView>::empty());
        r
    }

    /// Whether no project is kept.
    pub fn is_empty(&self) -> (r: bool)
        ensures
            self.wf(),
            r == (self.entries().len() == 0),
            r == (self@ == Map::<Seq<char>, ProjectView>::empty()),
    {
        let r = self.projects.len() == 0;
        proof {
            use_type_invariant(self);
            let entries = self.entries();
            if r {
                assert(self@ =~= Map::<Seq<char>, ProjectView>::empty());
            } else {
                assert(has_id(entries, entries[0].0));
                assert(self@.contains_key(entries[0].0));
            }
        }
        r
    }

    /// The number of projects.
    pub fn len(&self) -> (r: usize)
        ensures
            r == self.entries().len(),
    {
        self.projects.len()
    }

    /// The ids with their projects, in the order in which the ids came in.
    pub fn iter(&self) -> (r: &Vec<(String, TkProject)>)
        ensures
            entries_of(r@) == self.entries(),
    {
        &self.projects
    }

    /// The place of the project kept under `id`, if there is one.
    fn position(&self, id: &str) -> (r: Option<usize>)
        ensures
            match r {
                Some(i) => i < self.entries().len() && self.entries()[i as int].0 == id@,
                None => !has_id(self.entries(), id@),
            },
    {
        let mut i: usize = 0;
        while i < self.projects.len()
            invariant
                i <= self.projects.len(),
                forall|k: int| 0 <= k < i ==> (#[trigger] self.entries()[k]).0 != id@,
            decreases self.projects.len() - i,
        {
            if same_text(self.projects[i].0.as_str(), id) {
                return Some(i);
            }
            i += 1;
        }
        None
    }

    /// The project that is kept under `id`, if there is one.
    pub fn get(&self, id: &str) -> (r: Option<&TkProject>)
        ensures
            self.wf(),
            match r {
                Some(project) => self@.contains_key(id@) && self@[id@] == project@,
                None => !self@.contains_key(id@),
            },
    {
        proof {
            use_type_invariant(self);
        }
        match self.position(id) {
            Some(i) => {
                proof {
                    lemma_found(self.entries(), i as int);
                }
                Some(&self.projects[i].1)
            },
            None => None,
        }
    }

    /// Whether a project is kept under `id`.
    pub fn contains(&self, id: &str) -> (r: bool)
        ensures
            r == self@.contains_key(id@),
    {
        self.position(id).is_some()
    }

    /// Takes out the project that is kept under `id`.  Where there is none,
    /// nothing changes.
    pub fn remove(&mut self, id: &str)
        ensures
            old(self).wf(),
            final(self).wf(),
            final(self)@ == old(self)@.remove(id@),
            final(self).entries() == without_id(old(self).entries(), id@),
    {
        let ghost before = self.entries();
        proof {
            use_type_invariant(&*self);
        }
        match self.position(id) {
            Some(i) => {
                let mut projects: Vec<(String, TkProject)> = Vec::new();
                assert(entries_of(projects@) =~= Seq::<EntryView>::empty());
                core::mem::swap(&mut self.projects, &mut projects);
                projects.remove(i);
                proof {
                    lemma_removed(before, i as int);
                    lemma_without_one(before, i as int);
                    assert(entries_of(projects@) =~= before.remove(i as int));
                }
                self.projects = projects;
            },
            None => {
                proof {
                    assert(self@ =~= old(self)@.remove(id@));
                    lemma_without_absent(before, id@);
                }
            },
        }
    }

    /// Keeps `project` under `id`.  A project that was kept under `id`
    /// before is replaced, in its place; a new id comes last.
    pub fn add_or_replace(&mut self, id: &str, project: TkProject)
        ensures
            old(self).wf(),
            final(self).wf(),
            final(self)@ == old(self)@.insert(id@, project@),
            old(self)@.contains_key(id@) ==> final(self).entries() == old(self).entries().update(
                place_of(old(self).entries(), id@),
                (id@, project@),
            ),
            !old(self)@.contains_key(id@) ==> final(self).entries() == old(self).entries().push(
                (id@, project@),
            ),
    {
        let ghost before = self.entries();
        let ghost entry = (id@, project@);
        proof {
            use_type_invariant(&*self);
        }
        let place = self.position(id);
        let mut projects: Vec<(String, TkProject)> = Vec::new();
        assert(entries_of(projects@) =~= Seq::<EntryView>::empty());
        core::mem::swap(&mut self.projects, &mut projects);
        match place {
            Some(i) => {
                projects.set(i, (String::from_str(id), project));
                proof {
                    lemma_found(before, i as int);
                    lemma_replaced(before, i as int, entry);
                    assert(entries_of(projects@) =~= before.update(i as int, entry));
                }
            },
            None => {
                projects.push((String::from_str(id), project));
                proof {
                    lemma_added(before, entry);
                    assert(entries_of(projects@) =~= before.push(entry));
                }
            },
        }
        self.projects = projects;
    }
}

/// With distinct ids, the entry at place `i` is the one that its id leads
/// to.
pub proof fn lemma_found(entries: Seq<EntryView>, i: int)
    requires
        distinct_ids(entries),
        0 <= i < entries.len(),
    ensures
        has_id(entries, entries[i].0),
        place_of(entries, entries[i].0) == i,
        as_map(entries).contains_key(entries[i].0),
        as_map(entries)[entries[i].0] == entries[i].1,
{
    let id = entries[i].0;
    assert(has_id(entries, id));
    let j = place_of(entries, id);
    if j < i {
        assert(entries[j].0 != entries[i].0);
    } else if i < j {
        assert(entries[i].0 != entries[j].0);
    }
}

/// Taking out the entry at place `i` takes its id out of the map, and
/// leaves the ids distinct.
pub proof fn lemma_removed(entries: Seq<EntryView>, i: int)
    requires
        distinct_ids(entries),
        0 <= i < entries.len(),
    ensures
        distinct_ids(entries.remove(i)),
        as_map(entries.remove(i)) == as_map(entries).remove(entries[i].0),
{
    let rest = entries.remove(i);
    let id = entries[i].0;
    assert forall|a: int, b: int| 0 <= a < b < rest.len() implies (#[trigger] rest[a]).0 != (
    #[trigger] rest[b]).0 by {
        let a0 = if a < i { a } else { a + 1 };
        let b0 = if b < i { b } else { b + 1 };
        assert(rest[a] == entries[a0]);
        assert(rest[b] == entries[b0]);
    }
    assert forall|key: Seq<char>| #[trigger]
        as_map(rest).contains_key(key) == as_map(entries).remove(id).contains_key(key) by {
        if has_id(rest, key) {
            let k = place_of(rest, key);
            let k0 = if k < i { k } else { k + 1 };
            assert(rest[k] == entries[k0]);
            assert(has_id(entries, key));
            if key == id {
                if k0 < i {
                    assert(entries[k0].0 != entries[i].0);
                } else {
                    assert(entries[i].0 != entries[k0].0);
                }
            }
        }
        if has_id(entries, key) && key != id {
            let k0 = place_of(entries, key);
            let k = if k0 < i { k0 } else { k0 - 1 };
            assert(rest[k] == entries[k0]);
            assert(has_id(rest, key));
        }
    }
    assert forall|key: Seq<char>| as_map(rest).contains_key(key) implies #[trigger] as_map(rest)[key]
        == as_map(entries).remove(id)[key] by {
        let k = place_of(rest, key);
        let k0 = if k < i { k } else { k + 1 };
        assert(rest[k] == entries[k0]);
        lemma_found(entries, k0);
    }
    assert(as_map(rest) =~= as_map(entries).remove(id));
}

/// Replacing the entry at place `i` by one with the same id replaces the
/// project that the id leads to.
pub proof fn lemma_replaced(entries: Seq<EntryView>, i: int, entry: EntryView)
    requires
        distinct_ids(entries),
        0 <= i < entries.len(),
        entries[i].0 == entry.0,
    ensures
        distinct_ids(entries.update(i, entry)),
        as_map(entries.update(i, entry)) == as_map(entries).insert(entry.0, entry.1),
{
    let next = entries.update(i, entry);
    assert forall|a: int, b: int| 0 <= a < b < next.len() implies (#[trigger] next[a]).0 != (
    #[trigger] next[b]).0 by {
        assert(next[a].0 == entries[a].0);
        assert(next[b].0 == entries[b].0);
    }
    assert forall|key: Seq<char>| #[trigger]
        as_map(next).contains_key(key) == as_map(entries).insert(entry.0, entry.1).contains_key(
            key,
        ) by {
        if has_id(next, key) {
            let k = place_of(next, key);
            assert(next[k].0 == entries[k].0);
            assert(has_id(entries, key));
        }
        if has_id(entries, key) {
            let k = place_of(entries, key);
            assert(next[k].0 == entries[k].0);
            assert(has_id(next, key));
        }
        if key == entry.0 {
            assert(next[i].0 == key);
            assert(has_id(next, key));
        }
    }
    assert forall|key: Seq<char>| as_map(next).contains_key(key) implies #[trigger] as_map(next)[key]
        == as_map(entries).insert(entry.0, entry.1)[key] by {
        let k = place_of(next, key);
        lemma_found(next, k);
        if k != i {
            assert(next[k] == entries[k]);
            lemma_found(entries, k);
            assert(entries[k].0 != entries[i].0) by {
                if k < i {
                    assert(entries[k].0 != entries[i].0);
                } else {
                    assert(entries[i].0 != entries[k].0);
                }
            }
        }
    }
    assert(as_map(next) =~= as_map(entries).insert(entry.0, entry.1));
}

/// Adding an entry with a new id adds its id to the map, and leaves the ids
/// distinct.
pub proof fn lemma_added(entries: Seq<EntryView>, entry: EntryView)
    requires
        distinct_ids(entries),
        !has_id(entries, entry.0),
    ensures
        distinct_ids(entries.push(entry)),
        as_map(entries.push(entry)) == as_map(entries).insert(entry.0, entry.1),
{
    let next = entries.push(entry);
    let n = entries.len() as int;
    assert forall|a: int, b: int| 0 <= a < b < next.len() implies (#[trigger] next[a]).0 != (
    #[trigger] next[b]).0 by {
        if b < n {
            assert(next[a] == entries[a]);
            assert(next[b] == entries[b]);
        } else {
            assert(next[a] == entries[a]);
            assert(entries[a].0 != entry.0);
        }
    }
    assert forall|key: Seq<char>| #[trigger]
        as_map(next).contains_key(key) == as_map(entries).insert(entry.0, entry.1).contains_key(
            key,
        ) by {
        if has_id(next, key) {
            let k = place_of(next, key);
            if k < n {
                assert(next[k] == entries[k]);
                assert(has_id(entries, key));
            }
        }
        if has_id(entries, key) {
            let k = place_of(entries, key);
            assert(next[k] == entries[k]);
            assert(has_id(next, key));
        }
        if key == entry.0 {
            assert(next[n].0 == key);
            assert(has_id(next, key));
        }
    }
    assert forall|key: Seq<char>| as_map(next).contains_key(key) implies #[trigger] as_map(next)[key]
        == as_map(entries).insert(entry.0, entry.1)[key] by {
        let k = place_of(next, key);
        lemma_found(next, k);
        if k < n {
            assert(next[k] == entries[k]);
            lemma_found(entries, k);
        }
    }
    assert(as_map(next) =~= as_map(entries).insert(entry.0, entry.1));
}

/// Where no entry is kept under `id`, taking that id out changes nothing.
pub proof fn lemma_without_absent(entries: Seq<EntryView>, id: Seq<char>)
    requires
        !has_id(entries, id),
    ensures
        without_id(entries, id) == entries,
    decreases entries.len(),
{
    reveal(Seq::filter);
    if entries.len() > 0 {
        let front = entries.drop_last();
        assert(!has_id(front, id)) by {
            if has_id(front, id) {
                let k = place_of(front, id);
                assert(entries[k] == front[k]);
            }
        }
        lemma_without_absent(front, id);
        assert(entries.last().0 != id);
        assert(front.push(entries.last()) =~= entries);
    }
}

/// With distinct ids, taking out the id of the entry at place `i` takes out
/// that entry alone.
pub proof fn lemma_without_one(entries: Seq<EntryView>, i: int)
    requires
        distinct_ids(entries),
        0 <= i < entries.len(),
    ensures
        without_id(entries, entries[i].0) == entries.remove(i),
    decreases entries.len(),
{
    reveal(Seq::filter);
    let id = entries[i].0;
    let front = entries.drop_last();
    let n = entries.len() as int;
    if i == n - 1 {
        assert(!has_id(front, id)) by {
            if has_id(front, id) {
                let k = place_of(front, id);
                assert(entries[k] == front[k]);
                assert(entries[k].0 != entries[i].0);
            }
        }
        lemma_without_absent(front, id);
        assert(front =~= entries.remove(i));
    } else {
        assert(distinct_ids(front)) by {
            assert forall|a: int, b: int| 0 <= a < b < front.len() implies (#[trigger] front[a]).0
                != (#[trigger] front[b]).0 by {
                assert(front[a] == entries[a]);
                assert(front[b] == entries[b]);
            }
        }
        assert(front[i] == entries[i]);
        lemma_without_one(front, i);
        assert(entries[i].0 != entries[n - 1].0);
        assert(front.remove(i).push(entries.last()) =~= entries.remove(i));
    }
}

} // verus!
