//! The open project: its files, which one is active, and what is unsaved.

use crate::text::{join2, join3, owned, same_text};
use vstd::prelude::*;

verus! {

/// What a project is called and where it is.
#[derive(Debug, Clone, PartialEq, Eq)]
pub struct ProjectConfig {
    pub name: String,
    pub path: String,
}

/// A file in the editor.
#[derive(Debug, Clone, PartialEq, Eq)]
pub struct OpenFile {
    pub path: String,
    pub content: String,
    pub modified: bool,
}

/// The open project.
#[derive(Debug, Clone)]
pub struct Project {
    pub config: ProjectConfig,
    pub open_files: Vec<OpenFile>,
    pub active_file_index: Option<usize>,
}

/// No file is open twice.
pub open spec fn distinct_paths(files: Seq<OpenFile>) -> bool {
    forall|i: int, j: int|
        0 <= i < j < files.len() ==> (#[trigger] files[i]).path@ != (#[trigger] files[j]).path@
}

/// Whether a file is the first one with the given path.
pub open spec fn is_first_with_path(files: Seq<OpenFile>, path: Seq<char>, i: int) -> bool {
    &&& 0 <= i < files.len()
    &&& files[i].path@ == path
    &&& forall|j: int| 0 <= j < i ==> (#[trigger] files[j]).path@ != path
}

/// Whether no file has the given path.
pub open spec fn has_no_path(files: Seq<OpenFile>, path: Seq<char>) -> bool {
    forall|j: int| 0 <= j < files.len() ==> (#[trigger] files[j]).path@ != path
}

/// The number of unsaved files among the first `n`.
pub open spec fn unsaved_before(files: Seq<OpenFile>, n: int) -> int
    decreases n,
{
    if n <= 0 {
        0
    } else {
        unsaved_before(files, n - 1) + (if files[n - 1].modified {
            1int
        } else {
            0int
        })
    }
}

/// Whether the first `n` outcomes are all good.
pub open spec fn all_good(outcomes: Seq<Result<(), String>>, n: int) -> bool {
    forall|k: int| 0 <= k < n ==> #[trigger] outcomes[k] is Ok
}

/// Whether a text reports the first failure to write an unsaved file.
pub open spec fn is_save_error(
    files: Seq<OpenFile>,
    outcomes: Seq<Result<(), String>>,
    text: Seq<char>,
) -> bool {
    exists|i: int|
        {
            let k = unsaved_before(files, i);
            &&& 0 <= i < files.len()
            &&& (#[trigger] files[i]).modified
            &&& k < outcomes.len()
            &&& all_good(outcomes, k)
            &&& outcomes[k] matches Err(e)
            &&& text == "Failed to save "@ + files[i].path@ + ": "@ + e@
        }
}

/// The active file once the file at `closed` is gone and `left` are left: the
/// same file where it is another one, else the one that takes its place, else
/// the last one.
pub open spec fn active_after_close(active: Option<usize>, closed: usize, left: nat) -> Option<
    usize,
> {
    match active {
        Some(a) => if a == closed {
            if left == 0 {
                None
            } else if a < left {
                Some(a)
            } else {
                Some((left - 1) as usize)
            }
        } else if a > closed {
            Some((a - 1) as usize)
        } else {
            Some(a)
        },
        None => None,
    }
}

impl Project {
    /// The active file is one of the open ones.
    pub open spec fn wf(&self) -> bool {
        self.active_file_index matches Some(i) ==> i < self.open_files@.len()
    }

    /// Opens the project at a path, which goes by the last part of it, where
    /// that can be read.
    pub fn open(path: String, file_name: Option<String>, on_disk: bool) -> (r: Result<Self, String>)
        ensures
            if !on_disk {
                r matches Err(m) && m@ == "Path does not exist: "@ + path@
            } else {
                &&& r matches Ok(p)
                &&& p.wf()
                &&& p.config.path@ == path@
                &&& p.config.name@ == (match file_name {
                    Some(name) => name@,
                    None => "untitled"@,
                })
                &&& p.open_files@.len() == 0
                &&& p.active_file_index is None
            },
    {
        let name: String = match file_name {
            Some(name) => name,
            None => owned("untitled"),
        };
        if !on_disk {
            return Err(join2("Path does not exist: ", path.as_str()));
        }
        Ok(
            Project {
                config: ProjectConfig { name, path },
                open_files: Vec::new(),
                active_file_index: None,
            },
        )
    }

    /// The place of an open file.
    pub fn find_open(&self, path: &str) -> (r: Option<usize>)
        ensures
            match r {
                Some(i) => is_first_with_path(self.open_files@, path@, i as int),
                None => has_no_path(self.open_files@, path@),
            },
    {
        let mut i: usize = 0;
        while i < self.open_files.len()
            invariant
                i <= self.open_files.len(),
                forall|j: int| 0 <= j < i ==> (#[trigger] self.open_files@[j]).path@ != path@,
            decreases self.open_files.len() - i,
        {
            if same_text(self.open_files[i].path.as_str(), path) {
                return Some(i);
            }
            i = i + 1;
        }
        None
    }

    /// Opens a file, or goes to it where it is open already. `read` is what
    /// reading it gave; it is looked at only where the file is not open.
    pub fn open_file(&mut self, path: &str, read: &Result<String, String>) -> (r: Result<
        (),
        String,
    >)
        ensures
            old(self).wf() ==> final(self).wf(),
            final(self).config == old(self).config,
            if has_no_path(old(self).open_files@, path@) {
                match *read {
                    Ok(content) => {
                        &&& r is Ok
                        &&& final(self).open_files@.len() == old(self).open_files@.len() + 1
                        &&& final(self).open_files@.drop_last() == old(self).open_files@
                        &&& final(self).open_files@.last().path@ == path@
                        &&& final(self).open_files@.last().content@ == content@
                        &&& !final(self).open_files@.last().modified
                        &&& final(self).active_file_index == Some(
                            old(self).open_files@.len() as usize,
                        )
                    },
                    Err(e) => {
                        &&& r matches Err(m)
                        &&& m@ == "Failed to read "@ + path@ + ": "@ + e@
                        &&& *final(self) == *old(self)
                    },
                }
            } else {
                &&& r is Ok
                &&& final(self).open_files == old(self).open_files
                &&& final(self).active_file_index matches Some(i)
                &&& is_first_with_path(old(self).open_files@, path@, i as int)
            },
            distinct_paths(old(self).open_files@) ==> distinct_paths(final(self).open_files@),
    {
        match self.find_open(path) {
            Some(i) => {
                self.active_file_index = Some(i);
                return Ok(());
            },
            None => {},
        }
        match read {
            Ok(content) => {
                let place: usize = self.open_files.len();
                self.open_files.push(
                    OpenFile {
                        path: owned(path),
                        content: owned(content.as_str()),
                        modified: false,
                    },
                );
                assert(self.open_files@.drop_last() =~= old(self).open_files@);
                self.active_file_index = Some(place);
                Ok(())
            },
            Err(e) => Err(save_error("Failed to read ", path, e.as_str())),
        }
    }

    /// Takes over the outcome of writing the active file.
    pub fn save_active_file(&mut self, written: Result<(), String>) -> (r: Result<(), String>)
        requires
            old(self).wf(),
        ensures
            final(self).wf(),
            final(self).config == old(self).config,
            final(self).active_file_index == old(self).active_file_index,
            match old(self).active_file_index {
                None => r is Ok && final(self).open_files == old(self).open_files,
                Some(i) => match written {
                    Ok(_) => {
                        &&& r is Ok
                        &&& final(self).open_files@ == old(self).open_files@.update(
                            i as int,
                            OpenFile { modified: false, ..old(self).open_files@[i as int] },
                        )
                    },
                    Err(e) => {
                        &&& r matches Err(m)
                        &&& m@ == "Failed to save "@ + old(self).open_files@[i as int].path@
                            + ": "@ + e@
                        &&& final(self).open_files == old(self).open_files
                    },
                },
            },
    {
        match self.active_file_index {
            None => Ok(()),
            Some(i) => match written {
                Ok(_) => {
                    self.open_files[i].modified = false;
                    Ok(())
                },
                Err(e) => Err(
                    save_error("Failed to save ", self.open_files[i].path.as_str(), e.as_str()),
                ),
            },
        }
    }

    /// The places of the unsaved files, in order.
    pub fn unsaved_files(&self) -> (r: Vec<usize>)
        ensures
            r@.len() == unsaved_before(self.open_files@, self.open_files@.len() as int),
            forall|k: int|
                0 <= k < r@.len() ==> {
                    &&& #[trigger] r@[k] < self.open_files@.len()
                    &&& self.open_files@[r@[k] as int].modified
                    &&& unsaved_before(self.open_files@, r@[k] as int) == k
                },
    {
        let mut out: Vec<usize> = Vec::new();
        let mut i: usize = 0;
        while i < self.open_files.len()
            invariant
                i <= self.open_files.len(),
                out@.len() == unsaved_before(self.open_files@, i as int),
                forall|k: int|
                    0 <= k < out@.len() ==> {
                        &&& #[trigger] out@[k] < self.open_files@.len()
                        &&& self.open_files@[out@[k] as int].modified
                        &&& unsaved_before(self.open_files@, out@[k] as int) == k
                    },
            decreases self.open_files.len() - i,
        {
            if self.open_files[i].modified {
                out.push(i);
            }
            i = i + 1;
        }
        out
    }

    /// A project once the unsaved files whose writing succeeded are saved.
    pub open spec fn is_saved(
        before: Project,
        outcomes: Seq<Result<(), String>>,
        after: Project,
    ) -> bool {
        &&& after.config == before.config
        &&& after.active_file_index == before.active_file_index
        &&& after.open_files@.len() == before.open_files@.len()
        &&& forall|i: int|
            0 <= i < before.open_files@.len() ==> #[trigger] after.open_files@[i] == (
            if before.open_files@[i].modified && all_good(
                outcomes,
                unsaved_before(before.open_files@, i) + 1,
            ) {
                OpenFile { modified: false, ..before.open_files@[i] }
            } else {
                before.open_files@[i]
            })
    }

    /// Takes over the outcomes of writing the unsaved files, in order, up to
    /// the first that failed. Files before that one are saved, the others are
    /// not.
    pub fn save_all_files(&mut self, outcomes: &Vec<Result<(), String>>) -> (r: Result<(), String>)
        requires
            outcomes@.len() >= unsaved_before(
                old(self).open_files@,
                old(self).open_files@.len() as int,
            ) || (outcomes@.len() > 0 && outcomes@.last() is Err),
        ensures
            Self::is_saved(*old(self), outcomes@, *final(self)),
            match r {
                Ok(_) => all_good(
                    outcomes@,
                    unsaved_before(old(self).open_files@, old(self).open_files@.len() as int),
                ),
                Err(m) => is_save_error(old(self).open_files@, outcomes@, m@),
            },
            r is Ok ==> forall|i: int|
                0 <= i < final(self).open_files@.len() ==> !(
                #[trigger] final(self).open_files@[i]).modified,
    {
        let ghost files = self.open_files@;
        let mut k: usize = 0;
        let mut i: usize = 0;
        while i < self.open_files.len()
            invariant
                files == old(self).open_files@,
                outcomes@.len() >= unsaved_before(files, files.len() as int) || (outcomes@.len() > 0
                    && outcomes@.last() is Err),
                i <= self.open_files.len(),
                self.open_files@.len() == files.len(),
                self.config == old(self).config,
                self.active_file_index == old(self).active_file_index,
                k == unsaved_before(files, i as int),
                k <= i,
                all_good(outcomes@, k as int),
                k <= outcomes@.len(),
                forall|j: int|
                    i <= j < files.len() ==> #[trigger] self.open_files@[j] == files[j],
                forall|j: int|
                    0 <= j < i ==> #[trigger] self.open_files@[j] == (OpenFile {
                        modified: false,
                        ..files[j]
                    }),
            decreases self.open_files.len() - i,
        {
            if self.open_files[i].modified {
                proof {
                    lemma_unsaved_grows(files, i + 1, files.len() as int);
                    assert(unsaved_before(files, i + 1) == k + 1);
                    if k == outcomes@.len() {
                        assert(outcomes@[outcomes@.len() - 1] is Ok);
                        assert(false);
                    }
                }
                match &outcomes[k] {
                    Ok(_) => {
                        self.open_files[i].modified = false;
                    },
                    Err(e) => {
                        let message: String = save_error(
                            "Failed to save ",
                            self.open_files[i].path.as_str(),
                            e.as_str(),
                        );
                        proof {
                            lemma_partly_saved(files, outcomes@, self.open_files@, i as int);
                            assert(files[i as int].modified);
                        }
                        return Err(message);
                    },
                }
                k = k + 1;
            }
            i = i + 1;
        }
        proof {
            lemma_all_saved(files, outcomes@, self.open_files@);
        }
        Ok(())
    }

    /// Closes a file.
    pub fn close_file(&mut self, index: usize)
        requires
            old(self).wf(),
        ensures
            final(self).wf(),
            final(self).config == old(self).config,
            if index < old(self).open_files@.len() {
                &&& final(self).open_files@ == old(self).open_files@.remove(index as int)
                &&& final(self).active_file_index == active_after_close(
                    old(self).active_file_index,
                    index,
                    (old(self).open_files@.len() - 1) as nat,
                )
            } else {
                *final(self) == *old(self)
            },
            distinct_paths(old(self).open_files@) ==> distinct_paths(final(self).open_files@),
    {
        if index < self.open_files.len() {
            let _ = self.open_files.remove(index);
            let left: usize = self.open_files.len();
            self.active_file_index = match self.active_file_index {
                Some(active) => if active == index {
                    if left == 0 {
                        None
                    } else if active < left {
                        Some(active)
                    } else {
                        Some(left - 1)
                    }
                } else if active > index {
                    Some(active - 1)
                } else {
                    Some(active)
                },
                None => None,
            };
        }
    }

    /// The active file.
    pub fn active_file(&self) -> (r: Option<&OpenFile>)
        requires
            self.wf(),
        ensures
            match r {
                Some(f) => self.active_file_index matches Some(i) && *f
                    == self.open_files@[i as int],
                None => self.active_file_index is None,
            },
    {
        match self.active_file_index {
            Some(i) => Some(&self.open_files[i]),
            None => None,
        }
    }

    /// The active file, to be changed.
    pub fn active_file_mut(&mut self) -> (r: Option<&mut OpenFile>)
        requires
            old(self).wf(),
        ensures
            match r {
                Some(f) => {
                    &&& old(self).active_file_index matches Some(i)
                    &&& *f == old(self).open_files@[i as int]
                    &&& final(self).open_files@ == old(self).open_files@.update(
                        i as int,
                        *final(f),
                    )
                    &&& final(self).config == old(self).config
                    &&& final(self).active_file_index == old(self).active_file_index
                },
                None => old(self).active_file_index is None && *final(self) == *old(self),
            },
    {
        match self.active_file_index {
            Some(i) => Some(&mut self.open_files[i]),
            None => None,
        }
    }
}

fn save_error(what: &str, path: &str, reason: &str) -> (r: String)
    ensures
        r@ == what@ + path@ + ": "@ + reason@,
{
    let start: String = join3(what, path, ": ");
    join2(start.as_str(), reason)
}

proof fn lemma_unsaved_grows(files: Seq<OpenFile>, a: int, b: int)
    requires
        a <= b,
    ensures
        unsaved_before(files, a) <= unsaved_before(files, b),
        0 <= unsaved_before(files, a),
    decreases b - a, a,
{
    if a < b {
        lemma_unsaved_grows(files, a, b - 1);
    } else if a > 0 {
        lemma_unsaved_grows(files, a - 1, a - 1);
    }
}

/// Where a write failed, not every one succeeded.
pub(crate) proof fn lemma_save_error(
    files: Seq<OpenFile>,
    outcomes: Seq<Result<(), String>>,
    text: Seq<char>,
)
    requires
        is_save_error(files, outcomes, text),
    ensures
        !all_good(outcomes, unsaved_before(files, files.len() as int)),
{
    let i = choose|i: int|
        {
            let k = unsaved_before(files, i);
            &&& 0 <= i < files.len()
            &&& (#[trigger] files[i]).modified
            &&& k < outcomes.len()
            &&& all_good(outcomes, k)
            &&& outcomes[k] is Err
            &&& text == "Failed to save "@ + files[i].path@ + ": "@ + (outcomes[k]->Err_0)@
        };
    lemma_unsaved_grows(files, i + 1, files.len() as int);
    lemma_unsaved_grows(files, i, i);
    if all_good(outcomes, unsaved_before(files, files.len() as int)) {
        assert(outcomes[unsaved_before(files, i)] is Ok);
    }
}

/// Once a write has failed at `at`, the files before it are saved and the
/// others are as they were.
proof fn lemma_partly_saved(
    files: Seq<OpenFile>,
    outcomes: Seq<Result<(), String>>,
    now: Seq<OpenFile>,
    at: int,
)
    requires
        0 <= at < files.len(),
        files[at].modified,
        now.len() == files.len(),
        unsaved_before(files, at) < outcomes.len(),
        all_good(outcomes, unsaved_before(files, at)),
        outcomes[unsaved_before(files, at)] is Err,
        forall|j: int| at <= j < files.len() ==> #[trigger] now[j] == files[j],
        forall|j: int|
            0 <= j < at ==> #[trigger] now[j] == (OpenFile { modified: false, ..files[j] }),
    ensures
        forall|i: int|
            0 <= i < files.len() ==> #[trigger] now[i] == (if files[i].modified && all_good(
                outcomes,
                unsaved_before(files, i) + 1,
            ) {
                OpenFile { modified: false, ..files[i] }
            } else {
                files[i]
            }),
{
    let k = unsaved_before(files, at);
    assert forall|i: int| 0 <= i < files.len() implies #[trigger] now[i] == (if files[i].modified
        && all_good(outcomes, unsaved_before(files, i) + 1) {
        OpenFile { modified: false, ..files[i] }
    } else {
        files[i]
    }) by {
        if i < at {
            lemma_unsaved_grows(files, i + 1, at);
        } else {
            lemma_unsaved_grows(files, at, i);
            if all_good(outcomes, unsaved_before(files, i) + 1) {
                assert(outcomes[k] is Ok);
            }
        }
    }
}

/// Once every write has succeeded, every file is saved.
proof fn lemma_all_saved(
    files: Seq<OpenFile>,
    outcomes: Seq<Result<(), String>>,
    now: Seq<OpenFile>,
)
    requires
        now.len() == files.len(),
        all_good(outcomes, unsaved_before(files, files.len() as int)),
        forall|j: int|
            0 <= j < files.len() ==> #[trigger] now[j] == (OpenFile {
                modified: false,
                ..files[j]
            }),
    ensures
        forall|i: int|
            0 <= i < files.len() ==> #[trigger] now[i] == (if files[i].modified && all_good(
                outcomes,
                unsaved_before(files, i) + 1,
            ) {
                OpenFile { modified: false, ..files[i] }
            } else {
                files[i]
            }),
{
    assert forall|i: int| 0 <= i < files.len() implies #[trigger] now[i] == (if files[i].modified
        && all_good(outcomes, unsaved_before(files, i) + 1) {
        OpenFile { modified: false, ..files[i] }
    } else {
        files[i]
    }) by {
        lemma_unsaved_grows(files, i + 1, files.len() as int);
    }
}

/// Closing a file that is not the active one leaves the active one active.
pub proof fn law_closing_keeps_active(files: Seq<OpenFile>, active: usize, closed: usize)
    requires
        active < files.len(),
        closed < files.len(),
        active != closed,
    ensures
        active_after_close(Some(active), closed, (files.len() - 1) as nat) matches Some(now)
            && files.remove(closed as int)[now as int] == files[active as int],
{
}

/// As long as a file is open after one is closed, one is active, if one was.
pub proof fn law_some_file_stays_active(active: usize, closed: usize, left: nat)
    requires
        active <= left,
        closed <= left,
    ensures
        active_after_close(Some(active), closed, left) is None <==> left == 0,
        active_after_close(Some(active), closed, left) matches Some(now) ==> now < left,
{
}

/// Closing the active file makes the one that takes its place active, or the
/// last one where none does; closing without an active file leaves none.
pub proof fn law_neighbour_becomes_active(files: Seq<OpenFile>, closed: usize)
    requires
        closed < files.len(),
    ensures
        ({
            let left = files.remove(closed as int);
            let now = active_after_close(Some(closed), closed, left.len());
            &&& closed + 1 < files.len() ==> now == Some(closed) && left[closed as int]
                == files[closed + 1]
            &&& closed + 1 == files.len() && closed > 0 ==> now == Some((closed - 1) as usize)
                && left[closed - 1] == files[closed - 1]
            &&& files.len() == 1 ==> now is None
            &&& active_after_close(None, closed, left.len()) is None
        }),
{
}

/// Whether `places` are the unsaved files, from the first to the last.
pub open spec fn are_unsaved(files: Seq<OpenFile>, places: Seq<int>) -> bool {
    &&& forall|k: int, l: int|
        0 <= k < l < places.len() ==> #[trigger] places[k] < #[trigger] places[l]
    &&& forall|k: int|
        0 <= k < places.len() ==> 0 <= #[trigger] places[k] < files.len()
            && files[places[k]].modified
    &&& forall|i: int| 0 <= i < files.len() && #[trigger] files[i].modified ==> places.contains(i)
}

proof fn lemma_places_count(files: Seq<OpenFile>, places: Seq<int>, n: int, k: int)
    requires
        are_unsaved(files, places),
        0 <= n <= files.len(),
        0 <= k <= places.len(),
        forall|l: int| 0 <= l < k ==> #[trigger] places[l] < n,
        forall|l: int| k <= l < places.len() ==> #[trigger] places[l] >= n,
    ensures
        unsaved_before(files, n) == k,
    decreases n,
{
    if n == 0 {
        if k > 0 {
            assert(places[0] < 0);
        }
    } else {
        if files[n - 1].modified {
            assert(places.contains(n - 1));
            let l = choose|l: int| 0 <= l < places.len() && places[l] == n - 1;
            assert(l < k);
            if l < k - 1 {
                assert(places[l] < places[k - 1]);
                assert(places[k - 1] < n);
            }
            assert(l == k - 1);
            assert forall|j: int| 0 <= j < k - 1 implies #[trigger] places[j] < n - 1 by {
                assert(places[j] < places[k - 1]);
            }
            lemma_places_count(files, places, n - 1, k - 1);
        } else {
            assert forall|j: int| 0 <= j < k implies #[trigger] places[j] < n - 1 by {
                assert(places[j] < n);
                assert(files[places[j]].modified);
            }
            lemma_places_count(files, places, n - 1, k);
        }
    }
}

/// There are as many unsaved files as places of them.
pub(crate) proof fn lemma_all_places(files: Seq<OpenFile>, places: Seq<int>)
    requires
        are_unsaved(files, places),
    ensures
        unsaved_before(files, files.len() as int) == places.len(),
{
    lemma_places_count(files, places, files.len() as int, places.len() as int);
}

/// Saving all files saves the unsaved ones, in order, up to the first that
/// could not be written; no text, path or order changes.
pub proof fn law_files_are_saved_up_to_the_first_failure(
    before: Project,
    outcomes: Seq<Result<(), String>>,
    after: Project,
    places: Seq<int>,
)
    requires
        Project::is_saved(before, outcomes, after),
        are_unsaved(before.open_files@, places),
    ensures
        after.open_files@.len() == before.open_files@.len(),
        after.active_file_index == before.active_file_index,
        forall|i: int|
            0 <= i < before.open_files@.len() ==> {
                &&& (#[trigger] after.open_files@[i]).path == before.open_files@[i].path
                &&& after.open_files@[i].content == before.open_files@[i].content
                &&& !before.open_files@[i].modified ==> !after.open_files@[i].modified
            },
        forall|k: int|
            0 <= k < places.len() ==> (after.open_files@[#[trigger] places[k]].modified
                <==> exists|j: int| 0 <= j <= k && !(#[trigger] outcomes[j] is Ok)),
{
    let files = before.open_files@;
    assert forall|k: int| 0 <= k < places.len() implies (
    after.open_files@[#[trigger] places[k]].modified <==> exists|j: int|
        0 <= j <= k && !(#[trigger] outcomes[j] is Ok)) by {
        let i = places[k];
        assert forall|l: int| 0 <= l < k implies #[trigger] places[l] < i by {}
        assert forall|l: int| k <= l < places.len() implies #[trigger] places[l] >= i by {
            if l > k {
                assert(places[k] < places[l]);
            }
        }
        lemma_places_count(files, places, i, k);
        assert(after.open_files@[i] == after.open_files@[i]);
        if !all_good(outcomes, k + 1) {
            let j = choose|j: int| 0 <= j < k + 1 && !(#[trigger] outcomes[j] is Ok);
            assert(0 <= j <= k);
        }
    }
}

/// The error of saving all files names the first file that could not be
/// written, and why.
pub proof fn law_save_error_names_the_first_failure(
    files: Seq<OpenFile>,
    outcomes: Seq<Result<(), String>>,
    places: Seq<int>,
    text: Seq<char>,
)
    requires
        are_unsaved(files, places),
        is_save_error(files, outcomes, text),
    ensures
        exists|k: int|
            {
                &&& 0 <= k < places.len()
                &&& k < outcomes.len()
                &&& (#[trigger] outcomes[k]) is Err
                &&& forall|j: int| 0 <= j < k ==> #[trigger] outcomes[j] is Ok
                &&& text == "Failed to save "@ + files[places[k]].path@ + ": "@ + (
                outcomes[k]->Err_0)@
            },
{
    let i = choose|i: int|
        {
            let k = unsaved_before(files, i);
            &&& 0 <= i < files.len()
            &&& (#[trigger] files[i]).modified
            &&& k < outcomes.len()
            &&& all_good(outcomes, k)
            &&& outcomes[k] is Err
            &&& text == "Failed to save "@ + files[i].path@ + ": "@ + (outcomes[k]->Err_0)@
        };
    assert(places.contains(i));
    let k = choose|k: int| 0 <= k < places.len() && places[k] == i;
    assert forall|l: int| 0 <= l < k implies #[trigger] places[l] < i by {
        assert(places[l] < places[k]);
    }
    assert forall|l: int| k <= l < places.len() implies #[trigger] places[l] >= i by {
        if l > k {
            assert(places[k] < places[l]);
        }
    }
    lemma_places_count(files, places, i, k);
    assert(outcomes[k] is Err);
}

/// A path is open at one place first, or not at all.
pub proof fn law_open_paths_are_found(files: Seq<OpenFile>, path: Seq<char>, i: int, j: int)
    requires
        0 <= i < files.len(),
        is_first_with_path(files, path, j),
    ensures
        files[j].path@ == path,
        files[i].path@ == path ==> j <= i,
        !has_no_path(files, path),
{
    if files[i].path@ == path && i < j {
        assert(files[i].path@ != path);
    }
    assert(files[j].path@ == path);
}

} // verus!
