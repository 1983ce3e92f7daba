use vstd::prelude::*;

use crate::errors::WatchError;

verus! {

/// Default wait between two polling passes, in milliseconds.
pub const DEFAULT_POLL_RATE: u64 = 250;

/// One watched file: its path, and the modification time last seen for it,
/// in milliseconds since the epoch.
#[derive(Debug)]
pub struct WatchEntry {
    pub path: String,
    pub last_modified: u128,
}

/// The application state: the watched files with their last-seen
/// modification times, the command to run when a change is seen, and the
/// poll rate in milliseconds.
#[derive(Debug)]
pub struct State {
    pub files: Vec<WatchEntry>,
    pub command: String,
    pub command_args: Vec<String>,
    pub poll_rate: u64,
}

/// No two entries watch the same path.
pub open spec fn paths_unique(files: Seq<WatchEntry>) -> bool {
    forall|i: int, j: int|
        0 <= i < files.len() && 0 <= j < files.len() && i != j ==> files[i].path@ != files[j].path@
}

/// Some entry's stored time differs from the time now observed for it; any
/// difference counts, earlier as well as later.
pub open spec fn any_changed(files: Seq<WatchEntry>, observed: Seq<u128>) -> bool {
    exists|i: int| 0 <= i < files.len() && files[i].last_modified != observed[i]
}

/// Every entry with its stored time replaced by the observed one.
pub open spec fn refreshed(files: Seq<WatchEntry>, observed: Seq<u128>) -> Seq<WatchEntry> {
    Seq::new(
        files.len(),
        |i: int| WatchEntry { path: files[i].path, last_modified: observed[i] },
    )
}

/// What registering `path` with observed time `t` does to the entries:
/// a path seen for the first time gains an entry at the end; a path
/// already watched keeps its one entry, which takes the new time. Other
/// entries are untouched.
pub open spec fn register_effect(
    files: Seq<WatchEntry>,
    path: Seq<char>,
    t: u128,
    out: Seq<WatchEntry>,
) -> bool {
    if exists|j: int| 0 <= j < files.len() && files[j].path@ == path {
        &&& out.len() == files.len()
        &&& forall|j: int| 0 <= j < files.len() && files[j].path@ != path ==> out[j] == files[j]
        &&& forall|j: int|
            0 <= j < files.len() && files[j].path@ == path ==> out[j].path@ == path
                && out[j].last_modified == t
    } else {
        &&& out.len() == files.len() + 1
        &&& forall|j: int| 0 <= j < files.len() ==> out[j] == files[j]
        &&& out.last().path@ == path
        &&& out.last().last_modified == t
    }
}

/// Every observation succeeded.
pub open spec fn all_present(observed: Seq<Option<u128>>) -> bool {
    forall|i: int| 0 <= i < observed.len() ==> observed[i] is Some
}

/// The observed times, once every observation is known to have succeeded.
pub open spec fn present_times(observed: Seq<Option<u128>>) -> Seq<u128> {
    Seq::new(observed.len(), |i: int| observed[i]->0)
}

impl State {
    /// All watched paths name different files.
    pub open spec fn wf(&self) -> bool {
        paths_unique(self.files@)
    }

    /// A fresh state: nothing watched, no command, the default poll rate.
    pub fn new() -> (s: State)
        ensures
            s.files@.len() == 0,
            s.command@.len() == 0,
            s.command_args@.len() == 0,
            s.poll_rate == DEFAULT_POLL_RATE,
            s.wf(),
    {
        State {
            files: Vec::new(),
            command: String::new(),
            command_args: Vec::new(),
            poll_rate: DEFAULT_POLL_RATE,
        }
    }

    /// Start watching `path`. `observed` is the modification time read for
    /// the path at registration, or `None` where the read failed, which is
    /// fatal at startup. A path registered twice keeps one entry, holding
    /// the time observed last.
    #[verifier::loop_isolation(false)]
    pub fn register(&mut self, path: String, observed: Option<u128>) -> (r: Result<(), WatchError>)
        requires
            old(self).wf(),
        ensures
            final(self).wf(),
            final(self).command == old(self).command,
            final(self).command_args == old(self).command_args,
            final(self).poll_rate == old(self).poll_rate,
            observed is None ==> r == Err::<(), WatchError>(WatchError::FileAccess)
                && final(self).files == old(self).files,
            observed matches Some(t) ==> r == Ok::<(), WatchError>(()) && register_effect(
                old(self).files@,
                path@,
                t,
                final(self).files@,
            ),
    {
        let ghost pv = path@;
        match observed {
            None => Err(WatchError::FileAccess),
            Some(t) => {
                let n = self.files.len();
                let mut i: usize = 0;
                while i < n
                    invariant
                        n == self.files@.len(),
                        0 <= i <= n,
                        self == old(self),
                        old(self).wf(),
                        path@ == pv,
                        forall|j: int| 0 <= j < i ==> self.files@[j].path@ != pv,
                    decreases n - i,
                {
                    if str_eq(self.files[i].path.as_str(), path.as_str()) {
                        proof {
                            assert(old(self).files@[i as int].path@ == pv);
                        }
                        self.files[i] = WatchEntry { path, last_modified: t };
                        proof {
                            assert forall|j: int|
                                0 <= j < old(self).files@.len() && old(self).files@[j].path@
                                    == pv implies j == i by {
                                if j != i as int {
                                    assert(old(self).files@[j].path@ != old(
                                        self,
                                    ).files@[i as int].path@);
                                }
                            }
                            assert forall|p: int, q: int|
                                0 <= p < self.files@.len() && 0 <= q < self.files@.len() && p
                                    != q implies self.files@[p].path@ != self.files@[q].path@ by {
                                assert(self.files@[i as int].path@ == pv);
                                if p != i as int && q != i as int {
                                    assert(self.files@[p].path@ == old(self).files@[p].path@);
                                    assert(self.files@[q].path@ == old(self).files@[q].path@);
                                }
                            }
                        }
                        return Ok(());
                    }
                    i += 1;
                }
                self.files.push(WatchEntry { path, last_modified: t });
                proof {
                    let m = old(self).files@.len() as int;
                    assert forall|p: int, q: int|
                        0 <= p < self.files@.len() && 0 <= q < self.files@.len() && p
                            != q implies self.files@[p].path@ != self.files@[q].path@ by {
                        if p < m && q < m {
                            assert(old(self).files@[p].path@ != old(self).files@[q].path@);
                        }
                    }
                }
                Ok(())
            },
        }
    }

    /// One polling pass. `observed[i]` is the modification time now read
    /// for entry `i`, or `None` where the read failed. When every read
    /// succeeded, every stored time becomes the observed one in a single
    /// full pass, and the one aggregate answer tells whether any entry
    /// differed. A failed read is fatal and leaves the state as it was.
    #[verifier::loop_isolation(false)]
    pub fn check(&mut self, observed: &Vec<Option<u128>>) -> (r: Result<bool, WatchError>)
        requires
            old(self).wf(),
            observed@.len() == old(self).files@.len(),
        ensures
            final(self).wf(),
            final(self).command == old(self).command,
            final(self).command_args == old(self).command_args,
            final(self).poll_rate == old(self).poll_rate,
            !all_present(observed@) ==> r == Err::<bool, WatchError>(WatchError::RuntimeAccess)
                && final(self).files == old(self).files,
            all_present(observed@) ==> r == Ok::<bool, WatchError>(
                any_changed(old(self).files@, present_times(observed@)),
            ) && final(self).files@ =~= refreshed(old(self).files@, present_times(observed@)),
    {
        let n = self.files.len();
        let mut i: usize = 0;
        while i < n
            invariant
                n == observed@.len(),
                0 <= i <= n,
                self == old(self),
                old(self).wf(),
                forall|j: int| 0 <= j < i ==> observed@[j] is Some,
            decreases n - i,
        {
            if observed[i].is_none() {
                return Err(WatchError::RuntimeAccess);
            }
            i += 1;
        }
        let mut changed = false;
        let mut i: usize = 0;
        while i < n
            invariant
                n == observed@.len() == old(self).files@.len() == self.files@.len(),
                0 <= i <= n,
                all_present(observed@),
                self.wf(),
                self.command == old(self).command,
                self.command_args == old(self).command_args,
                self.poll_rate == old(self).poll_rate,
                forall|j: int| i <= j < n ==> self.files@[j] == old(self).files@[j],
                forall|j: int| 0 <= j < i ==> self.files@[j].path == old(self).files@[j].path
                    && self.files@[j].last_modified == observed@[j]->0,
                changed == exists|j: int|
                    0 <= j < i && old(self).files@[j].last_modified != observed@[j]->0,
            decreases n - i,
        {
            let now = observed[i].unwrap();
            if self.files[i].last_modified != now {
                changed = true;
                self.files[i].last_modified = now;
            }
            i += 1;
        }
        proof {
            let ts = present_times(observed@);
            if changed {
                let j = choose|j: int|
                    0 <= j < n && old(self).files@[j].last_modified != observed@[j]->0;
                assert(old(self).files@[j].last_modified != ts[j]);
            } else if any_changed(old(self).files@, ts) {
                let j = choose|j: int|
                    0 <= j < old(self).files@.len() && old(self).files@[j].last_modified != ts[j];
                assert(old(self).files@[j].last_modified != observed@[j]->0);
            }
            assert(self.files@ =~= refreshed(old(self).files@, ts));
        }
        Ok(changed)
    }
}

/// A pass made right after registration, before anything touched the
/// files, finds no change: every stored time still equals the observed one.
pub proof fn lemma_fresh_check_unchanged(files: Seq<WatchEntry>, observed: Seq<u128>)
    requires
        files.len() == observed.len(),
        files.len() >= 1,
        forall|i: int| 0 <= i < files.len() ==> files[i].last_modified == observed[i],
    ensures
        !any_changed(files, observed),
{
}

/// A stored time that differs from the observed one, whether the file moved
/// forward or backward in time, makes the pass report a change, and the
/// refreshed entry holds exactly the newly observed time.
pub proof fn lemma_mutation_detected(files: Seq<WatchEntry>, observed: Seq<u128>, i: int)
    requires
        files.len() == observed.len(),
        0 <= i < files.len(),
        files[i].last_modified != observed[i],
    ensures
        any_changed(files, observed),
        refreshed(files, observed)[i].last_modified == observed[i],
{
}

/// Checking is idempotent absent outside mutation: a pass over entries
/// already refreshed against the same observations finds no change.
pub proof fn lemma_check_idempotent(files: Seq<WatchEntry>, observed: Seq<u128>)
    requires
        files.len() == observed.len(),
    ensures
        !any_changed(refreshed(files, observed), observed),
{
}

/// However many entries changed in one pass, the pass gives the one
/// aggregate answer it gives for a single change: several changed files
/// never stand for several change reports.
pub proof fn lemma_many_changes_one_answer(
    files: Seq<WatchEntry>,
    observed: Seq<u128>,
    i: int,
    j: int,
)
    requires
        files.len() == observed.len(),
        0 <= i < files.len(),
        0 <= j < files.len(),
        i != j,
        files[i].last_modified != observed[i],
        files[j].last_modified != observed[j],
    ensures
        any_changed(files, observed) == any_changed(files, files.map_values(|e: WatchEntry| e.last_modified).update(i, observed[i])),
{
    assert(any_changed(files, observed));
    let single = files.map_values(|e: WatchEntry| e.last_modified).update(i, observed[i]);
    assert(single[i] == observed[i]);
    assert(files[i].last_modified != single[i]);
    assert(any_changed(files, single));
}

/// Compares two strings character by character.
#[verifier::loop_isolation(false)]
pub fn str_eq(a: &str, b: &str) -> (r: bool)
    ensures
        r == (a@ == b@),
{
    let n = a.unicode_len();
    if n != b.unicode_len() {
        proof {
            assert(a@ != b@);
        }
        return false;
    }
    let mut i: usize = 0;
    while i < n
        invariant
            n == a@.len() == b@.len(),
            0 <= i <= n,
            forall|j: int| 0 <= j < i ==> a@[j] == b@[j],
        decreases n - i,
    {
        if a.get_char(i) != b.get_char(i) {
            proof {
                assert(a@ != b@);
            }
            return false;
        }
        i += 1;
    }
    proof {
        assert(a@ =~= b@);
    }
    true
}

} // verus!
