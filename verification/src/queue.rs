//! The post-processing queue: the state of the tasks this process runs,
//! their cancel requests, and the counting semaphore that bounds how many
//! run at once.
//!
//! The caller holds the queue behind a lock, blocks while no permit is
//! free, and reads the metadata files; the bookkeeping is done here.
use vstd::prelude::*;
use crate::assoc::{find_key, get_spec, key_index, keys_unique, lemma_key_index, lemma_put_unique, put, put_spec};
use crate::text::str_eq;

verus! {

/// The status snapshot of a task, as shown to the user.
#[derive(Debug, Clone)]
pub struct PpTaskStatus {
    /// The video path.
    pub path: String,
    /// Overall progress in hundredths of a percent (0 to 10000).
    pub pct_hundredths: u32,
    /// Progress of the current module.
    pub mod_done: u32,
    /// The current module's name.
    pub module_name: String,
    /// Nodes finished.
    pub done: usize,
    /// Nodes in all.
    pub total: usize,
    /// `waiting`, `running`, `done` or `error`.
    pub status: String,
    /// Whether the task is one of this process (otherwise read from metadata).
    pub from_memory: bool,
}

/// What a task status says: path, progress, module progress, module name,
/// nodes done, nodes in all, status, whether it is of this process.
pub type TaskV = (Seq<char>, u32, u32, Seq<char>, usize, usize, Seq<char>, bool);

impl View for PpTaskStatus {
    type V = TaskV;

    open spec fn view(&self) -> TaskV {
        (self.path@, self.pct_hundredths, self.mod_done, self.module_name@, self.done, self.total, self.status@, self.from_memory)
    }
}

/// Each task is filed under its own path.
pub open spec fn paths_match(s: Seq<(String, PpTaskStatus)>) -> bool {
    forall|i: int| 0 <= i < s.len() ==> (#[trigger] s[i]).1.path@ == s[i].0@
}

/// Putting a task under its own path keeps every task under its own path.
pub proof fn lemma_put_paths(s: Seq<(String, PpTaskStatus)>, k: String, t: PpTaskStatus)
    requires
        paths_match(s),
        t.path@ == k@,
    ensures
        paths_match(put_spec(s, k, t)),
{
    lemma_key_index(s, k@);
    let n = put_spec(s, k, t);
    assert forall|i: int| 0 <= i < n.len() implies (#[trigger] n[i]).1.path@ == n[i].0@ by {
        if i < s.len() && i != key_index(s, k@) {
            assert(n[i] == s[i]);
        }
    }
}

/// The status of a task by path in `s`, if present.
pub open spec fn task_of(s: Seq<(String, PpTaskStatus)>, path: Seq<char>) -> Option<TaskV> {
    match get_spec(s, path) {
        Some(t) => Some(t@),
        None => None,
    }
}

/// The permits that a configured concurrency gives on a machine with `cpu`
/// logical processors: at most twice the processors; 0 means one per processor.
pub open spec fn resolve_spec(n: usize, cpu: usize) -> usize {
    let cap = if cpu * 2 >= 1 { cpu * 2 } else { 1 };
    if n == 0 {
        if cpu <= cap { cpu } else { cap as usize }
    } else {
        if n <= cap { n } else { cap as usize }
    }
}

/// The permits that a configured concurrency gives (executable).
pub fn resolve_concurrency(n: usize, cpu: usize) -> (r: usize)
    requires
        1 <= cpu <= usize::MAX / 2,
    ensures
        r == resolve_spec(n, cpu),
        1 <= r <= cpu * 2,
{
    let cap = if cpu * 2 >= 1 { cpu * 2 } else { 1 };
    if n == 0 {
        if cpu <= cap { cpu } else { cap }
    } else {
        if n <= cap { n } else { cap }
    }
}

/// The queue: task statuses by path, cancel flags by path, and the semaphore.
#[derive(Debug, Clone)]
pub struct PpQueue {
    pub tasks: Vec<(String, PpTaskStatus)>,
    pub cancel_flags: Vec<(String, bool)>,
    /// Permits from the user's configuration; load adjustments never exceed it.
    pub max_permits: usize,
    /// Permits after adjusting to the machine's load.
    pub adjusted_permits: usize,
    /// Permits free now.
    pub available: usize,
    /// Tasks holding a permit.
    pub running: usize,
}

/// The permits free under a ceiling with `running` tasks holding one:
/// the ceiling less the running tasks, or none.
pub open spec fn free_permits(ceiling: usize, running: usize) -> usize {
    if running <= ceiling {
        (ceiling - running) as usize
    } else {
        0
    }
}

impl PpQueue {
    /// The queue's invariant: one entry per path in each table,
    /// `1 <= adjusted_permits <= max_permits`, and the free permits are the
    /// ceiling less the running tasks (none while as many run or more).
    pub open spec fn wf(&self) -> bool {
        &&& keys_unique(self.tasks@)
        &&& paths_match(self.tasks@)
        &&& keys_unique(self.cancel_flags@)
        &&& 1 <= self.adjusted_permits <= self.max_permits
        &&& self.available == free_permits(self.adjusted_permits, self.running)
    }

    /// An empty queue that runs one task at a time.
    pub fn new() -> (r: PpQueue)
        ensures
            r.wf(),
            r.tasks@.len() == 0,
            r.cancel_flags@.len() == 0,
            r.max_permits == 1 && r.adjusted_permits == 1 && r.available == 1,
            r.running == 0,
    {
        PpQueue { tasks: Vec::new(), cancel_flags: Vec::new(), max_permits: 1, adjusted_permits: 1, available: 1, running: 0 }
    }

    /// Takes the configured concurrency `n` (0 = automatic) on a machine
    /// with `cpu` processors: it becomes the ceiling, and the free permits
    /// are that ceiling less the running tasks.
    pub fn set_concurrency(&mut self, n: usize, cpu: usize)
        requires
            old(self).wf(),
            1 <= cpu <= usize::MAX / 2,
        ensures
            final(self).wf(),
            final(self).max_permits == resolve_spec(n, cpu),
            final(self).adjusted_permits == resolve_spec(n, cpu),
            final(self).available == free_permits(resolve_spec(n, cpu), old(self).running),
            final(self).running == old(self).running,
            final(self).tasks == old(self).tasks,
            final(self).cancel_flags == old(self).cancel_flags,
    {
        let p = resolve_concurrency(n, cpu);
        self.max_permits = p;
        self.adjusted_permits = p;
        self.available = if self.running <= p { p - self.running } else { 0 };
    }

    /// Adjusts to the machine's load: `recommended` permits, kept within
    /// `1..=max_permits`, become the ceiling; the free permits are the new
    /// ceiling less the running tasks.
    pub fn adjust_for_load(&mut self, recommended: usize) -> (r: usize)
        requires
            old(self).wf(),
        ensures
            final(self).wf(),
            r == (if recommended < 1 { 1 } else if recommended > old(self).max_permits { old(self).max_permits } else { recommended }),
            final(self).adjusted_permits == r,
            final(self).available == free_permits(r, old(self).running),
            final(self).max_permits == old(self).max_permits,
            final(self).running == old(self).running,
            final(self).tasks == old(self).tasks,
            final(self).cancel_flags == old(self).cancel_flags,
    {
        let p = if recommended < 1 {
            1
        } else if recommended > self.max_permits {
            self.max_permits
        } else {
            recommended
        };
        self.adjusted_permits = p;
        self.available = if self.running <= p { p - self.running } else { 0 };
        p
    }

    /// Takes a permit when one is free; a task then counts as running.
    pub fn try_acquire(&mut self) -> (r: bool)
        requires
            old(self).wf(),
            old(self).running < usize::MAX,
        ensures
            final(self).wf(),
            r == (old(self).available > 0),
            r ==> final(self).available == old(self).available - 1 && final(self).running == old(self).running + 1
                && final(self).running <= final(self).adjusted_permits,
            !r ==> final(self).available == old(self).available && final(self).running == old(self).running,
            final(self).max_permits == old(self).max_permits,
            final(self).adjusted_permits == old(self).adjusted_permits,
            final(self).tasks == old(self).tasks,
            final(self).cancel_flags == old(self).cancel_flags,
    {
        if self.available > 0 {
            self.available = self.available - 1;
            self.running = self.running + 1;
            true
        } else {
            false
        }
    }

    /// A running task gives its permit back; it is free again unless more
    /// tasks run than the ceiling allows.
    pub fn release(&mut self)
        requires
            old(self).wf(),
            old(self).running > 0,
        ensures
            final(self).wf(),
            final(self).running == old(self).running - 1,
            final(self).available == free_permits(old(self).adjusted_permits, final(self).running),
            old(self).running <= old(self).adjusted_permits ==> final(self).available == old(self).available + 1,
            final(self).max_permits == old(self).max_permits,
            final(self).adjusted_permits == old(self).adjusted_permits,
            final(self).tasks == old(self).tasks,
            final(self).cancel_flags == old(self).cancel_flags,
    {
        self.running = self.running - 1;
        self.available = if self.running <= self.adjusted_permits { self.adjusted_permits - self.running } else { 0 };
    }

    /// Puts the task `path` in the queue as `waiting`, and gives it a cancel
    /// flag (an existing flag is kept).
    pub fn enqueue(&mut self, path: &str)
        requires
            old(self).wf(),
        ensures
            final(self).wf(),
            task_of(final(self).tasks@, path@) == Some((path@, 0u32, 0u32, Seq::<char>::empty(), 0usize, 0usize, "waiting"@, true)),
            forall|p: Seq<char>| p != path@ ==> task_of(final(self).tasks@, p) == task_of(old(self).tasks@, p),
            get_spec(final(self).cancel_flags@, path@) == (match get_spec(old(self).cancel_flags@, path@) {
                Some(b) => Some(b),
                None => Some(false),
            }),
            forall|p: Seq<char>| p != path@ ==> get_spec(final(self).cancel_flags@, p) == get_spec(old(self).cancel_flags@, p),
            final(self).available == old(self).available && final(self).running == old(self).running,
            final(self).max_permits == old(self).max_permits && final(self).adjusted_permits == old(self).adjusted_permits,
    {
        proof {
            reveal_strlit("waiting");
            reveal_strlit("");
        }
        let t = PpTaskStatus {
            path: path.to_owned(),
            pct_hundredths: 0,
            mod_done: 0,
            module_name: "".to_owned(),
            done: 0,
            total: 0,
            status: "waiting".to_owned(),
            from_memory: true,
        };
        self.put_task(path, t);
        self.ensure_flag(path);
    }

    fn put_task(&mut self, path: &str, t: PpTaskStatus)
        requires
            old(self).wf(),
            t.path@ == path@,
        ensures
            final(self).wf(),
            task_of(final(self).tasks@, path@) == Some(t@),
            forall|p: Seq<char>| p != path@ ==> task_of(final(self).tasks@, p) == task_of(old(self).tasks@, p),
            final(self).cancel_flags == old(self).cancel_flags,
            final(self).available == old(self).available && final(self).running == old(self).running,
            final(self).max_permits == old(self).max_permits && final(self).adjusted_permits == old(self).adjusted_permits,
    {
        let k = path.to_owned();
        proof {
            lemma_put_unique(self.tasks@, k, t);
            lemma_put_paths(self.tasks@, k, t);
            lemma_key_index(self.tasks@, path@);
            lemma_key_index(put_spec(self.tasks@, k, t), path@);
            assert forall|p: Seq<char>| p != path@ implies get_spec(put_spec(self.tasks@, k, t), p) == get_spec(self.tasks@, p) by {
                lemma_put_other(self.tasks@, k, t, p);
            }
        }
        put(&mut self.tasks, k, t);
    }

    /// Every task of the queue, with the finished post-processing recorded
    /// in `records` (the metadata files) for the paths the queue does not
    /// have: done (100 %) for `finish`, error for `pp_error`; the first
    /// record of a path counts. The order is not significant.
    pub fn get_all_tasks(&self, records: &Vec<MetaRecord>) -> (r: Vec<PpTaskStatus>)
        requires
            self.wf(),
        ensures
            forall|i: int| 0 <= i < r@.len() ==> merged_task(self.tasks@, records@, (#[trigger] r@[i]).path@) == Some(r@[i]@),
            forall|i: int, j: int| 0 <= i < j < r@.len() ==> (#[trigger] r@[i]).path@ != (#[trigger] r@[j]).path@,
            forall|p: Seq<char>| #[trigger] merged_task(self.tasks@, records@, p) is Some ==> exists|i: int| 0 <= i < r@.len() && (#[trigger] r@[i]).path@ == p,
    {
        let mut acc: Vec<(String, PpTaskStatus)> = Vec::new();
        let mut i: usize = 0;
        while i < self.tasks.len()
            invariant
                i <= self.tasks@.len(),
                keys_unique(self.tasks@),
                paths_match(self.tasks@),
                acc@.len() == i,
                forall|j: int| 0 <= j < i ==> (#[trigger] acc@[j]).0@ == self.tasks@[j].0@ && acc@[j].1@ == self.tasks@[j].1@,
            decreases self.tasks.len() - i,
        {
            let e = &self.tasks[i];
            acc.push((e.0.clone(), copy_task(&e.1)));
            i += 1;
        }
        proof {
            assert forall|p: Seq<char>| task_of(acc@, p) == task_of(self.tasks@, p) by {
                lemma_same_keys(acc@, self.tasks@, p);
            }
            assert(keys_unique(acc@)) by {
                assert forall|a: int, b: int| 0 <= a < b < acc@.len() implies acc@[a].0@ != acc@[b].0@ by {
                    assert(acc@[a].0@ == self.tasks@[a].0@ && acc@[b].0@ == self.tasks@[b].0@);
                }
            }
            assert(paths_match(acc@)) by {
                assert forall|j: int| 0 <= j < acc@.len() implies (#[trigger] acc@[j]).1.path@ == acc@[j].0@ by {
                    assert(self.tasks@[j].1.path@ == self.tasks@[j].0@);
                }
            }
        }
        let mut j: usize = 0;
        while j < records.len()
            invariant
                j <= records@.len(),
                keys_unique(acc@),
                paths_match(acc@),
                forall|p: Seq<char>| task_of(acc@, p) == merged_upto(self.tasks@, records@, j as int, p),
            decreases records.len() - j,
        {
            let rec = &records[j];
            let done = str_eq(rec.status.as_str(), "finish");
            let finished = done || str_eq(rec.status.as_str(), "pp_error");
            let ghost old_acc = acc@;
            let ghost jj = j as int;
            if finished {
                match &rec.video_path {
                    Some(k) => {
                        proof {
                            lemma_key_index(acc@, k@);
                        }
                        if find_key(&acc, k.as_str()).is_none() {
                            proof {
                                reveal_strlit("done");
                                reveal_strlit("error");
                                reveal_strlit("");
                            }
                            let t = PpTaskStatus {
                                path: k.clone(),
                                pct_hundredths: if done { 10000 } else { 0 },
                                mod_done: 0,
                                module_name: "".to_owned(),
                                done: 0,
                                total: 0,
                                status: if done { "done".to_owned() } else { "error".to_owned() },
                                from_memory: false,
                            };
                            let kk = k.clone();
                            proof {
                                lemma_put_unique(acc@, kk, t);
                                lemma_put_paths(acc@, kk, t);
                                assert forall|p: Seq<char>| p != k@ implies get_spec(put_spec(acc@, kk, t), p) == get_spec(acc@, p) by {
                                    lemma_put_other(acc@, kk, t, p);
                                }
                            }
                            put(&mut acc, kk, t);
                            proof {
                                assert(t@ == finished_task(k@, done));
                                assert(merged_upto(self.tasks@, records@, jj, k@) is None);
                                assert forall|p: Seq<char>| task_of(acc@, p) == merged_upto(self.tasks@, records@, jj + 1, p) by {
                                    if p != k@ {
                                        assert(get_spec(acc@, p) == get_spec(old_acc, p));
                                        assert(task_of(old_acc, p) == merged_upto(self.tasks@, records@, jj, p));
                                        assert(records@[jj] == *rec);
                                        assert(first_finished(records@, jj + 1, p) == first_finished(records@, jj, p));
                                    } else {
                                        assert(kk@ == k@);
                                        assert(get_spec(acc@, k@) == Some(t));
                                        assert(records@[jj] == *rec);
                                        assert(first_finished(records@, jj, k@) is None);
                                        assert(first_finished(records@, jj + 1, k@) == Some(done));
                                        assert(task_of(acc@, k@) == Some(t@));
                                        assert(task_of(self.tasks@, k@) is None);
                                        assert(merged_upto(self.tasks@, records@, jj + 1, k@) == Some(finished_task(k@, done)));
                                    }
                                }
                            }
                        } else {
                            proof {
                                assert(task_of(old_acc, k@) is Some);
                                assert forall|p: Seq<char>| task_of(acc@, p) == merged_upto(self.tasks@, records@, jj + 1, p) by {
                                    assert(task_of(acc@, p) == merged_upto(self.tasks@, records@, jj, p));
                                }
                            }
                        }
                    },
                    None => {
                        proof {
                            assert forall|p: Seq<char>| task_of(acc@, p) == merged_upto(self.tasks@, records@, jj + 1, p) by {
                                assert(task_of(acc@, p) == merged_upto(self.tasks@, records@, jj, p));
                            }
                        }
                    },
                }
            } else {
                proof {
                    assert forall|p: Seq<char>| task_of(acc@, p) == merged_upto(self.tasks@, records@, jj + 1, p) by {
                        assert(task_of(acc@, p) == merged_upto(self.tasks@, records@, jj, p));
                    }
                }
            }
            j += 1;
        }
        let mut r: Vec<PpTaskStatus> = Vec::new();
        let mut m: usize = 0;
        while m < acc.len()
            invariant
                m <= acc@.len(),
                keys_unique(acc@),
                paths_match(acc@),
                r@.len() == m,
                forall|x: int| 0 <= x < m ==> (#[trigger] r@[x])@ == acc@[x].1@,
            decreases acc.len() - m,
        {
            r.push(copy_task(&acc[m].1));
            m += 1;
        }
        proof {
            assert forall|x: int| 0 <= x < r@.len() implies merged_task(self.tasks@, records@, (#[trigger] r@[x]).path@) == Some(r@[x]@) by {
                let p = r@[x].path@;
                assert(acc@[x].0@ == p);
                lemma_key_index(acc@, p);
                if key_index(acc@, p) != x {
                    assert(acc@[key_index(acc@, p)].0@ == p);
                }
                assert(task_of(acc@, p) == merged_upto(self.tasks@, records@, records@.len() as int, p));
            }
            assert forall|a: int, b: int| 0 <= a < b < r@.len() implies (#[trigger] r@[a]).path@ != (#[trigger] r@[b]).path@ by {
                assert(acc@[a].0@ != acc@[b].0@);
            }
            assert forall|p: Seq<char>| #[trigger] merged_task(self.tasks@, records@, p) is Some implies exists|x: int| 0 <= x < r@.len() && (#[trigger] r@[x]).path@ == p by {
                assert(task_of(acc@, p) == merged_upto(self.tasks@, records@, records@.len() as int, p));
                lemma_key_index(acc@, p);
                let x = key_index(acc@, p);
                assert(r@[x].path@ == acc@[x].0@);
            }
        }
        r
    }

    fn ensure_flag(&mut self, path: &str)
        requires
            old(self).wf(),
        ensures
            final(self).wf(),
            get_spec(final(self).cancel_flags@, path@) == (match get_spec(old(self).cancel_flags@, path@) {
                Some(b) => Some(b),
                None => Some(false),
            }),
            forall|p: Seq<char>| p != path@ ==> get_spec(final(self).cancel_flags@, p) == get_spec(old(self).cancel_flags@, p),
            final(self).tasks == old(self).tasks,
            final(self).available == old(self).available && final(self).running == old(self).running,
            final(self).max_permits == old(self).max_permits && final(self).adjusted_permits == old(self).adjusted_permits,
    {
        match find_key(&self.cancel_flags, path) {
            Some(_) => {},
            None => {
                let k = path.to_owned();
                proof {
                    lemma_put_unique(self.cancel_flags@, k, false);
                    assert forall|p: Seq<char>| p != path@ implies get_spec(put_spec(self.cancel_flags@, k, false), p) == get_spec(self.cancel_flags@, p) by {
                        lemma_put_other(self.cancel_flags@, k, false, p);
                    }
                }
                put(&mut self.cancel_flags, k, false);
            },
        }
    }

    /// Marks the task `path` as `running` over `total` nodes.
    pub fn start(&mut self, path: &str, total: usize)
        requires
            old(self).wf(),
        ensures
            final(self).wf(),
            task_of(final(self).tasks@, path@) == Some((path@, 0u32, 0u32, Seq::<char>::empty(), 0usize, total, "running"@, true)),
            forall|p: Seq<char>| p != path@ ==> task_of(final(self).tasks@, p) == task_of(old(self).tasks@, p),
            final(self).cancel_flags == old(self).cancel_flags,
            final(self).available == old(self).available && final(self).running == old(self).running,
            final(self).max_permits == old(self).max_permits && final(self).adjusted_permits == old(self).adjusted_permits,
    {
        proof {
            reveal_strlit("running");
            reveal_strlit("");
        }
        let t = PpTaskStatus {
            path: path.to_owned(),
            pct_hundredths: 0,
            mod_done: 0,
            module_name: "".to_owned(),
            done: 0,
            total,
            status: "running".to_owned(),
            from_memory: true,
        };
        self.put_task(path, t);
    }

    /// Records the progress of the task `path`, when it is in the queue.
    pub fn progress(&mut self, path: &str, pct_hundredths: u32, mod_done: u32, module_name: &str, done: usize, total: usize)
        requires
            old(self).wf(),
        ensures
            final(self).wf(),
            task_of(old(self).tasks@, path@) matches Some(t) ==> task_of(final(self).tasks@, path@)
                == Some((t.0, pct_hundredths, mod_done, module_name@, done, total, t.6, t.7)),
            task_of(old(self).tasks@, path@) is None ==> final(self).tasks@ == old(self).tasks@,
            forall|p: Seq<char>| p != path@ ==> task_of(final(self).tasks@, p) == task_of(old(self).tasks@, p),
            final(self).cancel_flags == old(self).cancel_flags,
            final(self).available == old(self).available && final(self).running == old(self).running,
            final(self).max_permits == old(self).max_permits && final(self).adjusted_permits == old(self).adjusted_permits,
    {
        proof {
            lemma_key_index(self.tasks@, path@);
        }
        match find_key(&self.tasks, path) {
            Some(i) => {
                let old_t = &self.tasks[i].1;
                assert(old_t.path@ == path@);
                let t = PpTaskStatus {
                    path: old_t.path.clone(),
                    pct_hundredths,
                    mod_done,
                    module_name: module_name.to_owned(),
                    done,
                    total,
                    status: old_t.status.clone(),
                    from_memory: old_t.from_memory,
                };
                self.put_task(path, t);
            },
            None => {},
        }
    }

    /// Takes the task `path` out of the queue (it finished, failed or was
    /// removed; its final state is read from its metadata from then on).
    pub fn finish(&mut self, path: &str)
        requires
            old(self).wf(),
        ensures
            final(self).wf(),
            task_of(final(self).tasks@, path@) is None,
            forall|p: Seq<char>| p != path@ ==> task_of(final(self).tasks@, p) == task_of(old(self).tasks@, p),
            final(self).cancel_flags == old(self).cancel_flags,
            final(self).available == old(self).available && final(self).running == old(self).running,
            final(self).max_permits == old(self).max_permits && final(self).adjusted_permits == old(self).adjusted_permits,
    {
        proof {
            lemma_key_index(self.tasks@, path@);
            if key_index(self.tasks@, path@) >= 0 {
                lemma_remove_paths(self.tasks@, key_index(self.tasks@, path@));
            }
        }
        remove_key(&mut self.tasks, path);
    }

    /// Takes the task `path` out of the queue.
    pub fn remove(&mut self, path: &str)
        requires
            old(self).wf(),
        ensures
            final(self).wf(),
            task_of(final(self).tasks@, path@) is None,
            forall|p: Seq<char>| p != path@ ==> task_of(final(self).tasks@, p) == task_of(old(self).tasks@, p),
            final(self).cancel_flags == old(self).cancel_flags,
            final(self).available == old(self).available && final(self).running == old(self).running,
            final(self).max_permits == old(self).max_permits && final(self).adjusted_permits == old(self).adjusted_permits,
    {
        self.finish(path);
    }

    /// The cancel flag of `path`, created (not set) when missing.
    pub fn make_cancel_flag(&mut self, path: &str) -> (r: bool)
        requires
            old(self).wf(),
        ensures
            final(self).wf(),
            r == (match get_spec(old(self).cancel_flags@, path@) { Some(b) => b, None => false }),
            get_spec(final(self).cancel_flags@, path@) == Some(r),
            forall|p: Seq<char>| p != path@ ==> get_spec(final(self).cancel_flags@, p) == get_spec(old(self).cancel_flags@, p),
            final(self).tasks == old(self).tasks,
            final(self).available == old(self).available && final(self).running == old(self).running,
            final(self).max_permits == old(self).max_permits && final(self).adjusted_permits == old(self).adjusted_permits,
    {
        self.ensure_flag(path);
        self.is_cancelled(path)
    }

    /// Asks the task `path` to stop, when it has a cancel flag.
    pub fn cancel(&mut self, path: &str)
        requires
            old(self).wf(),
        ensures
            final(self).wf(),
            get_spec(old(self).cancel_flags@, path@) is Some ==> get_spec(final(self).cancel_flags@, path@) == Some(true),
            get_spec(old(self).cancel_flags@, path@) is None ==> final(self).cancel_flags@ == old(self).cancel_flags@,
            forall|p: Seq<char>| p != path@ ==> get_spec(final(self).cancel_flags@, p) == get_spec(old(self).cancel_flags@, p),
            final(self).tasks == old(self).tasks,
            final(self).available == old(self).available && final(self).running == old(self).running,
            final(self).max_permits == old(self).max_permits && final(self).adjusted_permits == old(self).adjusted_permits,
    {
        match find_key(&self.cancel_flags, path) {
            Some(_) => {
                let k = path.to_owned();
                proof {
                    lemma_put_unique(self.cancel_flags@, k, true);
                    assert forall|p: Seq<char>| p != path@ implies get_spec(put_spec(self.cancel_flags@, k, true), p) == get_spec(self.cancel_flags@, p) by {
                        lemma_put_other(self.cancel_flags@, k, true, p);
                    }
                }
                put(&mut self.cancel_flags, k, true);
            },
            None => {},
        }
    }

    /// Whether the task `path` was asked to stop.
    pub fn is_cancelled(&self, path: &str) -> (r: bool)
        ensures
            r == (match get_spec(self.cancel_flags@, path@) { Some(b) => b, None => false }),
    {
        proof {
            lemma_key_index(self.cancel_flags@, path@);
        }
        match find_key(&self.cancel_flags, path) {
            Some(i) => self.cancel_flags[i].1,
            None => false,
        }
    }

    /// Drops the cancel flag of `path` (after the task ended).
    pub fn clear_cancel_flag(&mut self, path: &str)
        requires
            old(self).wf(),
        ensures
            final(self).wf(),
            get_spec(final(self).cancel_flags@, path@) is None,
            forall|p: Seq<char>| p != path@ ==> get_spec(final(self).cancel_flags@, p) == get_spec(old(self).cancel_flags@, p),
            final(self).tasks == old(self).tasks,
            final(self).available == old(self).available && final(self).running == old(self).running,
            final(self).max_permits == old(self).max_permits && final(self).adjusted_permits == old(self).adjusted_permits,
    {
        remove_key(&mut self.cancel_flags, path);
    }

    /// The status of the task `path`, when this process has it.
    pub fn get_status(&self, path: &str) -> (r: Option<String>)
        ensures
            task_of(self.tasks@, path@) matches Some(t) ==> (r matches Some(s) && s@ == t.6),
            task_of(self.tasks@, path@) is None ==> r is None,
    {
        proof {
            lemma_key_index(self.tasks@, path@);
        }
        match find_key(&self.tasks, path) {
            Some(i) => Some(self.tasks[i].1.status.clone()),
            None => None,
        }
    }

    /// Whether this process has the task `path` (queued or running).
    pub fn is_queued(&self, path: &str) -> (r: bool)
        ensures
            r == (task_of(self.tasks@, path@) is Some),
    {
        proof {
            lemma_key_index(self.tasks@, path@);
        }
        find_key(&self.tasks, path).is_some()
    }

    /// Whether this process tracks the task `path`; a recording whose
    /// metadata says it is waiting or running but that is not tracked was
    /// left over by an earlier run.
    pub fn is_tracked(&self, path: &str) -> (r: bool)
        ensures
            r == (task_of(self.tasks@, path@) is Some),
    {
        self.is_queued(path)
    }

    /// How many tasks hold a permit.
    pub fn running_count(&self) -> (r: usize)
        ensures
            r == self.running,
    {
        self.running
    }

    /// How many permits are free now: the ceiling less the running tasks.
    pub fn current_permits(&self) -> (r: usize)
        ensures
            r == self.available,
            self.wf() ==> r == free_permits(self.adjusted_permits, self.running),
    {
        self.available
    }
}

/// A copy of a task status.
pub fn copy_task(t: &PpTaskStatus) -> (r: PpTaskStatus)
    ensures
        r@ == t@,
{
    PpTaskStatus {
        path: t.path.clone(),
        pct_hundredths: t.pct_hundredths,
        mod_done: t.mod_done,
        module_name: t.module_name.clone(),
        done: t.done,
        total: t.total,
        status: t.status.clone(),
        from_memory: t.from_memory,
    }
}

/// What a metadata file says of a post-processing run.
#[derive(Debug, Clone)]
pub struct MetaRecord {
    /// The metadata's status.
    pub status: String,
    /// The video it describes, if named.
    pub video_path: Option<String>,
}

/// Among the first `n` records, the first finished one (`finish` or
/// `pp_error`) for the video `p`: whether it succeeded.
pub open spec fn first_finished(records: Seq<MetaRecord>, n: int, p: Seq<char>) -> Option<bool>
    decreases n,
{
    if n <= 0 {
        None
    } else {
        let prev = first_finished(records, n - 1, p);
        let rec = records[n - 1];
        if prev is Some {
            prev
        } else if (rec.status@ == "finish"@ || rec.status@ == "pp_error"@) && (rec.video_path matches Some(v) && v@ == p) {
            Some(rec.status@ == "finish"@)
        } else {
            None
        }
    }
}

/// The status shown for a finished run read from metadata.
pub open spec fn finished_task(p: Seq<char>, success: bool) -> TaskV {
    (p, if success { 10000u32 } else { 0u32 }, 0u32, Seq::<char>::empty(), 0usize, 0usize, if success { "done"@ } else { "error"@ }, false)
}

/// The task shown for `p` after merging the queue with the first `n` records.
pub open spec fn merged_upto(tasks: Seq<(String, PpTaskStatus)>, records: Seq<MetaRecord>, n: int, p: Seq<char>) -> Option<TaskV> {
    match task_of(tasks, p) {
        Some(t) => Some(t),
        None => match first_finished(records, n, p) {
            Some(success) => Some(finished_task(p, success)),
            None => None,
        },
    }
}

/// The task shown for `p` after merging the queue with all records.
pub open spec fn merged_task(tasks: Seq<(String, PpTaskStatus)>, records: Seq<MetaRecord>, p: Seq<char>) -> Option<TaskV> {
    merged_upto(tasks, records, records.len() as int, p)
}

/// Two tables with the same keys at each position find a key at the same place.
proof fn lemma_same_key_index(a: Seq<(String, PpTaskStatus)>, b: Seq<(String, PpTaskStatus)>, p: Seq<char>)
    requires
        a.len() == b.len(),
        forall|j: int| 0 <= j < a.len() ==> (#[trigger] a[j]).0@ == b[j].0@,
    ensures
        key_index(a, p) == key_index(b, p),
    decreases a.len(),
{
    if a.len() > 0 {
        assert forall|j: int| 0 <= j < a.drop_last().len() implies (#[trigger] a.drop_last()[j]).0@ == b.drop_last()[j].0@ by {
            assert(a.drop_last()[j] == a[j] && b.drop_last()[j] == b[j]);
        }
        lemma_same_key_index(a.drop_last(), b.drop_last(), p);
        assert(a.last() == a[a.len() - 1] && b.last() == b[b.len() - 1]);
    }
}

/// Two tables with the same keys and statuses at each position agree on every path.
proof fn lemma_same_keys(a: Seq<(String, PpTaskStatus)>, b: Seq<(String, PpTaskStatus)>, p: Seq<char>)
    requires
        a.len() == b.len(),
        forall|j: int| 0 <= j < a.len() ==> (#[trigger] a[j]).0@ == b[j].0@ && a[j].1@ == b[j].1@,
    ensures
        task_of(a, p) == task_of(b, p),
{
    lemma_same_key_index(a, b, p);
    lemma_key_index(a, p);
    let k = key_index(a, p);
    if k >= 0 {
        assert(a[k].1@ == b[k].1@);
    }
}

/// Removing a task keeps every task under its own path.
proof fn lemma_remove_paths(s: Seq<(String, PpTaskStatus)>, i: int)
    requires
        paths_match(s),
        0 <= i < s.len(),
    ensures
        paths_match(s.remove(i)),
{
    let n = s.remove(i);
    assert forall|j: int| 0 <= j < n.len() implies (#[trigger] n[j]).1.path@ == n[j].0@ by {
        if j < i {
            assert(n[j] == s[j]);
        } else {
            assert(n[j] == s[j + 1]);
        }
    }
}

/// Putting a key leaves the other keys' values as they were.
pub proof fn lemma_put_other<V>(s: Seq<(String, V)>, k: String, v: V, p: Seq<char>)
    requires
        p != k@,
    ensures
        get_spec(put_spec(s, k, v), p) == get_spec(s, p),
{
    lemma_key_index(s, p);
    lemma_key_index(s, k@);
    let t = put_spec(s, k, v);
    lemma_key_index(t, p);
    let i = key_index(s, p);
    let ti = key_index(t, p);
    assert forall|j: int| 0 <= j < s.len() implies #[trigger] t[j].0@ == s[j].0@ || j == key_index(s, k@) by {}
    if i >= 0 {
        assert(t[i].0@ == p);
        if ti != i {
            if ti < 0 || i < ti {
                assert(t[i] == s[i]);
            } else {
                assert(t[ti].0@ == s[ti].0@ || ti == key_index(s, k@));
            }
        }
    } else {
        if ti >= 0 {
            if ti < s.len() {
                assert(t[ti].0@ == s[ti].0@ || ti == key_index(s, k@));
            }
        }
    }
}

/// `s` without the pair whose key is `k`.
pub fn remove_key<V>(s: &mut Vec<(String, V)>, k: &str)
    requires
        keys_unique(old(s)@),
    ensures
        keys_unique(final(s)@),
        get_spec(final(s)@, k@) is None,
        forall|p: Seq<char>| p != k@ ==> get_spec(final(s)@, p) == get_spec(old(s)@, p),
        key_index(old(s)@, k@) >= 0 ==> final(s)@ == old(s)@.remove(key_index(old(s)@, k@)),
        key_index(old(s)@, k@) < 0 ==> final(s)@ == old(s)@,
{
    proof {
        lemma_key_index(s@, k@);
    }
    match find_key(s, k) {
        Some(i) => {
            let ghost o = s@;
            s.remove(i);
            proof {
                let n = s@;
                assert(n == o.remove(i as int));
                assert forall|a: int, b: int| 0 <= a < b < n.len() implies n[a].0@ != n[b].0@ by {
                    let oa = if a < i { a } else { a + 1 };
                    let ob = if b < i { b } else { b + 1 };
                    assert(n[a] == o[oa] && n[b] == o[ob]);
                }
                lemma_key_index(n, k@);
                if key_index(n, k@) >= 0 {
                    let x = key_index(n, k@);
                    let ox = if x < i { x } else { x + 1 };
                    assert(n[x] == o[ox]);
                    assert(o[ox].0@ == o[i as int].0@);
                }
                assert forall|p: Seq<char>| p != k@ implies get_spec(n, p) == get_spec(o, p) by {
                    lemma_key_index(o, p);
                    lemma_key_index(n, p);
                    let oi = key_index(o, p);
                    let ni = key_index(n, p);
                    if oi >= 0 {
                        let pos = if oi < i { oi } else { oi - 1 };
                        assert(oi != i);
                        assert(n[pos] == o[oi]);
                        if ni != pos {
                            if ni < 0 || pos < ni {
                                assert(n[pos].0@ == p);
                            } else {
                                let oni = if ni < i { ni } else { ni + 1 };
                                assert(n[ni] == o[oni]);
                            }
                        }
                    } else if ni >= 0 {
                        let oni = if ni < i { ni } else { ni + 1 };
                        assert(n[ni] == o[oni]);
                    }
                }
            }
        },
        None => {
            proof {
                assert forall|j: int| 0 <= j < s@.len() implies #[trigger] s@[j].0@ != k@ by {}
            }
        },
    }
}

/// What the machine allows: its processors, and the highest concurrency
/// of post-processing and of recording that may be configured.
#[derive(Debug, Clone)]
pub struct SystemInfo {
    pub cpu_count: usize,
    pub max_pp_concurrent_cap: usize,
    pub max_concurrent_cap: usize,
}

/// The system information for a machine with `cpu` processors: both
/// input limits are four times the processors (at least 1).
pub fn system_info(cpu: usize) -> (r: SystemInfo)
    requires
        cpu <= usize::MAX / 4,
    ensures
        r.cpu_count == cpu,
        r.max_pp_concurrent_cap == (if cpu * 4 >= 1 { cpu * 4 } else { 1 }),
        r.max_concurrent_cap == r.max_pp_concurrent_cap,
{
    let cap = if cpu * 4 >= 1 { cpu * 4 } else { 1 };
    SystemInfo { cpu_count: cpu, max_pp_concurrent_cap: cap, max_concurrent_cap: cap }
}

} // verus!
