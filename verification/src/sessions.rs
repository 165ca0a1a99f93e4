//! The recordings running in this process: which streamer is recorded
//! into which directory since when, how a recording was stopped, and which
//! paths it holds.
use vstd::prelude::*;
use crate::meta::{username_from_path, username_of};
use crate::path::{file_name, file_name_seq};
use crate::recorder::RecorderError;
use crate::text::{from_chars, split_char, split_seq, str_eq, strs_view, to_chars, vec_contains_str};

verus! {

/// A running recording.
#[derive(Debug, Clone)]
pub struct SessionInfo {
    pub username: String,
    /// Its segment directory.
    pub dir_path: String,
    /// When it started (RFC 3339).
    pub started_at: String,
}

/// The running recordings, and how the ended ones stopped.
#[derive(Debug, Clone)]
pub struct SessionRegistry {
    pub sessions: Vec<SessionInfo>,
    /// Streamers whose recording stopped by itself (the stream ended).
    pub naturally_stopped: Vec<String>,
    /// Streamers whose recording the user asked to stop.
    pub manually_stopping: Vec<String>,
}

/// Position of the session of `u`, or -1.
pub open spec fn session_of(s: Seq<SessionInfo>, u: Seq<char>) -> int
    decreases s.len(),
{
    if s.len() == 0 {
        -1
    } else if session_of(s.drop_last(), u) >= 0 {
        session_of(s.drop_last(), u)
    } else if s.last().username@ == u {
        s.len() - 1
    } else {
        -1
    }
}

/// `session_of` is the least position of the streamer, or -1.
pub proof fn lemma_session_of(s: Seq<SessionInfo>, u: Seq<char>)
    ensures
        -1 <= session_of(s, u) < s.len(),
        session_of(s, u) >= 0 ==> s[session_of(s, u)].username@ == u,
        forall|j: int| 0 <= j < s.len() && (session_of(s, u) < 0 || j < session_of(s, u)) ==> #[trigger] s[j].username@ != u,
    decreases s.len(),
{
    if s.len() > 0 {
        lemma_session_of(s.drop_last(), u);
        assert forall|j: int| 0 <= j < s.len() - 1 implies #[trigger] s[j] == s.drop_last()[j] by {}
    }
}

/// The components of a path: its `/`-separated pieces without the empty
/// ones and `.` (so `a//b/` and `a/./b` have the components `a`, `b`).
pub open spec fn components(p: Seq<char>) -> Seq<Seq<char>> {
    kept_components(split_seq(p, '/'))
}

/// The pieces that are neither empty nor `.`.
pub open spec fn kept_components(parts: Seq<Seq<char>>) -> Seq<Seq<char>>
    decreases parts.len(),
{
    if parts.len() == 0 {
        seq![]
    } else {
        let p = kept_components(parts.drop_last());
        let c = parts.last();
        if c.len() > 0 && c != seq!['.'] {
            p.push(c)
        } else {
            p
        }
    }
}

/// Whether `path` lies in `base` (or is it): both absolute or both
/// relative, and the components of `base` begin those of `path`.
pub open spec fn lies_in(path: Seq<char>, base: Seq<char>) -> bool {
    &&& (path.len() > 0 && path[0] == '/') == (base.len() > 0 && base[0] == '/')
    &&& components(base).len() <= components(path).len()
    &&& components(path).subrange(0, components(base).len() as int) == components(base)
}

/// The components of a path (executable).
fn path_components(p: &str) -> (r: Vec<Vec<char>>)
    ensures
        r@.map_values(|c: Vec<char>| c@) == components(p@),
{
    let parts = split_char(&to_chars(p), '/');
    let ghost all = parts@.map_values(|c: Vec<char>| c@);
    assert(all =~= split_seq(p@, '/'));
    let mut r: Vec<Vec<char>> = Vec::new();
    let mut i: usize = 0;
    while i < parts.len()
        invariant
            i <= parts@.len(),
            all == parts@.map_values(|c: Vec<char>| c@),
            r@.map_values(|c: Vec<char>| c@) == kept_components(all.subrange(0, i as int)),
        decreases parts.len() - i,
    {
        let c = &parts[i];
        let dot = c.len() == 1 && c[0] == '.';
        proof {
            let t = all.subrange(0, i + 1);
            assert(t.drop_last() =~= all.subrange(0, i as int));
            assert(t.last() == parts@[i as int]@);
            assert(dot == (c@ == seq!['.'])) by {
                if c@ == seq!['.'] {
                    assert(c@.len() == 1 && c@[0] == '.');
                }
                if dot {
                    assert(c@ =~= seq!['.']);
                }
            }
        }
        if c.len() > 0 && !dot {
            r.push(c.clone());
        }
        i += 1;
        proof {
            assert(r@.map_values(|c: Vec<char>| c@) =~= kept_components(all.subrange(0, i as int)));
        }
    }
    assert(all.subrange(0, parts@.len() as int) =~= all);
    r
}

/// Whether `path` lies in `base` (executable).
pub fn path_lies_in(path: &str, base: &str) -> (r: bool)
    ensures
        r == lies_in(path@, base@),
{
    let pv = to_chars(path);
    let bv = to_chars(base);
    let pa = pv.len() > 0 && pv[0] == '/';
    let ba = bv.len() > 0 && bv[0] == '/';
    if pa != ba {
        return false;
    }
    let pc = path_components(path);
    let bc = path_components(base);
    let ghost ps = pc@.map_values(|c: Vec<char>| c@);
    let ghost bs = bc@.map_values(|c: Vec<char>| c@);
    if bc.len() > pc.len() {
        return false;
    }
    let mut i: usize = 0;
    while i < bc.len()
        invariant
            i <= bc@.len() <= pc@.len(),
            ps == pc@.map_values(|c: Vec<char>| c@),
            bs == bc@.map_values(|c: Vec<char>| c@),
            ps == components(path@),
            bs == components(base@),
            forall|j: int| 0 <= j < i ==> ps[j] == bs[j],
        decreases bc.len() - i,
    {
        if !crate::text::chars_eq(&pc[i], &bc[i]) {
            proof {
                assert(ps[i as int] == pc@[i as int]@ && bs[i as int] == bc@[i as int]@);
                assert(ps.subrange(0, bs.len() as int)[i as int] != bs[i as int]);
                assert(ps.subrange(0, bs.len() as int) != bs);
            }
            return false;
        }
        i += 1;
    }
    assert(ps.subrange(0, bs.len() as int) =~= bs);
    true
}

impl SessionRegistry {
    /// One running recording per streamer.
    pub open spec fn wf(&self) -> bool {
        forall|i: int, j: int| 0 <= i < j < self.sessions@.len() ==> self.sessions@[i].username@ != self.sessions@[j].username@
    }

    /// Nothing running.
    pub fn new() -> (r: SessionRegistry)
        ensures
            r.wf(),
            r.sessions@.len() == 0,
            r.naturally_stopped@.len() == 0,
            r.manually_stopping@.len() == 0,
    {
        SessionRegistry { sessions: Vec::new(), naturally_stopped: Vec::new(), manually_stopping: Vec::new() }
    }

    fn find(&self, username: &str) -> (r: Option<usize>)
        ensures
            r matches Some(i) ==> i as int == session_of(self.sessions@, username@) && i < self.sessions@.len(),
            r is None ==> session_of(self.sessions@, username@) == -1,
    {
        proof {
            lemma_session_of(self.sessions@, username@);
        }
        let mut i: usize = 0;
        while i < self.sessions.len()
            invariant
                i <= self.sessions@.len(),
                forall|j: int| 0 <= j < i ==> #[trigger] self.sessions@[j].username@ != username@,
                -1 <= session_of(self.sessions@, username@) < self.sessions@.len(),
                session_of(self.sessions@, username@) >= 0 ==> self.sessions@[session_of(self.sessions@, username@)].username@ == username@,
                forall|j: int| 0 <= j < self.sessions@.len() && (session_of(self.sessions@, username@) < 0 || j < session_of(self.sessions@, username@)) ==> #[trigger] self.sessions@[j].username@ != username@,
            decreases self.sessions.len() - i,
        {
            if str_eq(self.sessions[i].username.as_str(), username) {
                return Some(i);
            }
            i += 1;
        }
        None
    }

    /// Whether `username` is being recorded.
    pub fn is_recording(&self, username: &str) -> (r: bool)
        ensures
            r == (session_of(self.sessions@, username@) >= 0),
    {
        self.find(username).is_some()
    }

    /// How many recordings run.
    pub fn active_count(&self) -> (r: usize)
        ensures
            r == self.sessions@.len(),
    {
        self.sessions.len()
    }

    /// Records that `username` is now recorded into `dir_path` since `started_at`.
    pub fn start(&mut self, username: &str, dir_path: &str, started_at: &str)
        requires
            old(self).wf(),
            session_of(old(self).sessions@, username@) < 0,
        ensures
            final(self).wf(),
            final(self).sessions@.len() == old(self).sessions@.len() + 1,
            final(self).sessions@.drop_last() == old(self).sessions@,
            final(self).sessions@.last().username@ == username@,
            final(self).sessions@.last().dir_path@ == dir_path@,
            final(self).sessions@.last().started_at@ == started_at@,
            final(self).naturally_stopped@ == old(self).naturally_stopped@,
            final(self).manually_stopping@ == old(self).manually_stopping@,
    {
        proof {
            lemma_session_of(self.sessions@, username@);
        }
        let ghost o = self.sessions@;
        self.sessions.push(SessionInfo {
            username: username.to_owned(),
            dir_path: dir_path.to_owned(),
            started_at: started_at.to_owned(),
        });
        assert(self.sessions@.drop_last() =~= o);
        assert forall|i: int, j: int| 0 <= i < j < self.sessions@.len() implies self.sessions@[i].username@ != self.sessions@[j].username@ by {
            if j == o.len() {
                assert(o[i].username@ != username@);
            } else {
                assert(self.sessions@[i] == o[i] && self.sessions@[j] == o[j]);
            }
        }
    }

    /// Asks the recording of `username` to stop (`manual` when the user
    /// asked); refused when it is not recorded.
    pub fn request_stop(&mut self, username: &str, manual: bool) -> (r: Result<(), RecorderError>)
        requires
            old(self).wf(),
        ensures
            final(self).wf(),
            session_of(old(self).sessions@, username@) < 0 ==> (r matches Err(RecorderError::NotRecording(u)) && u@ == username@)
                && final(self).manually_stopping@ == old(self).manually_stopping@,
            session_of(old(self).sessions@, username@) >= 0 ==> r is Ok
                && strs_view(final(self).manually_stopping@).to_set() == (if manual {
                    strs_view(old(self).manually_stopping@).to_set().insert(username@)
                } else {
                    strs_view(old(self).manually_stopping@).to_set()
                }),
            final(self).sessions@ == old(self).sessions@,
            final(self).naturally_stopped@ == old(self).naturally_stopped@,
    {
        if self.find(username).is_none() {
            return Err(RecorderError::NotRecording(username.to_owned()));
        }
        if manual {
            let ghost o = self.manually_stopping@;
            self.manually_stopping.push(username.to_owned());
            proof {
                assert(strs_view(self.manually_stopping@) =~= strs_view(o).push(username@));
                assert(strs_view(o).push(username@).to_set() =~= strs_view(o).to_set().insert(username@)) by {
                    broadcast use vstd::seq_lib::group_seq_properties;
                }
            }
        }
        Ok(())
    }

    /// The recording of `username` ended: it is no longer running, and it
    /// counts as stopped by itself unless the user had asked it to stop.
    /// Tells whether it stopped by itself.
    pub fn session_ended(&mut self, username: &str) -> (natural: bool)
        requires
            old(self).wf(),
        ensures
            final(self).wf(),
            session_of(final(self).sessions@, username@) < 0,
            natural == !strs_view(old(self).manually_stopping@).contains(username@),
            !strs_view(final(self).manually_stopping@).contains(username@),
            natural ==> strs_view(final(self).naturally_stopped@).contains(username@),
            final(self).sessions@.len() <= old(self).sessions@.len(),
    {
        proof {
            lemma_session_of(self.sessions@, username@);
        }
        match self.find(username) {
            Some(i) => {
                let ghost o = self.sessions@;
                self.sessions.remove(i);
                proof {
                    let n = self.sessions@;
                    assert(n == o.remove(i as int));
                    assert forall|a: int, b: int| 0 <= a < b < n.len() implies n[a].username@ != n[b].username@ by {
                        let a2 = if a < i { a } else { a + 1 };
                        let b2 = if b < i { b } else { b + 1 };
                        assert(n[a] == o[a2] && n[b] == o[b2]);
                    }
                    lemma_session_of(n, username@);
                    if session_of(n, username@) >= 0 {
                        let x = session_of(n, username@);
                        let ox = if x < i { x } else { x + 1 };
                        assert(n[x] == o[ox]);
                        assert(o[ox].username@ == o[i as int].username@);
                    }
                }
            },
            None => {},
        }
        let was_manual = vec_contains_str(&self.manually_stopping, username);
        let ghost om = self.manually_stopping@;
        let mut kept: Vec<String> = Vec::new();
        let mut j: usize = 0;
        while j < self.manually_stopping.len()
            invariant
                j <= om.len(),
                self.manually_stopping@ == om,
                forall|k: int| 0 <= k < kept@.len() ==> (#[trigger] kept@[k])@ != username@,
                forall|k: int| 0 <= k < j && om[k]@ != username@ ==> strs_view(kept@).contains(#[trigger] om[k]@),
            decreases om.len() - j,
        {
            if !str_eq(self.manually_stopping[j].as_str(), username) {
                let ghost before = kept@;
                kept.push(self.manually_stopping[j].clone());
                proof {
                    assert(strs_view(kept@) =~= strs_view(before).push(om[j as int]@));
                    assert forall|k: int| 0 <= k < j + 1 && om[k]@ != username@ implies strs_view(kept@).contains(#[trigger] om[k]@) by {
                        if k < j {
                            let w = choose|x: int| 0 <= x < strs_view(before).len() && strs_view(before)[x] == om[k]@;
                            assert(strs_view(kept@)[w] == om[k]@);
                        } else {
                            assert(strs_view(kept@)[before.len() as int] == om[k]@);
                        }
                    }
                }
            }
            j += 1;
        }
        self.manually_stopping = kept;
        proof {
            if strs_view(self.manually_stopping@).contains(username@) {
                let w = choose|x: int| 0 <= x < strs_view(self.manually_stopping@).len() && strs_view(self.manually_stopping@)[x] == username@;
                assert(self.manually_stopping@[w]@ != username@);
            }
        }
        if !was_manual {
            let ghost on = self.naturally_stopped@;
            self.naturally_stopped.push(username.to_owned());
            proof {
                assert(strs_view(self.naturally_stopped@)[on.len() as int] == username@);
            }
        }
        !was_manual
    }

    /// Whether `path` lies in the directory of a running recording.
    pub fn is_file_locked(&self, path: &str) -> (r: bool)
        ensures
            r == exists|i: int| 0 <= i < self.sessions@.len() && lies_in(path@, #[trigger] self.sessions@[i].dir_path@),
    {
        let mut i: usize = 0;
        while i < self.sessions.len()
            invariant
                i <= self.sessions@.len(),
                forall|j: int| 0 <= j < i ==> !lies_in(path@, #[trigger] self.sessions@[j].dir_path@),
            decreases self.sessions.len() - i,
        {
            if path_lies_in(path, self.sessions[i].dir_path.as_str()) {
                return true;
            }
            i += 1;
        }
        false
    }

    /// The running recordings: directory and start time.
    pub fn get_active_sessions(&self) -> (r: Vec<(String, String)>)
        ensures
            r@.len() == self.sessions@.len(),
            forall|i: int| 0 <= i < r@.len() ==> (#[trigger] r@[i]).0@ == self.sessions@[i].dir_path@ && r@[i].1@ == self.sessions@[i].started_at@,
    {
        let mut r: Vec<(String, String)> = Vec::new();
        let mut i: usize = 0;
        while i < self.sessions.len()
            invariant
                i <= self.sessions@.len(),
                r@.len() == i,
                forall|k: int| 0 <= k < i ==> (#[trigger] r@[k]).0@ == self.sessions@[k].dir_path@ && r@[k].1@ == self.sessions@[k].started_at@,
            decreases self.sessions.len() - i,
        {
            r.push((self.sessions[i].dir_path.clone(), self.sessions[i].started_at.clone()));
            i += 1;
        }
        r
    }
}

/// A segment directory being merged or waiting to be.
#[derive(Debug, Clone)]
pub struct MergeDirEntry {
    pub session_dir: String,
    pub username: String,
    pub stem: String,
    /// `merging` or `waiting`.
    pub status: String,
}

fn merge_dir_entry(path: &String, status: &str) -> (r: MergeDirEntry)
    ensures
        r.session_dir@ == path@,
        r.username@ == username_of(path@),
        r.stem@ == (match file_name_seq(path@) { Some(n) => n, None => seq![] }),
        r.status@ == status@,
{
    MergeDirEntry {
        session_dir: path.clone(),
        username: username_from_path(path.as_str()),
        stem: match file_name(&to_chars(path.as_str())) {
            Some(n) => from_chars(&n),
            None => String::new(),
        },
        status: status.to_owned(),
    }
}

/// The directories being merged, then those waiting, each with its
/// streamer and name.
pub fn merge_dir_entries(merging: &Vec<String>, waiting: &Vec<String>) -> (r: Vec<MergeDirEntry>)
    ensures
        r@.len() == merging@.len() + waiting@.len(),
        forall|i: int| 0 <= i < merging@.len() ==> (#[trigger] r@[i]).session_dir@ == merging@[i]@
            && r@[i].username@ == username_of(merging@[i]@) && r@[i].status@ == "merging"@,
        forall|i: int| 0 <= i < waiting@.len() ==> (#[trigger] r@[merging@.len() + i]).session_dir@ == waiting@[i]@
            && r@[merging@.len() + i].username@ == username_of(waiting@[i]@) && r@[merging@.len() + i].status@ == "waiting"@,
{
    proof {
        reveal_strlit("merging");
        reveal_strlit("waiting");
    }
    let mut r: Vec<MergeDirEntry> = Vec::new();
    let mut i: usize = 0;
    while i < merging.len()
        invariant
            i <= merging@.len(),
            r@.len() == i,
            forall|k: int| 0 <= k < i ==> (#[trigger] r@[k]).session_dir@ == merging@[k]@
                && r@[k].username@ == username_of(merging@[k]@) && r@[k].status@ == "merging"@,
        decreases merging.len() - i,
    {
        r.push(merge_dir_entry(&merging[i], "merging"));
        i += 1;
    }
    let mut j: usize = 0;
    while j < waiting.len()
        invariant
            j <= waiting@.len(),
            r@.len() == merging@.len() + j,
            forall|k: int| 0 <= k < merging@.len() ==> (#[trigger] r@[k]).session_dir@ == merging@[k]@
                && r@[k].username@ == username_of(merging@[k]@) && r@[k].status@ == "merging"@,
            forall|k: int| 0 <= k < j ==> (#[trigger] r@[merging@.len() + k]).session_dir@ == waiting@[k]@
                && r@[merging@.len() + k].username@ == username_of(waiting@[k]@) && r@[merging@.len() + k].status@ == "waiting"@,
        decreases waiting.len() - j,
    {
        r.push(merge_dir_entry(&waiting[j], "waiting"));
        j += 1;
    }
    r
}

} // verus!
