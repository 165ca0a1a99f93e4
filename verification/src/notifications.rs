//! Notifications kept for the user in this process: scheduled tasks push
//! them, the interface lists them and marks them read.
//!
//! Every notification gets a fresh id, larger than every id before it; the
//! caller supplies the time and sends the event.
use vstd::prelude::*;

verus! {

/// How serious a notification is.
#[derive(Debug, Clone, Copy, PartialEq, Eq, Structural)]
pub enum NotificationLevel {
    Info,
    Warning,
    Error,
}

/// Something the user can do from a notification.
#[derive(Debug, Clone)]
pub struct NotificationAction {
    pub action_type: String,
    pub targets: Vec<String>,
}

/// A notification.
#[derive(Debug, Clone)]
pub struct Notification {
    pub id: u64,
    pub level: NotificationLevel,
    pub source: String,
    pub message: String,
    /// The translation key of the message, when it has one.
    pub message_key: Option<String>,
    /// The message's arguments, by name, as JSON texts.
    pub message_args: Option<Vec<(String, String)>>,
    /// When it was created (RFC 3339).
    pub created_at: String,
    pub action: Option<NotificationAction>,
}

/// The notifications not yet read, oldest first.
#[derive(Debug, Clone)]
pub struct NotificationStore {
    pub notifications: Vec<Notification>,
    /// The id the next notification gets.
    pub next_id: u64,
}

/// The ids of a sequence of notifications increase strictly and stay below `next`.
pub open spec fn ids_below(s: Seq<Notification>, next: u64) -> bool {
    &&& forall|i: int, j: int| 0 <= i < j < s.len() ==> (#[trigger] s[i]).id < (#[trigger] s[j]).id
    &&& forall|i: int| 0 <= i < s.len() ==> (#[trigger] s[i]).id < next
}

/// The notifications of `s` whose id is not in `ids`, in order.
pub open spec fn without_ids(s: Seq<Notification>, ids: Seq<u64>) -> Seq<Notification>
    decreases s.len(),
{
    if s.len() == 0 {
        seq![]
    } else {
        let p = without_ids(s.drop_last(), ids);
        if ids.contains(s.last().id) {
            p
        } else {
            p.push(s.last())
        }
    }
}

/// What is kept of `s` is a subsequence: each element kept comes from `s`.
pub proof fn lemma_without_ids_from(s: Seq<Notification>, ids: Seq<u64>)
    ensures
        forall|i: int| 0 <= i < without_ids(s, ids).len() ==> exists|j: int| 0 <= j < s.len() && s[j] == #[trigger] without_ids(s, ids)[i],
        without_ids(s, ids).len() <= s.len(),
    decreases s.len(),
{
    if s.len() > 0 {
        lemma_without_ids_from(s.drop_last(), ids);
        let p = without_ids(s.drop_last(), ids);
        assert forall|i: int| 0 <= i < without_ids(s, ids).len() implies exists|j: int| 0 <= j < s.len() && s[j] == #[trigger] without_ids(s, ids)[i] by {
            if i < p.len() {
                let j = choose|j: int| 0 <= j < s.drop_last().len() && s.drop_last()[j] == #[trigger] p[i];
                assert(s[j] == s.drop_last()[j]);
            } else {
                assert(s[s.len() - 1] == s.last());
            }
        }
    }
}

impl NotificationStore {
    /// The store's invariant: ids increase strictly, all below `next_id`.
    pub open spec fn wf(&self) -> bool {
        ids_below(self.notifications@, self.next_id)
    }

    /// An empty store; the first id is 1.
    pub fn new() -> (r: NotificationStore)
        ensures
            r.wf(),
            r.notifications@.len() == 0,
            r.next_id == 1,
    {
        NotificationStore { notifications: Vec::new(), next_id: 1 }
    }

    /// Adds a notification created at `created_at` and gives back its id,
    /// which is larger than every id given before.
    pub fn push_with_details(
        &mut self,
        level: NotificationLevel,
        source: String,
        message: String,
        message_key: Option<String>,
        message_args: Option<Vec<(String, String)>>,
        created_at: String,
        action: Option<NotificationAction>,
    ) -> (id: u64)
        requires
            old(self).wf(),
            old(self).next_id < u64::MAX,
        ensures
            final(self).wf(),
            id == old(self).next_id,
            final(self).next_id == old(self).next_id + 1,
            final(self).notifications@ == old(self).notifications@.push(Notification {
                id,
                level,
                source,
                message,
                message_key,
                message_args,
                created_at,
                action,
            }),
    {
        let id = self.next_id;
        self.next_id = self.next_id + 1;
        let n = Notification { id, level, source, message, message_key, message_args, created_at, action };
        self.notifications.push(n);
        id
    }

    /// Adds a notification without a translation key.
    pub fn push(&mut self, level: NotificationLevel, source: String, message: String, created_at: String, action: Option<NotificationAction>) -> (id: u64)
        requires
            old(self).wf(),
            old(self).next_id < u64::MAX,
        ensures
            final(self).wf(),
            id == old(self).next_id,
            final(self).next_id == old(self).next_id + 1,
            final(self).notifications@ == old(self).notifications@.push(Notification {
                id,
                level,
                source,
                message,
                message_key: None,
                message_args: None,
                created_at,
                action,
            }),
    {
        self.push_with_details(level, source, message, None, None, created_at, action)
    }

    /// Marks the notifications `ids` read: they leave the store.
    pub fn mark_read(&mut self, ids: &Vec<u64>)
        requires
            old(self).wf(),
        ensures
            final(self).wf(),
            final(self).notifications@ == without_ids(old(self).notifications@, ids@),
            final(self).next_id == old(self).next_id,
    {
        let ghost o = self.notifications@;
        let mut all: Vec<Notification> = Vec::new();
        std::mem::swap(&mut all, &mut self.notifications);
        let n = all.len();
        let mut rest = crate::recordings::reversed(all);
        assert(rest@ =~= o.subrange(0, n as int).reverse());
        let mut kept: Vec<Notification> = Vec::new();
        let mut k: usize = 0;
        while rest.len() > 0
            invariant
                k + rest@.len() == n,
                n == o.len(),
                rest@ == o.subrange(k as int, n as int).reverse(),
                kept@ == without_ids(o.subrange(0, k as int), ids@),
            decreases rest.len(),
        {
            let x = rest.pop().unwrap();
            proof {
                assert(x == o[k as int]);
                assert(rest@ =~= o.subrange(k + 1, n as int).reverse());
                assert(o.subrange(0, k + 1).drop_last() =~= o.subrange(0, k as int));
                assert(o.subrange(0, k + 1).last() == o[k as int]);
            }
            if !contains_id(ids, x.id) {
                kept.push(x);
            }
            k += 1;
        }
        assert(o.subrange(0, n as int) =~= o);
        proof {
            lemma_without_ids_keeps_order(o, ids@, self.next_id);
        }
        self.notifications = kept;
    }

    /// Drops every notification.
    pub fn clear_all(&mut self)
        requires
            old(self).wf(),
        ensures
            final(self).wf(),
            final(self).notifications@.len() == 0,
            final(self).next_id == old(self).next_id,
    {
        self.notifications = Vec::new();
    }

    /// How many notifications are unread.
    pub fn unread_count(&self) -> (r: usize)
        ensures
            r == self.notifications@.len(),
    {
        self.notifications.len()
    }
}

/// Whether `id` is among `ids`.
pub fn contains_id(ids: &Vec<u64>, id: u64) -> (r: bool)
    ensures
        r == ids@.contains(id),
{
    let mut i: usize = 0;
    while i < ids.len()
        invariant
            i <= ids@.len(),
            forall|j: int| 0 <= j < i ==> ids@[j] != id,
        decreases ids.len() - i,
    {
        if ids[i] == id {
            assert(ids@[i as int] == id);
            return true;
        }
        i += 1;
    }
    false
}

/// Dropping notifications keeps the ids increasing and below the next id.
pub proof fn lemma_without_ids_keeps_order(s: Seq<Notification>, ids: Seq<u64>, next: u64)
    requires
        ids_below(s, next),
    ensures
        ids_below(without_ids(s, ids), next),
    decreases s.len(),
{
    if s.len() > 0 {
        let d = s.drop_last();
        assert(ids_below(d, next)) by {
            assert forall|i: int, j: int| 0 <= i < j < d.len() implies (#[trigger] d[i]).id < (#[trigger] d[j]).id by {
                assert(d[i] == s[i] && d[j] == s[j]);
            }
            assert forall|i: int| 0 <= i < d.len() implies (#[trigger] d[i]).id < next by {
                assert(d[i] == s[i]);
            }
        }
        lemma_without_ids_keeps_order(d, ids, next);
        lemma_without_ids_from(d, ids);
        let p = without_ids(d, ids);
        if !ids.contains(s.last().id) {
            let q = p.push(s.last());
            assert forall|i: int, j: int| 0 <= i < j < q.len() implies (#[trigger] q[i]).id < (#[trigger] q[j]).id by {
                if j == q.len() - 1 {
                    let w = choose|k: int| 0 <= k < d.len() && d[k] == #[trigger] p[i];
                    assert(s[w] == d[w]);
                    assert(s[w].id < s[s.len() - 1].id);
                } else {
                    assert(q[i] == p[i] && q[j] == p[j]);
                }
            }
            assert forall|i: int| 0 <= i < q.len() implies (#[trigger] q[i]).id < next by {
                if i < p.len() {
                    assert(q[i] == p[i]);
                } else {
                    assert(s[s.len() - 1] == s.last());
                }
            }
        }
    }
}

/// A request to mark notifications read.
#[derive(Debug, Clone)]
pub struct MarkReadBody {
    pub ids: Vec<u64>,
}

} // verus!
