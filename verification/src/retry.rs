//! The retry agent: a worker that buffers failed deliveries and
//! re-emits each one to the hub once its fixed delay has elapsed.
//!
//! The queue discipline, the due-time arithmetic and the suspension
//! protocol are verified here.  The embedding owns the agent's thread
//! and its control channel, feeds every control message and every scan
//! tick into these functions, and performs the returned effects (hub
//! notifications, file writes and deletes for the durable backend).

use crate::mail::{Mail, MailModel};
use vstd::multiset::Multiset;
use vstd::prelude::*;

verus! {

/// One buffered delivery: when it is due, where it goes, what it
/// carries, and (for the durable backend) which file persists it.
pub struct RetryEntry {
    pub due_time: u64,
    pub dstname: String,
    pub mail: Mail,
    pub file_path: Option<String>,
}

/// The mathematical content of a [`RetryEntry`].
pub struct RetryEntryModel {
    pub due_time: u64,
    pub dstname: Seq<char>,
    pub mail: MailModel,
    pub file_path: Option<Seq<char>>,
}

impl View for RetryEntry {
    type V = RetryEntryModel;

    open spec fn view(&self) -> RetryEntryModel {
        RetryEntryModel {
            due_time: self.due_time,
            dstname: self.dstname@,
            mail: self.mail@,
            file_path: match self.file_path {
                Some(ref p) => Some(p@),
                None => None,
            },
        }
    }
}

/// The views of a queue of entries.
pub open spec fn queue_model(q: Vec<RetryEntry>) -> Seq<RetryEntryModel> {
    q@.map_values(|e: RetryEntry| e@)
}

/// Whether the queue is ordered by non-decreasing due time.
pub open spec fn queue_sorted(q: Seq<RetryEntryModel>) -> bool {
    forall|i: int, j: int|
        #![trigger q[i].due_time, q[j].due_time]
        0 <= i <= j < q.len() ==> q[i].due_time <= q[j].due_time
}

/// The agent's two live states: RUNNING re-emits due entries,
/// SUSPENDED keeps accepting entries but never re-emits.  Termination
/// is the closure of the control channel and needs no state of its own.
pub enum RetryMode {
    Running,
    Suspended,
}

/// The retry agent's state: its mode, the shared delay, and the pending
/// queue ordered by due time.
pub struct RetryAgentState {
    pub mode: RetryMode,
    pub delay: u64,
    pub queue: Vec<RetryEntry>,
}

/// How many entries at the head of the queue are due at `now`.
pub open spec fn due_prefix_len(q: Seq<RetryEntryModel>, now: u64) -> int
    decreases q.len(),
{
    if q.len() == 0 || q[0].due_time > now {
        0
    } else {
        1 + due_prefix_len(q.skip(1), now)
    }
}

/// The due prefix never exceeds the queue.
pub proof fn lemma_due_prefix_len_bounds(q: Seq<RetryEntryModel>, now: u64)
    ensures
        0 <= due_prefix_len(q, now) <= q.len(),
    decreases q.len(),
{
    if q.len() > 0 && q[0].due_time <= now {
        lemma_due_prefix_len_bounds(q.skip(1), now);
    }
}

/// In a queue ordered by due time, the head prefix of due entries is
/// exactly the set of due entries: an entry is re-emitted in a scan at
/// `now` if and only if its due time has been reached.  This is the
/// redelivery law: nothing leaves the queue early, and nothing due is
/// left behind by the scan that [`RetryAgentState::collect_due`]
/// performs.
pub proof fn lemma_due_prefix_exact(q: Seq<RetryEntryModel>, now: u64)
    requires
        queue_sorted(q),
    ensures
        forall|i: int|
            0 <= i < q.len() ==> (i < due_prefix_len(q, now) <==> (#[trigger] q[i]).due_time
                <= now),
    decreases q.len(),
{
    lemma_due_prefix_len_bounds(q, now);
    if q.len() > 0 {
        assert(queue_sorted(q.skip(1))) by {
            assert(forall|i: int, j: int|
                #![trigger q.skip(1)[i].due_time, q.skip(1)[j].due_time]
                0 <= i <= j < q.skip(1).len() ==> q.skip(1)[i].due_time <= q.skip(1)[j].due_time);
        }
        lemma_due_prefix_exact(q.skip(1), now);
        assert forall|i: int| 0 <= i < q.len() implies (i < due_prefix_len(q, now) <==> q[i].due_time
            <= now) by {
            if i >= 1 {
                assert(q.skip(1)[i - 1] == q[i]);
                assert(i - 1 < due_prefix_len(q.skip(1), now) <==> q.skip(1)[i - 1].due_time
                    <= now);
            }
        }
    }
}

/// Retry redelivery: in a queue ordered by due time, the entry at
/// position `i` — accepted at some time `t` and therefore due at
/// `t + delay`, see [`RetryAgentState::enqueue`] — is re-emitted by
/// the scan at `now` exactly when `now` has reached its due time:
/// never earlier, and never left behind once due.
pub proof fn lemma_retry_redelivery(q: Seq<RetryEntryModel>, i: int, now: u64)
    requires
        queue_sorted(q),
        0 <= i < q.len(),
    ensures
        (i < due_prefix_len(q, now)) <==> (q[i].due_time <= now),
{
    lemma_due_prefix_exact(q, now);
}

impl RetryAgentState {
    /// The queue is ordered by due time.
    pub open spec fn wf(&self) -> bool {
        queue_sorted(queue_model(self.queue))
    }

    /// A fresh agent with an empty queue, as the volatile backend starts.
    pub fn new_empty(delay: u64) -> (s: Self)
        ensures
            s.mode is Running,
            s.delay == delay,
            queue_model(s.queue) == Seq::<RetryEntryModel>::empty(),
            s.wf(),
    {
        let s = RetryAgentState { mode: RetryMode::Running, delay, queue: Vec::new() };
        proof {
            assert(queue_model(s.queue) =~= Seq::<RetryEntryModel>::empty());
        }
        s
    }

    /// Rebuilds the agent from entries restored off disk, as the durable
    /// backend starts: the same entries, ordered by due time.  The order
    /// in which the directory listed them does not matter.
    pub fn from_restored(delay: u64, entries: Vec<RetryEntry>) -> (s: Self)
        ensures
            s.mode is Running,
            s.delay == delay,
            s.wf(),
            queue_model(s.queue).to_multiset() == queue_model(entries).to_multiset(),
    {
        proof {
            broadcast use vstd::seq_lib::group_to_multiset_ensures;

        }
        let ghost orig = queue_model(entries);
        let mut rest = entries;
        let mut queue: Vec<RetryEntry> = Vec::new();
        proof {
            assert(queue_model(queue) =~= Seq::<RetryEntryModel>::empty());
            assert(queue_model(queue).to_multiset().add(queue_model(rest).to_multiset())
                =~= orig.to_multiset());
        }
        while rest.len() > 0
            invariant
                queue_sorted(queue_model(queue)),
                queue_model(queue).to_multiset().add(queue_model(rest).to_multiset())
                    == orig.to_multiset(),
                forall|a: int, b: int|
                    #![trigger queue_model(queue)[a].due_time, queue_model(rest)[b].due_time]
                    0 <= a < queue_model(queue).len() && 0 <= b < queue_model(rest).len()
                        ==> queue_model(queue)[a].due_time <= queue_model(rest)[b].due_time,
            decreases rest.len(),
        {
            let n = rest.len();
            let mut mi: usize = 0;
            let mut j: usize = 1;
            while j < n
                invariant
                    n == rest.len(),
                    mi < j <= n,
                    forall|b: int|
                        0 <= b < j ==> queue_model(rest)[mi as int].due_time <= (
                        #[trigger] queue_model(rest)[b]).due_time,
                decreases n - j,
            {
                if rest[j].due_time < rest[mi].due_time {
                    mi = j;
                }
                j = j + 1;
            }
            let ghost pre = queue_model(rest);
            let ghost preq = queue_model(queue);
            let e = rest.remove(mi);
            queue.push(e);
            proof {
                broadcast use vstd::seq_lib::group_to_multiset_ensures;

                assert(queue_model(rest) =~= pre.remove(mi as int));
                assert(queue_model(queue) =~= preq.push(e@));
                assert(e@ == pre[mi as int]);
                assert(queue_model(queue).to_multiset().add(queue_model(rest).to_multiset())
                    =~= orig.to_multiset()) by {
                    assert(queue_model(queue).to_multiset() =~= preq.to_multiset().insert(e@));
                    assert(queue_model(rest).to_multiset() =~= pre.to_multiset().remove(e@));
                    assert(pre.to_multiset().count(e@) > 0) by {
                        assert(pre.contains(pre[mi as int]));
                    }
                }
                assert(queue_sorted(queue_model(queue))) by {
                    assert(forall|a: int|
                        0 <= a < preq.len() ==> #[trigger] queue_model(queue)[a] == preq[a]);
                    assert(queue_model(queue)[preq.len() as int] == e@);
                }
                assert(forall|a: int, b: int|
                    #![trigger queue_model(queue)[a].due_time, queue_model(rest)[b].due_time]
                    0 <= a < queue_model(queue).len() && 0 <= b < queue_model(rest).len()
                        ==> queue_model(queue)[a].due_time <= queue_model(rest)[b].due_time) by {
                    assert(forall|b: int|
                        0 <= b < queue_model(rest).len() ==> (#[trigger] queue_model(rest)[b])
                            == (if b < mi as int {
                            pre[b]
                        } else {
                            pre[b + 1]
                        }));
                }
            }
        }
        proof {
            assert(queue_model(rest) =~= Seq::<RetryEntryModel>::empty());
            assert(queue_model(rest).to_multiset() =~= Multiset::<RetryEntryModel>::empty());
            assert(queue_model(queue).to_multiset().add(Multiset::<RetryEntryModel>::empty())
                =~= queue_model(queue).to_multiset());
        }
        RetryAgentState { mode: RetryMode::Running, delay, queue }
    }

    /// The due time an entry accepted at `now` receives.
    pub fn due_time(&self, now: u64) -> (t: u64)
        requires
            now + self.delay <= u64::MAX,
        ensures
            t == now + self.delay,
    {
        now + self.delay
    }

    /// Accepts one failed delivery at time `now`: the entry joins the
    /// tail of the queue, due after the configured delay.  Intake works
    /// in both modes; the mode never changes.  The caller's clock must
    /// not run backwards past an already queued entry.
    pub fn enqueue(&mut self, dstname: String, mail: Mail, file_path: Option<String>, now: u64)
        requires
            old(self).wf(),
            now + old(self).delay <= u64::MAX,
            queue_model(old(self).queue).len() == 0 || queue_model(old(self).queue).last().due_time
                <= now + old(self).delay,
        ensures
            final(self).mode == old(self).mode,
            final(self).delay == old(self).delay,
            queue_model(final(self).queue) == queue_model(old(self).queue).push(
                RetryEntryModel {
                    due_time: (now + old(self).delay) as u64,
                    dstname: dstname@,
                    mail: mail@,
                    file_path: match file_path {
                        Some(ref p) => Some(p@),
                        None => None,
                    },
                },
            ),
            final(self).wf(),
    {
        let due = now + self.delay;
        let entry = RetryEntry { due_time: due, dstname, mail, file_path };
        self.queue.push(entry);
        proof {
            let q = queue_model(self.queue);
            let oldq = queue_model(old(self).queue);
            assert(q =~= oldq.push(
                RetryEntryModel {
                    due_time: due,
                    dstname: entry.dstname@,
                    mail: entry.mail@,
                    file_path: match entry.file_path {
                        Some(ref p) => Some(p@),
                        None => None,
                    },
                },
            ));
            assert(queue_sorted(q)) by {
                assert(forall|i: int| 0 <= i < oldq.len() ==> q[i] == oldq[i]);
            }
        }
    }

    /// Suspends re-emission.  The returned acknowledgement is owed to
    /// the hub inbox at once: suspension is confirmed in the same step
    /// in which it is requested.  The queue is untouched and intake
    /// continues.
    pub fn suspend(&mut self) -> (ack: crate::hub::HubMessage)
        ensures
            final(self).mode is Suspended,
            final(self).delay == old(self).delay,
            final(self).queue == old(self).queue,
            ack is RetryAgentSuspended,
    {
        self.mode = RetryMode::Suspended;
        crate::hub::HubMessage::RetryAgentSuspended
    }

    /// One scan at time `now`: while RUNNING, removes and returns the
    /// head entries that are due (`due_time <= now`), in queue order;
    /// everything left is not yet due.  While SUSPENDED, returns
    /// nothing and changes nothing.  The caller re-emits each returned
    /// entry to the hub as a retry and, for the durable backend,
    /// deletes its file.
    pub fn collect_due(&mut self, now: u64) -> (due: Vec<RetryEntry>)
        requires
            old(self).wf(),
        ensures
            final(self).mode == old(self).mode,
            final(self).delay == old(self).delay,
            final(self).wf(),
            old(self).mode is Suspended ==> final(self).queue == old(self).queue && due@.len()
                == 0,
            old(self).mode is Running ==> {
                let k = due_prefix_len(queue_model(old(self).queue), now);
                &&& queue_model(due) == queue_model(old(self).queue).take(k)
                &&& queue_model(final(self).queue) == queue_model(old(self).queue).skip(k)
                &&& forall|i: int|
                    0 <= i < queue_model(final(self).queue).len() ==> (#[trigger] queue_model(
                        final(self).queue,
                    )[i]).due_time > now
            },
    {
        match self.mode {
            RetryMode::Suspended => {
                let due: Vec<RetryEntry> = Vec::new();
                proof {
                    assert(queue_model(due) =~= Seq::<RetryEntryModel>::empty());
                }
                due
            },
            RetryMode::Running => {
                proof {
                    lemma_due_prefix_len_bounds(queue_model(self.queue), now);
                    lemma_due_prefix_exact(queue_model(self.queue), now);
                }
                let ghost oldq = queue_model(self.queue);
                let ghost k = due_prefix_len(oldq, now);
                let n = self.queue.len();
                proof {
                    assert(oldq.len() == self.queue@.len());
                }
                let mut cnt: usize = 0;
                while cnt < n && self.queue[cnt].due_time <= now
                    invariant
                        n == self.queue.len(),
                        queue_model(self.queue) == oldq,
                        oldq.len() == n,
                        cnt <= k,
                        k == due_prefix_len(oldq, now),
                        0 <= k <= n,
                        forall|i: int|
                            0 <= i < oldq.len() ==> (i < k <==> (#[trigger] oldq[i]).due_time
                                <= now),
                    decreases n - cnt,
                {
                    proof {
                        assert(queue_model(self.queue)[cnt as int] == oldq[cnt as int]);
                        assert(oldq[cnt as int].due_time <= now);
                        assert(cnt < k);
                    }
                    cnt = cnt + 1;
                }
                proof {
                    assert(cnt == k) by {
                        if cnt < k {
                            assert(oldq[cnt as int].due_time <= now);
                            assert(queue_model(self.queue)[cnt as int] == oldq[cnt as int]);
                        }
                    }
                }
                let mut rest = self.queue.split_off(cnt);
                core::mem::swap(&mut self.queue, &mut rest);
                let due_entries = rest;
                proof {
                    assert(queue_model(due_entries) =~= oldq.take(k));
                    assert(queue_model(self.queue) =~= oldq.skip(k));
                    assert(queue_sorted(queue_model(self.queue))) by {
                        assert(forall|i: int, j: int|
                            #![trigger oldq.skip(k)[i].due_time, oldq.skip(k)[j].due_time]
                            0 <= i <= j < oldq.skip(k).len() ==> oldq.skip(k)[i].due_time
                                <= oldq.skip(k)[j].due_time);
                    }
                    assert(forall|i: int|
                        0 <= i < queue_model(self.queue).len() ==> (#[trigger] queue_model(
                            self.queue,
                        )[i]).due_time > now) by {
                        assert(forall|i: int|
                            0 <= i < oldq.skip(k).len() ==> (#[trigger] oldq.skip(k)[i]).due_time
                                > now);
                    }
                }
                due_entries
            },
        }
    }
}

} // verus!
